//! A small terminal-dashboard core: the application state, the panel state
//! machine, the refresh protocol that reconciles on-disk artifacts into the
//! state, and the pure computation of what each panel displays.
pub mod input;
pub mod json;
pub mod lines;
pub mod logs;
pub mod readers;
pub mod refresh;
pub mod render;
pub mod state;
pub mod time;
