use agent_dashboard::lines::split_lines;
use agent_dashboard::logs::{read_latest_logs, LogFile};
use agent_dashboard::readers::{parse_agent_card, read_memory, read_queue, read_semgrep, scan_agents};

#[test]
fn split_lines_handles_terminators() {
    let r = split_lines("a\nb\nc");
    assert_eq!(r, vec!["a".to_string(), "b".to_string(), "c".to_string()]);
    let r = split_lines("a\nb\n");
    assert_eq!(r, vec!["a".to_string(), "b".to_string()]);
    let r = split_lines("a\r\nb\r\n");
    assert_eq!(r, vec!["a".to_string(), "b".to_string()]);
    let r = split_lines("");
    assert!(r.is_empty());
    let r = split_lines("\n\n");
    assert_eq!(r, vec!["".to_string(), "".to_string()]);
}

#[test]
fn queue_of_sixty_lines_keeps_last_fifty_newest_first() {
    let mut text = String::new();
    for i in 0..60 {
        text.push_str(&format!("cmd{}\n", i));
    }
    let r = read_queue(&Some(text));
    assert_eq!(r.len(), 50);
    assert_eq!(r[0], "cmd59");
    assert_eq!(r[1], "cmd58");
    assert_eq!(r[49], "cmd10");
}

#[test]
fn queue_missing_file_is_empty() {
    let r = read_queue(&None);
    assert!(r.is_empty());
}

#[test]
fn queue_shorter_than_cap_is_fully_reversed() {
    let r = read_queue(&Some("a\nb\nc\n".to_string()));
    assert_eq!(r, vec!["c".to_string(), "b".to_string(), "a".to_string()]);
}

fn file_of(modified: u64, prefix: &str, lines: usize) -> LogFile {
    let mut content = String::new();
    for i in 0..lines {
        content.push_str(&format!("{}{}\n", prefix, i));
    }
    LogFile { modified, content }
}

#[test]
fn two_log_files_of_four_hundred_lines_fill_the_budget() {
    let older = file_of(100, "old", 400);
    let newer = file_of(200, "new", 400);
    let r = read_latest_logs(vec![older, newer], 500);
    assert_eq!(r.len(), 500);
    // the older file contributes its last 100 lines first, in natural order
    assert_eq!(r[0], "old300");
    assert_eq!(r[99], "old399");
    // then the newer file's 400 lines, in natural order
    assert_eq!(r[100], "new0");
    assert_eq!(r[499], "new399");
}

#[test]
fn log_order_ignores_listing_order() {
    let newer = file_of(9, "n", 2);
    let older = file_of(3, "o", 2);
    let r = read_latest_logs(vec![newer, older], 3);
    // newest file first in the walk, so the older file's tail lands in front
    assert_eq!(r, vec!["o1".to_string(), "n0".to_string(), "n1".to_string()]);
}

#[test]
fn no_log_files_give_an_empty_buffer() {
    let r = read_latest_logs(Vec::new(), 500);
    assert!(r.is_empty());
}

#[test]
fn agent_card_parses_all_fields() {
    let card = parse_agent_card(
        "{\"uuid\":\"u1\",\"name\":\"alpha\",\"description\":\"d\",\"capabilities\":[\"x\",\"y\"]}",
    )
    .unwrap();
    assert_eq!(card.uuid, "u1");
    assert_eq!(card.name, "alpha");
    assert_eq!(card.description.as_deref(), Some("d"));
    assert_eq!(card.capabilities, Some(vec!["x".to_string(), "y".to_string()]));
}

#[test]
fn agent_card_optional_fields_may_be_absent_or_null() {
    let card = parse_agent_card("{\"uuid\":\"u1\",\"name\":\"alpha\"}").unwrap();
    assert!(card.description.is_none());
    assert!(card.capabilities.is_none());
    let card =
        parse_agent_card("{\"uuid\":\"u1\",\"name\":\"alpha\",\"description\":null}").unwrap();
    assert!(card.description.is_none());
}

#[test]
fn malformed_agent_cards_are_rejected() {
    assert!(parse_agent_card("not json").is_none());
    assert!(parse_agent_card("{\"name\":\"missing uuid\"}").is_none());
    assert!(parse_agent_card("{\"uuid\":\"u\",\"name\":7}").is_none());
    assert!(parse_agent_card("{\"uuid\":\"u\",\"name\":\"n\",\"description\":5}").is_none());
    assert!(parse_agent_card("{\"uuid\":\"u\",\"name\":\"n\",\"capabilities\":[1]}").is_none());
}

#[test]
fn scan_skips_malformed_files_and_keeps_the_rest() {
    let files = vec![
        "{\"uuid\":\"a\",\"name\":\"A\"}".to_string(),
        "garbage".to_string(),
        "{\"uuid\":\"b\",\"name\":\"B\"}".to_string(),
    ];
    let cards = scan_agents(&files);
    assert_eq!(cards.len(), 2);
    assert_eq!(cards[0].uuid, "a");
    assert_eq!(cards[1].uuid, "b");
}

#[test]
fn memory_reader_reads_the_used_field() {
    let m = read_memory(&Some("{\"used\": 42}".to_string())).unwrap();
    assert_eq!(m.used, 42);
}

#[test]
fn memory_reader_fails_without_an_unsigned_used_field() {
    assert!(read_memory(&Some("{\"total\": 10}".to_string())).is_none());
    assert!(read_memory(&Some("{\"used\": \"lots\"}".to_string())).is_none());
    assert!(read_memory(&Some("{\"used\": -3}".to_string())).is_none());
    assert!(read_memory(&Some("[1, 2]".to_string())).is_none());
}

#[test]
fn memory_reader_fails_on_missing_or_malformed_files() {
    assert!(read_memory(&None).is_none());
    assert!(read_memory(&Some("{broken".to_string())).is_none());
}

#[test]
fn semgrep_reader_parses_alerts_and_skips_bad_records() {
    let text = "[{\"path\":\"a.rs\",\"message\":\"m1\",\"severity\":\"ERROR\"},\
                 {\"path\":\"b.rs\",\"message\":\"m2\"},\
                 {\"path\":\"c.rs\",\"message\":\"m3\",\"severity\":\"info\"}]";
    let alerts = read_semgrep(&Some(text.to_string()));
    assert_eq!(alerts.len(), 2);
    assert_eq!(alerts[0].path, "a.rs");
    assert_eq!(alerts[0].severity, "ERROR");
    assert_eq!(alerts[1].path, "c.rs");
}

#[test]
fn semgrep_reader_degrades_to_empty() {
    assert!(read_semgrep(&None).is_empty());
    assert!(read_semgrep(&Some("{\"not\":\"an array\"}".to_string())).is_empty());
    assert!(read_semgrep(&Some("broken".to_string())).is_empty());
}
