//! Splitting artifact text into lines: the specification of what a line is
//! and a verified splitter used by the queue and log readers.
//!
//! A line ends at `'\n'`; a carriage return just before the line end is not
//! part of the line; text after the last `'\n'`, if any, is a final line.
use vstd::prelude::*;

verus! {

/// Index of the first `'\n'` in `s`, or `s.len()` if there is none.
pub open spec fn first_nl(s: Seq<char>) -> nat
    decreases s.len(),
{
    if s.len() == 0 {
        0
    } else if s[0] == '\n' {
        0
    } else {
        1 + first_nl(s.drop_first())
    }
}

/// A segment without its trailing carriage return, if it has one.
pub open spec fn strip_cr(s: Seq<char>) -> Seq<char> {
    if s.len() > 0 && s[s.len() - 1] == '\r' {
        s.drop_last()
    } else {
        s
    }
}

pub proof fn lemma_first_nl(s: Seq<char>)
    ensures
        first_nl(s) <= s.len(),
        forall|j: int| 0 <= j < first_nl(s) ==> s[j] != '\n',
        first_nl(s) < s.len() ==> s[first_nl(s) as int] == '\n',
    decreases s.len(),
{
    if s.len() == 0 {
    } else if s[0] == '\n' {
    } else {
        lemma_first_nl(s.drop_first());
        assert forall|j: int| 0 <= j < first_nl(s) implies s[j] != '\n' by {
            if j > 0 {
                assert(s.drop_first()[j - 1] == s[j]);
            }
        }
        if first_nl(s) < s.len() {
            assert(s.drop_first()[first_nl(s) - 1] == s[first_nl(s) as int]);
        }
    }
}

/// `first_nl` is pinned by any index below which there is no newline and at
/// which, if inside the text, a newline stands.
pub proof fn lemma_first_nl_pin(s: Seq<char>, k: nat)
    requires
        k <= s.len(),
        forall|j: int| 0 <= j < k ==> s[j] != '\n',
        k < s.len() ==> s[k as int] == '\n',
    ensures
        first_nl(s) == k,
{
    lemma_first_nl(s);
    if first_nl(s) < k {
        assert(s[first_nl(s) as int] != '\n');
    }
    if first_nl(s) > k {
        assert(k < s.len());
    }
}

/// The lines of `s`, in their original top-to-bottom order.
pub open spec fn spec_lines(s: Seq<char>) -> Seq<Seq<char>>
    decreases s.len(),
    via spec_lines_decreases
{
    if s.len() == 0 {
        Seq::empty()
    } else {
        let k = first_nl(s);
        if k == s.len() {
            seq![strip_cr(s)]
        } else {
            seq![strip_cr(s.take(k as int))] + spec_lines(s.skip(k as int + 1))
        }
    }
}

#[via_fn]
proof fn spec_lines_decreases(s: Seq<char>) {
    lemma_first_nl(s);
}

/// Split text into lines, matching `spec_lines`.
pub fn split_lines(s: &str) -> (r: Vec<String>)
    ensures
        r.deep_view() == spec_lines(s@),
{
    let n = s.unicode_len();
    let mut r: Vec<String> = Vec::new();
    let mut start: usize = 0;
    let mut i: usize = 0;
    proof {
        assert(s@.skip(0) =~= s@);
        assert(r.deep_view() + spec_lines(s@.skip(0)) =~~= spec_lines(s@));
    }
    while i < n
        invariant
            start <= i <= n,
            n == s@.len(),
            forall|j: int| start <= j < i ==> s@[j] != '\n',
            spec_lines(s@) == r.deep_view() + spec_lines(s@.skip(start as int)),
        decreases n - i,
    {
        if s.get_char(i) == '\n' {
            let end = if i > start && s.get_char(i - 1) == '\r' {
                i - 1
            } else {
                i
            };
            let line = s.substring_char(start, end).to_owned();
            proof {
                let t = s@.skip(start as int);
                lemma_first_nl_pin(t, (i - start) as nat);
                assert(t.take(i - start as int) =~= s@.subrange(start as int, i as int));
                assert(t.skip(i - start as int + 1) =~= s@.skip(i as int + 1));
                assert(strip_cr(s@.subrange(start as int, i as int)) =~= s@.subrange(
                    start as int,
                    end as int,
                ));
                assert(line@ == strip_cr(t.take(i - start as int)));
                let old_dv = r.deep_view();
                assert((r.deep_view().push(line@)) =~= old_dv + seq![line@]);
                assert(spec_lines(t) == seq![line@] + spec_lines(s@.skip(i as int + 1)));
            }
            let ghost prev = r.deep_view();
            r.push(line);
            proof {
                assert(r.deep_view() =~= prev.push(
                    strip_cr(s@.skip(start as int).take(i - start as int)),
                ));
                assert(spec_lines(s@) =~= r.deep_view() + spec_lines(s@.skip(i as int + 1)));
            }
            start = i + 1;
        }
        i += 1;
    }
    if start < n {
        let end = if s.get_char(n - 1) == '\r' {
            n - 1
        } else {
            n
        };
        let line = s.substring_char(start, end).to_owned();
        proof {
            let t = s@.skip(start as int);
            lemma_first_nl_pin(t, (n - start) as nat);
            assert(t =~= s@.subrange(start as int, n as int));
            assert(strip_cr(t) =~= s@.subrange(start as int, end as int));
            assert(spec_lines(t) == seq![strip_cr(t)]);
        }
        let ghost prev = r.deep_view();
        r.push(line);
        proof {
            assert(r.deep_view() =~= prev.push(strip_cr(s@.skip(start as int))));
            assert(spec_lines(s@) =~= r.deep_view());
        }
    } else {
        proof {
            assert(s@.skip(start as int) =~= Seq::<char>::empty());
            assert(spec_lines(s@) =~= r.deep_view());
        }
    }
    r
}

} // verus!
