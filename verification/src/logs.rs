//! The log reader's pure half: order log files by modification time,
//! newest first, then walk backward through their lines under a fixed
//! line budget, keeping each file's internal order.
use vstd::prelude::*;
use crate::lines::{spec_lines, split_lines};

verus! {

/// One log file as handed in by the scanning edge: its modification time
/// (any monotone encoding, e.g. milliseconds) and its text.
#[derive(Debug)]
pub struct LogFile {
    pub modified: u64,
    pub content: String,
}

/// The mathematical value of a log file.
pub struct LogFileView {
    pub modified: u64,
    pub content: Seq<char>,
}

impl View for LogFile {
    type V = LogFileView;

    open spec fn view(&self) -> LogFileView {
        LogFileView { modified: self.modified, content: self.content@ }
    }
}

impl DeepView for LogFile {
    type V = LogFileView;

    open spec fn deep_view(&self) -> LogFileView {
        self@
    }
}

/// Insert `x` into a list sorted by `modified` descending, after every
/// element at least as recent, so that equal stamps keep insertion order.
pub open spec fn insert_desc(sorted: Seq<LogFileView>, x: LogFileView) -> Seq<LogFileView>
    decreases sorted.len(),
{
    if sorted.len() == 0 {
        seq![x]
    } else if sorted[0].modified >= x.modified {
        seq![sorted[0]] + insert_desc(sorted.drop_first(), x)
    } else {
        seq![x] + sorted
    }
}

/// The files sorted by modification time descending; ties keep input order.
pub open spec fn sort_desc(files: Seq<LogFileView>) -> Seq<LogFileView>
    decreases files.len(),
{
    if files.len() == 0 {
        Seq::empty()
    } else {
        insert_desc(sort_desc(files.drop_last()), files.last())
    }
}

/// Where `insert_desc` puts `x`: at the first index whose stamp is older.
pub proof fn lemma_insert_desc_at(s: Seq<LogFileView>, x: LogFileView, j: nat)
    requires
        j <= s.len(),
        forall|k: int| 0 <= k < j ==> s[k].modified >= x.modified,
        j < s.len() ==> s[j as int].modified < x.modified,
    ensures
        insert_desc(s, x) =~= s.take(j as int) + seq![x] + s.skip(j as int),
    decreases s.len(),
{
    if s.len() == 0 {
        assert(insert_desc(s, x) =~= s.take(0) + seq![x] + s.skip(0));
    } else if j == 0 {
        assert(s[0].modified < x.modified);
        assert(insert_desc(s, x) =~= s.take(0) + seq![x] + s.skip(0));
    } else {
        assert(s[0].modified >= x.modified);
        let t = s.drop_first();
        assert forall|k: int| 0 <= k < j - 1 implies t[k].modified >= x.modified by {
            assert(t[k] == s[k + 1]);
        }
        lemma_insert_desc_at(t, x, (j - 1) as nat);
        assert(t.take(j - 1) =~= s.subrange(1, j as int));
        assert(t.skip(j - 1) =~= s.skip(j as int));
        assert(insert_desc(s, x) =~= seq![s[0]] + (t.take(j - 1) + seq![x] + t.skip(j - 1)));
        assert(seq![s[0]] + s.subrange(1, j as int) =~= s.take(j as int));
        assert(insert_desc(s, x) =~= s.take(j as int) + seq![x] + s.skip(j as int));
    }
}

/// Insert one file into a vector sorted by `modified` descending.
fn insert_file_desc(sorted: &mut Vec<LogFile>, f: LogFile)
    ensures
        final(sorted).deep_view() == insert_desc(old(sorted).deep_view(), f@),
{
    let mut j: usize = 0;
    while j < sorted.len() && sorted[j].modified >= f.modified
        invariant
            j <= sorted@.len(),
            forall|k: int| 0 <= k < j ==> sorted.deep_view()[k].modified >= f@.modified,
            sorted == old(sorted),
        decreases sorted@.len() - j,
    {
        j += 1;
    }
    proof {
        lemma_insert_desc_at(sorted.deep_view(), f@, j as nat);
    }
    let ghost prev = sorted.deep_view();
    sorted.insert(j, f);
    proof {
        assert(sorted.deep_view() =~= prev.take(j as int) + seq![f@] + prev.skip(j as int));
    }
}

/// Sort files by modification time descending (ties keep input order).
fn sort_files_desc(files: Vec<LogFile>) -> (r: Vec<LogFile>)
    ensures
        r.deep_view() == sort_desc(files.deep_view()),
{
    let ghost orig = files.deep_view();
    let mut rest = files;
    let mut sorted: Vec<LogFile> = Vec::new();
    let ghost mut processed: Seq<LogFileView> = Seq::empty();
    proof {
        assert(processed + rest.deep_view() =~= orig);
        assert(sorted.deep_view() =~= sort_desc(processed));
    }
    while rest.len() > 0
        invariant
            processed + rest.deep_view() =~= orig,
            sorted.deep_view() == sort_desc(processed),
        decreases rest@.len(),
    {
        let f = rest.remove(0);
        proof {
            let ghost old_processed = processed;
            processed = processed.push(f@);
            assert(processed.drop_last() =~= old_processed);
            assert(sort_desc(processed) == insert_desc(sort_desc(old_processed), f@));
        }
        insert_file_desc(&mut sorted, f);
        proof {
            assert(processed + rest.deep_view() =~= orig);
        }
    }
    proof {
        assert(processed =~= orig);
    }
    sorted
}

/// The tail walk: files newest first; from each, as many of its last lines
/// as the remaining budget admits, in the file's own order; chunks from
/// older files stand before chunks from newer ones.
pub open spec fn tail_rec(files: Seq<LogFileView>, budget: nat) -> Seq<Seq<char>>
    decreases files.len(),
{
    if files.len() == 0 {
        Seq::empty()
    } else {
        let lns = spec_lines(files[0].content);
        let t = if lns.len() <= budget {
            lns.len()
        } else {
            budget
        };
        tail_rec(files.drop_first(), (budget - t) as nat) + lns.skip(lns.len() - t)
    }
}

/// The tail walk never exceeds its budget.
pub proof fn lemma_tail_rec_len(files: Seq<LogFileView>, budget: nat)
    ensures
        tail_rec(files, budget).len() <= budget,
    decreases files.len(),
{
    if files.len() > 0 {
        let lns = spec_lines(files[0].content);
        let t: nat = if lns.len() <= budget {
            lns.len()
        } else {
            budget
        };
        lemma_tail_rec_len(files.drop_first(), (budget - t) as nat);
    }
}

/// Chunks concatenated in reverse order: the last chunk leftmost.
pub open spec fn concat_rev(chunks: Seq<Seq<Seq<char>>>) -> Seq<Seq<char>>
    decreases chunks.len(),
{
    if chunks.len() == 0 {
        Seq::empty()
    } else {
        chunks.last() + concat_rev(chunks.drop_last())
    }
}

proof fn lemma_concat_rev_first(chunks: Seq<Seq<Seq<char>>>)
    requires
        chunks.len() > 0,
    ensures
        concat_rev(chunks) =~~= concat_rev(chunks.drop_first()) + chunks[0],
    decreases chunks.len(),
{
    if chunks.len() == 1 {
        assert(chunks.drop_last() =~= Seq::<Seq<Seq<char>>>::empty());
        assert(chunks.drop_first() =~= Seq::<Seq<Seq<char>>>::empty());
        assert(concat_rev(Seq::<Seq<Seq<char>>>::empty()) =~~= Seq::<Seq<char>>::empty());
        assert(chunks.last() == chunks[0]);
        assert(concat_rev(chunks) =~~= chunks[0]);
    } else {
        let inner = chunks.drop_last();
        lemma_concat_rev_first(inner);
        assert(inner[0] == chunks[0]);
        assert(inner.drop_first() =~= chunks.drop_first().drop_last());
        assert(chunks.drop_first().last() == chunks.last());
        assert(concat_rev(chunks.drop_first()) =~~= chunks.last() + concat_rev(
            chunks.drop_first().drop_last(),
        ));
        assert(concat_rev(chunks) =~~= chunks.last() + (concat_rev(inner.drop_first())
            + inner[0]));
    }
}

/// The most recent lines across all log files: order the files by
/// modification time descending and walk them under the line budget.
pub fn read_latest_logs(files: Vec<LogFile>, max_lines: usize) -> (r: Vec<String>)
    ensures
        r.deep_view() == tail_rec(sort_desc(files.deep_view()), max_lines as nat),
        r@.len() <= max_lines,
{
    let sorted = sort_files_desc(files);
    let ghost sv = sorted.deep_view();
    let mut chunks: Vec<Vec<String>> = Vec::new();
    let mut budget = max_lines;
    let mut idx: usize = 0;
    proof {
        assert(sv.skip(0) =~= sv);
        assert(tail_rec(sv, max_lines as nat) =~~= tail_rec(sv.skip(0), budget as nat)
            + concat_rev(chunks.deep_view()));
    }
    while idx < sorted.len()
        invariant
            idx <= sorted@.len(),
            sv == sorted.deep_view(),
            budget <= max_lines,
            tail_rec(sv, max_lines as nat) =~~= tail_rec(sv.skip(idx as int), budget as nat)
                + concat_rev(chunks.deep_view()),
        decreases sorted@.len() - idx,
    {
        let lines = split_lines(sorted[idx].content.as_str());
        let t = if lines.len() <= budget {
            lines.len()
        } else {
            budget
        };
        let mut chunk: Vec<String> = Vec::new();
        let mut m = lines.len() - t;
        proof {
            assert(chunk.deep_view() =~= lines.deep_view().subrange(
                (lines@.len() - t) as int,
                m as int,
            ));
        }
        while m < lines.len()
            invariant
                lines@.len() - t <= m <= lines@.len(),
                t <= lines@.len(),
                chunk.deep_view() =~= lines.deep_view().subrange(
                    (lines@.len() - t) as int,
                    m as int,
                ),
            decreases lines@.len() - m,
        {
            let ghost prev = chunk.deep_view();
            chunk.push(lines[m].clone());
            proof {
                assert(chunk.deep_view() =~= prev.push(lines.deep_view()[m as int]));
                assert(chunk.deep_view() =~= lines.deep_view().subrange(
                    (lines@.len() - t) as int,
                    m + 1,
                ));
            }
            m += 1;
        }
        proof {
            let fv = sv[idx as int];
            assert(lines.deep_view() == spec_lines(fv.content));
            let rest = sv.skip(idx as int);
            assert(rest[0] == fv);
            assert(rest.drop_first() =~= sv.skip(idx as int + 1));
            assert(chunk.deep_view() =~= spec_lines(fv.content).skip(
                spec_lines(fv.content).len() - t,
            ));
            assert(tail_rec(rest, budget as nat) =~~= tail_rec(
                sv.skip(idx as int + 1),
                (budget - t) as nat,
            ) + chunk.deep_view());
        }
        let ghost prev_chunks = chunks.deep_view();
        let ghost chunk_dv = chunk.deep_view();
        chunks.push(chunk);
        proof {
            assert(chunks.deep_view() =~= prev_chunks.push(chunk_dv));
            assert(chunks.deep_view().drop_last() =~= prev_chunks);
            assert(chunks.deep_view().last() == chunk_dv);
            assert(concat_rev(chunks.deep_view()) =~~= chunk_dv + concat_rev(prev_chunks));
            assert(tail_rec(sv, max_lines as nat) =~~= tail_rec(
                sv.skip(idx as int + 1),
                (budget - t) as nat,
            ) + concat_rev(chunks.deep_view()));
        }
        budget = budget - t;
        idx += 1;
    }
    proof {
        assert(sv.skip(sv.len() as int) =~= Seq::<LogFileView>::empty());
        assert(tail_rec(sv, max_lines as nat) =~~= concat_rev(chunks.deep_view()));
    }
    let cv = chunks;
    let mut r: Vec<String> = Vec::new();
    let mut k = cv.len();
    proof {
        assert(cv.deep_view().skip(k as int) =~= Seq::<Seq<Seq<char>>>::empty());
        assert(r.deep_view() =~~= concat_rev(cv.deep_view().skip(k as int)));
    }
    while k > 0
        invariant
            k <= cv@.len(),
            r.deep_view() =~~= concat_rev(cv.deep_view().skip(k as int)),
        decreases k,
    {
        k = k - 1;
        let chunk = &cv[k];
        let mut m: usize = 0;
        proof {
            lemma_concat_rev_first(cv.deep_view().skip(k as int));
            assert(cv.deep_view().skip(k as int).drop_first() =~= cv.deep_view().skip(
                k as int + 1,
            ));
            assert(cv.deep_view().skip(k as int)[0] == cv.deep_view()[k as int]);
        }
        while m < chunk.len()
            invariant
                m <= chunk@.len(),
                chunk.deep_view() == cv.deep_view()[k as int],
                k < cv@.len(),
                r.deep_view() =~~= concat_rev(cv.deep_view().skip(k as int + 1))
                    + chunk.deep_view().take(m as int),
            decreases chunk@.len() - m,
        {
            let ghost prev = r.deep_view();
            r.push(chunk[m].clone());
            proof {
                assert(r.deep_view() =~= prev.push(chunk.deep_view()[m as int]));
                assert(chunk.deep_view().take(m + 1) =~= chunk.deep_view().take(m as int).push(
                    chunk.deep_view()[m as int],
                ));
            }
            m += 1;
        }
        proof {
            assert(chunk.deep_view().take(chunk@.len() as int) =~= chunk.deep_view());
            assert(r.deep_view() =~~= concat_rev(cv.deep_view().skip(k as int)));
        }
    }
    proof {
        assert(cv.deep_view().skip(0) =~= cv.deep_view());
        lemma_tail_rec_len(sv, max_lines as nat);
    }
    r
}

} // verus!
