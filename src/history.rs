//! The commit history: lines of the log query become commit records, and the
//! records give the creation date and the number of commits.

use crate::probes::{unknown, unknown_string};
use crate::text::{decimal, decimal_string, line_views};
use vstd::prelude::*;
use vstd::string::*;

verus! {

/// One commit of the history: when it was made, as a relative time label,
/// and who made it.
#[derive(Clone, Debug)]
pub struct CommitRecord {
    pub time: String,
    pub author: String,
}

/// The place of the first `c` in `s`, or the length of `s` where there is none.
pub open spec fn field_end(s: Seq<char>, c: char) -> nat
    decreases s.len(),
{
    if s.len() == 0 {
        0
    } else if s[0] == c {
        0
    } else {
        1 + field_end(s.drop_first(), c)
    }
}

/// The fields that a history line `time<TAB>author[<TAB>...]` holds, or `None`
/// for a line without a tab.
pub open spec fn parse_line(s: Seq<char>) -> Option<(Seq<char>, Seq<char>)> {
    let t = field_end(s, '\t') as int;
    if t >= s.len() {
        None
    } else {
        let rest = s.subrange(t + 1, s.len() as int);
        Some((s.subrange(0, t), rest.subrange(0, field_end(rest, '\t') as int)))
    }
}

/// The records of the well-formed lines of `lines`, in order.
pub open spec fn parse_lines(lines: Seq<Seq<char>>) -> Seq<(Seq<char>, Seq<char>)>
    decreases lines.len(),
{
    if lines.len() == 0 {
        Seq::empty()
    } else {
        match parse_line(lines.last()) {
            Some(rec) => parse_lines(lines.drop_last()).push(rec),
            None => parse_lines(lines.drop_last()),
        }
    }
}

/// The view of a record list.
pub open spec fn record_views(records: Seq<CommitRecord>) -> Seq<(Seq<char>, Seq<char>)> {
    records.map_values(|c: CommitRecord| (c.time@, c.author@))
}

proof fn lemma_field_end(s: Seq<char>, c: char, i: int)
    requires
        0 <= i <= s.len(),
        forall|k: int| 0 <= k < i ==> s[k] != c,
        i == s.len() || s[i] == c,
    ensures
        field_end(s, c) == i,
    decreases i,
{
    if i > 0 {
        lemma_field_end(s.drop_first(), c, i - 1);
    }
}

/// The end of the field of `s` that starts at `from`: the place of the next
/// `c`, or the length of `s`.
fn find_field_end(s: &str, from: usize, c: char) -> (r: usize)
    requires
        from <= s@.len(),
    ensures
        r as int == from + field_end(s@.subrange(from as int, s@.len() as int), c),
        r <= s@.len(),
{
    let n = s.unicode_len();
    let mut i = from;
    while i < n && s.get_char(i) != c
        invariant
            n == s@.len(),
            from <= i <= n,
            forall|k: int| from <= k < i ==> s@[k] != c,
        decreases n - i,
    {
        i = i + 1;
    }
    proof {
        lemma_field_end(s@.subrange(from as int, n as int), c, i - from);
    }
    i
}

/// Reads one line of the log query, `time<TAB>author`; a line without a tab
/// gives `None`.
pub fn parse_history_line(line: &str) -> (r: Option<CommitRecord>)
    ensures
        r is None <==> parse_line(line@) is None,
        r is Some ==> parse_line(line@) == Some((r->0.time@, r->0.author@)),
{
    let n = line.unicode_len();
    let t = find_field_end(line, 0, '\t');
    assert(line@.subrange(0, n as int) =~= line@);
    if t >= n {
        return None;
    }
    let e = find_field_end(line, t + 1, '\t');
    let time = String::from_str(line.substring_char(0, t));
    let author = String::from_str(line.substring_char(t + 1, e));
    proof {
        let rest = line@.subrange(t + 1, n as int);
        assert(rest.subrange(0, e - (t + 1)) =~= line@.subrange(t + 1, e as int));
    }
    Some(CommitRecord { time, author })
}

/// Reads the lines of the log query into commit records, newest first as the
/// query gives them; a line without a tab is skipped.
pub fn parse_history(lines: &Vec<String>) -> (r: Vec<CommitRecord>)
    ensures
        record_views(r@) == parse_lines(line_views(lines@)),
{
    let mut out: Vec<CommitRecord> = Vec::new();
    let mut i: usize = 0;
    while i < lines.len()
        invariant
            i <= lines.len(),
            record_views(out@) == parse_lines(line_views(lines@.subrange(0, i as int))),
        decreases lines.len() - i,
    {
        proof {
            assert(line_views(lines@.subrange(0, i + 1)).drop_last() =~= line_views(
                lines@.subrange(0, i as int),
            ));
        }
        match parse_history_line(lines[i].as_str()) {
            Some(rec) => {
                let ghost before = out@;
                out.push(rec);
                assert(record_views(out@) =~= record_views(before).push(
                    (out@.last().time@, out@.last().author@),
                ));
            },
            None => {},
        }
        i = i + 1;
    }
    assert(lines@.subrange(0, lines.len() as int) =~= lines@);
    out
}

/// The creation date: the time of the oldest record, the last one, or `"??"`
/// where there is none.
pub fn get_creation_date(records: &Vec<CommitRecord>) -> (r: String)
    ensures
        records@.len() > 0 ==> r@ == records@.last().time@,
        records@.len() == 0 ==> r@ == unknown(),
{
    if records.len() == 0 {
        unknown_string()
    } else {
        records[records.len() - 1].time.clone()
    }
}

/// The number of commits, in decimal.
pub fn get_number_of_commits(records: &Vec<CommitRecord>) -> (r: String)
    ensures
        r@ == decimal(records@.len()),
{
    decimal_string(records.len() as u64)
}

} // verus!
