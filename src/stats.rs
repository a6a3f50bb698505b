//! The language reducer: line counts per language become a ranked list of
//! shares, and the ranked list becomes the short list shown on screen.

use crate::error::Error;
use crate::language::Language;
use vstd::prelude::*;

verus! {

/// The lines of code counted for one language.
#[derive(Clone, Copy, Debug, PartialEq, Eq, Structural)]
pub struct LanguageLines {
    pub language: Language,
    pub lines: u64,
}

/// One entry of the list shown on screen: a language, or, where `language` is
/// `None`, the entry that merges every language past the sixth.
#[derive(Clone, Copy, Debug, PartialEq, Eq, Structural)]
pub struct DisplayShare {
    pub language: Option<Language>,
    pub lines: u64,
}

/// The sum of `f` over `s`.
pub open spec fn sum_of<T>(s: Seq<T>, f: spec_fn(T) -> nat) -> nat
    decreases s.len(),
{
    if s.len() == 0 {
        0
    } else {
        sum_of(s.drop_last(), f) + f(s.last())
    }
}

/// The lines of a language entry.
pub open spec fn lines_of(e: LanguageLines) -> nat {
    e.lines as nat
}

/// All the lines counted in `s`.
pub open spec fn total_lines(s: Seq<LanguageLines>) -> nat {
    sum_of(s, |e: LanguageLines| lines_of(e))
}

/// `s` is ranked: no entry has more lines than one before it.
pub open spec fn ranked(s: Seq<LanguageLines>) -> bool {
    forall|i: int, j: int| 0 <= i < j < s.len() ==> s[i].lines >= s[j].lines
}

/// A language's share of `total` lines in tenths of a percent, rounded to the
/// nearest tenth with halves rounded up.
pub open spec fn tenths_of_percent(lines: nat, total: nat) -> nat
    recommends
        total > 0,
{
    (2000 * lines + total) / (2 * total)
}

/// Inserting an item adds its value to a sum.
pub proof fn lemma_sum_insert<T>(s: Seq<T>, i: int, x: T, f: spec_fn(T) -> nat)
    requires
        0 <= i <= s.len(),
    ensures
        sum_of(s.insert(i, x), f) == sum_of(s, f) + f(x),
    decreases s.len(),
{
    if i == s.len() {
        assert(s.insert(i, x).drop_last() =~= s);
    } else {
        lemma_sum_insert(s.drop_last(), i, x, f);
        assert(s.insert(i, x).drop_last() =~= s.drop_last().insert(i, x));
    }
}

/// A sum over a concatenation is the sum of the sums.
pub proof fn lemma_sum_concat<T>(a: Seq<T>, b: Seq<T>, f: spec_fn(T) -> nat)
    ensures
        sum_of(a + b, f) == sum_of(a, f) + sum_of(b, f),
    decreases b.len(),
{
    if b.len() == 0 {
        assert(a + b =~= a);
    } else {
        lemma_sum_concat(a, b.drop_last(), f);
        assert((a + b).drop_last() =~= a + b.drop_last());
    }
}

/// Inserting an item at place `i` adds it to the sequence's multiset.
pub proof fn lemma_multiset_insert<T>(s: Seq<T>, i: int, x: T)
    requires
        0 <= i <= s.len(),
    ensures
        s.insert(i, x).to_multiset() =~= s.to_multiset().insert(x),
{
    broadcast use vstd::seq_lib::group_to_multiset_ensures;

    let t = s.insert(i, x);
    assert(t.remove(i) =~= s);
    assert(t[i] == x);
    assert(t.contains(x));
}

/// The place where `x` joins the ranked list `s`: before the first entry with
/// fewer lines, so after every entry with at least as many.
pub open spec fn rank_place(s: Seq<LanguageLines>, x: LanguageLines) -> nat
    decreases s.len(),
{
    if s.len() == 0 {
        0
    } else if s[0].lines < x.lines {
        0
    } else {
        1 + rank_place(s.drop_first(), x)
    }
}

/// The stable ranking of `counts`: each entry in turn joins the ranking of
/// those before it at its place, so that entries with equal counts keep the
/// order in which they are given.
pub open spec fn stable_ranked(counts: Seq<LanguageLines>) -> Seq<LanguageLines>
    decreases counts.len(),
{
    if counts.len() == 0 {
        Seq::empty()
    } else {
        let r = stable_ranked(counts.drop_last());
        r.insert(rank_place(r, counts.last()) as int, counts.last())
    }
}

proof fn lemma_rank_place(s: Seq<LanguageLines>, x: LanguageLines, p: int)
    requires
        0 <= p <= s.len(),
        forall|k: int| 0 <= k < p ==> s[k].lines >= x.lines,
        p == s.len() || s[p].lines < x.lines,
    ensures
        rank_place(s, x) == p,
    decreases p,
{
    if p > 0 {
        lemma_rank_place(s.drop_first(), x, p - 1);
    }
}

/// Places the entry `x` into the ranked list `out` after every entry with at
/// least as many lines, so that entries with equal counts keep their order.
fn insert_ranked(out: &mut Vec<LanguageLines>, x: LanguageLines)
    requires
        ranked(old(out)@),
    ensures
        final(out)@ == old(out)@.insert(rank_place(old(out)@, x) as int, x),
        ranked(final(out)@),
        final(out)@.to_multiset() == old(out)@.to_multiset().insert(x),
        total_lines(final(out)@) == total_lines(old(out)@) + x.lines,
{
    let mut p: usize = 0;
    while p < out.len() && out[p].lines >= x.lines
        invariant
            p <= out.len(),
            forall|k: int| 0 <= k < p ==> out@[k].lines >= x.lines,
        decreases out.len() - p,
    {
        p = p + 1;
    }
    let ghost before = out@;
    proof {
        lemma_rank_place(before, x, p as int);
        lemma_multiset_insert(before, p as int, x);
        lemma_sum_insert(before, p as int, x, |e: LanguageLines| lines_of(e));
    }
    out.insert(p, x);
    assert(out@ =~= before.insert(p as int, x));
    assert forall|i: int, j: int| 0 <= i < j < out@.len() implies out@[i].lines >= out@[j].lines by {
        if j < p {
        } else if j == p {
        } else if i < p {
            assert(out@[j] == before[j - 1]);
            assert(before[p as int].lines < x.lines);
        } else if i == p {
            assert(out@[j] == before[j - 1]);
            assert(before[p as int].lines < x.lines);
        } else {
            assert(out@[i] == before[i - 1]);
            assert(out@[j] == before[j - 1]);
        }
    }
}

impl Language {
    /// Ranks the languages of a working tree by their lines of code.
    ///
    /// Returns the entries ranked from most lines to fewest, entries with equal
    /// counts in the order given (the stable ranking of `counts`), and the
    /// total number of lines. A language's
    /// percentage is `100 * lines / total`, so that the percentages of the
    /// ranked list add up to exactly 100. Where no line of code was counted the
    /// result is `NoSourceCodeFound`.
    pub fn get_language_stats(counts: &Vec<LanguageLines>) -> (r: Result<
        (Vec<LanguageLines>, u64),
        Error,
    >)
        requires
            total_lines(counts@) <= u64::MAX,
        ensures
            r is Err <==> total_lines(counts@) == 0,
            r is Err ==> r->Err_0 == Error::NoSourceCodeFound,
            r is Ok ==> {
                let (stats, total) = r->Ok_0;
                &&& stats@ == stable_ranked(counts@)
                &&& ranked(stats@)
                &&& stats@.to_multiset() == counts@.to_multiset()
                &&& total as nat == total_lines(counts@)
                &&& total_lines(stats@) == total as nat
                &&& total > 0
            },
    {
        let mut out: Vec<LanguageLines> = Vec::new();
        let mut total: u64 = 0;
        let mut i: usize = 0;
        proof {
            broadcast use vstd::seq_lib::group_to_multiset_ensures;

            assert(counts@.subrange(0, 0) =~= out@);
            assert(stable_ranked(counts@.subrange(0, 0)) =~= out@);
        }
        while i < counts.len()
            invariant
                i <= counts.len(),
                total_lines(counts@) <= u64::MAX,
                ranked(out@),
                out@ == stable_ranked(counts@.subrange(0, i as int)),
                out@.to_multiset() == counts@.subrange(0, i as int).to_multiset(),
                total as nat == total_lines(counts@.subrange(0, i as int)),
                total_lines(out@) == total as nat,
            decreases counts.len() - i,
        {
            proof {
                broadcast use vstd::seq_lib::group_to_multiset_ensures;

                let pre = counts@.subrange(0, i as int);
                assert(counts@.subrange(0, i + 1) =~= pre.push(counts@[i as int]));
                assert(counts@.subrange(0, i + 1).drop_last() =~= pre);
                lemma_sum_concat(
                    counts@.subrange(0, i + 1),
                    counts@.subrange(i + 1, counts.len() as int),
                    |e: LanguageLines| lines_of(e),
                );
                assert(counts@.subrange(0, i + 1) + counts@.subrange(i + 1, counts.len() as int)
                    =~= counts@);
            }
            let x = counts[i];
            insert_ranked(&mut out, x);
            total = total + x.lines;
            i = i + 1;
        }
        assert(counts@.subrange(0, counts.len() as int) =~= counts@);
        if total == 0 {
            Err(Error::NoSourceCodeFound)
        } else {
            Ok((out, total))
        }
    }

    /// The language with the most lines: the first of a ranked list.
    pub fn get_dominant_language(stats: &Vec<LanguageLines>) -> (r: Language)
        requires
            stats@.len() > 0,
        ensures
            r == stats@[0].language,
    {
        stats[0].language
    }
}

/// The stable ranking of any line counts is ranked, holds the same entries,
/// and counts the same lines: where some language has a line, the shares
/// `100 * lines / total` of the ranked list add up to exactly 100 and never
/// grow down the list.
pub proof fn lemma_shares_sum_to_whole(counts: Seq<LanguageLines>)
    ensures
        ranked(stable_ranked(counts)),
        stable_ranked(counts).to_multiset() == counts.to_multiset(),
        total_lines(stable_ranked(counts)) == total_lines(counts),
    decreases counts.len(),
{
    broadcast use vstd::seq_lib::group_to_multiset_ensures;

    if counts.len() > 0 {
        let pre = counts.drop_last();
        let x = counts.last();
        lemma_shares_sum_to_whole(pre);
        let r = stable_ranked(pre);
        let p = rank_place(r, x) as int;
        lemma_rank_place_bounds(r, x);
        lemma_multiset_insert(r, p, x);
        lemma_sum_insert(r, p, x, |e: LanguageLines| lines_of(e));
        assert(counts =~= pre.push(x));
        let t = r.insert(p, x);
        assert forall|i: int, j: int| 0 <= i < j < t.len() implies t[i].lines >= t[j].lines by {
            if j < p {
            } else if j == p {
                assert(r[i].lines >= x.lines);
            } else if i < p {
                assert(t[j] == r[j - 1]);
                assert(r[p].lines < x.lines);
                assert(r[i].lines >= x.lines);
            } else if i == p {
                assert(t[j] == r[j - 1]);
                assert(r[p].lines < x.lines);
            } else {
                assert(t[i] == r[i - 1]);
                assert(t[j] == r[j - 1]);
            }
        }
    }
}

proof fn lemma_rank_place_bounds(s: Seq<LanguageLines>, x: LanguageLines)
    ensures
        rank_place(s, x) <= s.len(),
        forall|k: int| 0 <= k < rank_place(s, x) ==> s[k].lines >= x.lines,
        rank_place(s, x) < s.len() ==> s[rank_place(s, x) as int].lines < x.lines,
    decreases s.len(),
{
    if s.len() > 0 && s[0].lines >= x.lines {
        lemma_rank_place_bounds(s.drop_first(), x);
        assert forall|k: int| 0 <= k < rank_place(s, x) implies s[k].lines >= x.lines by {
            if k > 0 {
                assert(s[k] == s.drop_first()[k - 1]);
            }
        }
    }
}

/// A language's share of `total` lines in tenths of a percent, rounded to the
/// nearest tenth.
pub fn percent_tenths(lines: u64, total: u64) -> (r: u64)
    requires
        lines <= total,
        total > 0,
    ensures
        r as nat == tenths_of_percent(lines as nat, total as nat),
        r <= 1000,
{
    let num: u128 = 2000 * (lines as u128) + (total as u128);
    let den: u128 = 2 * (total as u128);
    let q = num / den;
    assert(q <= 1000) by (nonlinear_arith)
        requires
            q == num / den,
            num == 2000 * lines + total,
            den == 2 * total,
            lines <= total,
            total > 0,
    {
        assert(num < 1001 * den);
    }
    q as u64
}

/// The list shown on screen: where more than six languages are ranked, the
/// first six and, after them, one entry that merges all the others.
pub open spec fn bucketed(stats: Seq<LanguageLines>) -> Seq<DisplayShare> {
    if stats.len() <= 6 {
        stats.map_values(|e: LanguageLines| DisplayShare { language: Some(e.language), lines: e.lines })
    } else {
        stats.subrange(0, 6).map_values(
            |e: LanguageLines| DisplayShare { language: Some(e.language), lines: e.lines },
        ).push(
            DisplayShare {
                language: None,
                lines: total_lines(stats.subrange(6, stats.len() as int)) as u64,
            },
        )
    }
}

/// Shortens a ranked language list for display: up to six languages are kept
/// as they are; past six, the first six are kept and one last entry merges the
/// lines of all the others, wherever that sum would rank.
pub fn bucket_languages(stats: &Vec<LanguageLines>) -> (r: Vec<DisplayShare>)
    requires
        total_lines(stats@) <= u64::MAX,
    ensures
        r@ == bucketed(stats@),
        stats@.len() > 6 ==> r@.len() == 7 && r@[6].language is None && r@[6].lines as nat
            == total_lines(stats@.subrange(6, stats@.len() as int)),
        stats@.len() <= 6 ==> r@.len() == stats@.len(),
{
    let mut out: Vec<DisplayShare> = Vec::new();
    let keep: usize = if stats.len() > 6 {
        6
    } else {
        stats.len()
    };
    let mut i: usize = 0;
    while i < keep
        invariant
            i <= keep,
            keep <= stats.len(),
            keep == if stats@.len() > 6 {
                6
            } else {
                stats@.len()
            },
            out@.len() == i,
            forall|k: int|
                0 <= k < i ==> out@[k] == (DisplayShare {
                    language: Some(stats@[k].language),
                    lines: stats@[k].lines,
                }),
        decreases keep - i,
    {
        out.push(DisplayShare { language: Some(stats[i].language), lines: stats[i].lines });
        i = i + 1;
    }
    if stats.len() > 6 {
        let mut rest: u64 = 0;
        let mut j: usize = 6;
        proof {
            lemma_sum_concat(
                stats@.subrange(0, 6),
                stats@.subrange(6, stats.len() as int),
                |e: LanguageLines| lines_of(e),
            );
            assert(stats@.subrange(0, 6) + stats@.subrange(6, stats.len() as int) =~= stats@);
            assert(stats@.subrange(6, 6) =~= Seq::<LanguageLines>::empty());
        }
        while j < stats.len()
            invariant
                6 <= j <= stats.len(),
                total_lines(stats@.subrange(6, stats@.len() as int)) <= u64::MAX,
                rest as nat == total_lines(stats@.subrange(6, j as int)),
            decreases stats.len() - j,
        {
            proof {
                assert(stats@.subrange(6, j + 1).drop_last() =~= stats@.subrange(6, j as int));
                lemma_sum_concat(
                    stats@.subrange(6, j + 1),
                    stats@.subrange(j + 1, stats.len() as int),
                    |e: LanguageLines| lines_of(e),
                );
                assert(stats@.subrange(6, j + 1) + stats@.subrange(j + 1, stats.len() as int)
                    =~= stats@.subrange(6, stats.len() as int));
            }
            rest = rest + stats[j].lines;
            j = j + 1;
        }
        assert(stats@.subrange(6, j as int) =~= stats@.subrange(6, stats.len() as int));
        out.push(DisplayShare { language: None, lines: rest });
    }
    assert(out@ =~= bucketed(stats@));
    out
}

} // verus!
