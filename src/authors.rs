//! The author reducer: commit records become the authors with the most
//! commits, each with a count and a share of all commits.

use crate::history::CommitRecord;
use crate::stats::sum_of;
use vstd::prelude::*;
use vstd::string::*;

verus! {

/// An author among those with the most commits: name, commits, and share of
/// all commits in whole percent, rounded down.
#[derive(Clone, Debug)]
pub struct AuthorStat {
    pub name: String,
    pub commits: usize,
    pub percent: usize,
}

/// `s` without one quote at its start and one at its end, where they stand.
pub open spec fn unquoted(s: Seq<char>) -> Seq<char> {
    let a = if s.len() > 0 && s[0] == '\'' {
        s.drop_first()
    } else {
        s
    };
    if a.len() > 0 && a.last() == '\'' {
        a.drop_last()
    } else {
        a
    }
}

/// The author label of each record: its author without a surrounding quote.
pub open spec fn author_labels(records: Seq<CommitRecord>) -> Seq<Seq<char>> {
    records.map_values(|c: CommitRecord| unquoted(c.author@))
}

/// `a` occurs in `s` before `b` first does.
pub open spec fn first_before(s: Seq<Seq<char>>, a: Seq<char>, b: Seq<char>) -> bool {
    exists|w: int| 0 <= w < s.len() && #[trigger] s[w] == a && forall|m: int| 0 <= m <= w ==> s[m] != b
}

/// How many times `a` occurs in `s`.
pub open spec fn occurrences(s: Seq<Seq<char>>, a: Seq<char>) -> nat
    decreases s.len(),
{
    if s.len() == 0 {
        0
    } else {
        occurrences(s.drop_last(), a) + if s.last() == a {
            1nat
        } else {
            0nat
        }
    }
}

/// The commits of each listed author.
pub open spec fn commit_counts(authors: Seq<AuthorStat>) -> nat {
    sum_of(authors, |a: AuthorStat| a.commits as nat)
}

/// The distinct author labels of `records`.
pub open spec fn distinct_authors(records: Seq<CommitRecord>) -> Set<Seq<char>> {
    author_labels(records).to_set()
}

/// The sum of `c` over the places that `t` leaves unmarked.
pub open spec fn unmarked_sum(c: Seq<usize>, t: Seq<bool>) -> nat
    decreases c.len(),
{
    if c.len() == 0 || t.len() == 0 {
        0
    } else {
        unmarked_sum(c.drop_last(), t.drop_last()) + if t.last() {
            0nat
        } else {
            c.last() as nat
        }
    }
}

proof fn lemma_sum_update(s: Seq<usize>, j: int, v: usize)
    requires
        0 <= j < s.len(),
    ensures
        sum_of(s.update(j, v), |c: usize| c as nat) + s[j] == sum_of(s, |c: usize| c as nat) + v,
    decreases s.len(),
{
    if j < s.len() - 1 {
        lemma_sum_update(s.drop_last(), j, v);
        assert(s.update(j, v).drop_last() =~= s.drop_last().update(j, v));
    } else {
        assert(s.update(j, v).drop_last() =~= s.drop_last());
    }
}

proof fn lemma_unmarked_none(c: Seq<usize>, t: Seq<bool>)
    requires
        c.len() == t.len(),
        forall|k: int| 0 <= k < t.len() ==> !t[k],
    ensures
        unmarked_sum(c, t) == sum_of(c, |x: usize| x as nat),
    decreases c.len(),
{
    if c.len() > 0 {
        lemma_unmarked_none(c.drop_last(), t.drop_last());
    }
}

proof fn lemma_unmarked_all(c: Seq<usize>, t: Seq<bool>)
    requires
        c.len() == t.len(),
        forall|k: int| 0 <= k < t.len() ==> t[k],
    ensures
        unmarked_sum(c, t) == 0,
    decreases c.len(),
{
    if c.len() > 0 {
        lemma_unmarked_all(c.drop_last(), t.drop_last());
    }
}

proof fn lemma_unmarked_mark(c: Seq<usize>, t: Seq<bool>, j: int)
    requires
        c.len() == t.len(),
        0 <= j < t.len(),
        !t[j],
    ensures
        unmarked_sum(c, t.update(j, true)) + c[j] == unmarked_sum(c, t),
    decreases c.len(),
{
    if j < c.len() - 1 {
        lemma_unmarked_mark(c.drop_last(), t.drop_last(), j);
        assert(t.update(j, true).drop_last() =~= t.drop_last().update(j, true));
    } else {
        assert(t.update(j, true).drop_last() =~= t.drop_last());
    }
}

proof fn lemma_occurrences_bound(s: Seq<Seq<char>>, a: Seq<char>)
    ensures
        occurrences(s, a) <= s.len(),
        s.contains(a) <==> occurrences(s, a) > 0,
    decreases s.len(),
{
    if s.len() > 0 {
        lemma_occurrences_bound(s.drop_last(), a);
        if s.drop_last().contains(a) {
            let k = choose|k: int| 0 <= k < s.drop_last().len() && s.drop_last()[k] == a;
            assert(s[k] == a);
        }
        if s.contains(a) && s.last() != a {
            let k = choose|k: int| 0 <= k < s.len() && s[k] == a;
            assert(s.drop_last()[k] == a);
        }
    }
}

/// The author of `c` without a surrounding quote.
fn author_label(c: &CommitRecord) -> (r: String)
    ensures
        r@ == unquoted(c.author@),
{
    let s = c.author.as_str();
    let n = s.unicode_len();
    let mut from: usize = 0;
    let mut to: usize = n;
    if n > 0 && s.get_char(0) == '\'' {
        from = 1;
    }
    if to > from && s.get_char(to - 1) == '\'' {
        to = to - 1;
    }
    let r = String::from_str(s.substring_char(from, to));
    proof {
        let a = if s@.len() > 0 && s@[0] == '\'' {
            s@.drop_first()
        } else {
            s@
        };
        assert(a =~= s@.subrange(from as int, n as int));
    }
    r
}

/// `r` ranks the authors of `records` and keeps the first `n`: the list
/// has `min(n, distinct authors)` entries, each a distinct author label of
/// the records with its number of records and its share in whole percent,
/// rounded down; it runs from most commits to fewest; no author left out has
/// more commits than one listed; of two with equal commits, the one whose
/// label occurs first in the records comes first; and where none is left out
/// the commits add up to the number of records.
pub open spec fn ranks_authors(records: Seq<CommitRecord>, n: nat, r: Seq<AuthorStat>) -> bool {
    &&& (r.len() == if n < distinct_authors(records).len() {
            n as nat
        } else {
            distinct_authors(records).len()
        })
    &&& (forall|k: int|
            0 <= k < r.len() ==> {
                &&& author_labels(records).contains(#[trigger] r[k].name@)
                &&& r[k].commits == occurrences(author_labels(records), r[k].name@)
                &&& r[k].percent == r[k].commits * 100 / (records.len() as int)
            })
    &&& (forall|k: int, l: int| 0 <= k < l < r.len() ==> r[k].name@ != r[l].name@)
    &&& (forall|k: int, l: int| 0 <= k < l < r.len() ==> r[k].commits >= r[l].commits)
    &&& (forall|k: int, l: int|
            0 <= k < l < r.len() && r[k].commits == r[l].commits ==> first_before(
                author_labels(records),
                #[trigger] r[k].name@,
                #[trigger] r[l].name@,
            ))
    &&& (forall|a: Seq<char>|
            #![trigger occurrences(author_labels(records), a)]
            author_labels(records).contains(a) && (forall|k: int|
                0 <= k < r.len() ==> r[k].name@ != a) ==> forall|k: int|
                0 <= k < r.len() ==> occurrences(author_labels(records), a) <= r[k].commits)
    &&& (n >= distinct_authors(records).len() ==> commit_counts(r) == records.len())
}

/// Ranks the authors of `records` by their number of commits and keeps the
/// first `n`.
///
/// Authors are told apart by their label: the author name without one
/// surrounding quote. Each listed author carries the number of records that
/// bear its label and `commits * 100 / total` in whole percent, rounded down,
/// where `total` is the number of records. The list runs from most commits to
/// fewest, authors with equal counts in the order in which they first occur;
/// no author left out has more commits than the last one listed. The list has
/// `min(n, distinct authors)` entries, and where no author is left out their
/// commits add up to the number of records.
pub fn get_authors(records: &Vec<CommitRecord>, n: usize) -> (r: Vec<AuthorStat>)
    ensures
        ranks_authors(records@, n as nat, r@),
        n >= distinct_authors(records@).len() ==> commit_counts(r@) == records@.len(),
{
    let ghost labels = author_labels(records@);
    // Tally the labels in the order in which they first occur.
    let mut names: Vec<String> = Vec::new();
    let mut counts: Vec<usize> = Vec::new();
    // The place where each tallied label first occurs.
    let ghost mut firsts: Seq<int> = Seq::empty();
    let mut i: usize = 0;
    while i < records.len()
        invariant
            i <= records.len(),
            labels == author_labels(records@),
            names@.len() == counts@.len(),
            firsts.len() == names@.len(),
            forall|j: int|
                0 <= j < firsts.len() ==> 0 <= #[trigger] firsts[j] < i && labels[firsts[j]]
                    == names@[j]@,
            forall|j: int, q: int|
                #![trigger firsts[j], labels[q]]
                0 <= j < firsts.len() && 0 <= q < firsts[j] ==> labels[q] != names@[j]@,
            forall|a: int, b: int| 0 <= a < b < firsts.len() ==> firsts[a] < firsts[b],
            forall|a: int, b: int| 0 <= a < b < names@.len() ==> names@[a]@ != names@[b]@,
            forall|j: int|
                0 <= j < names@.len() ==> #[trigger] counts@[j] == occurrences(
                    labels.subrange(0, i as int),
                    names@[j]@,
                ),
            forall|j: int| 0 <= j < names@.len() ==> counts@[j] <= i,
            forall|a: Seq<char>|
                labels.subrange(0, i as int).contains(a) <==> exists|j: int|
                    0 <= j < names@.len() && #[trigger] names@[j]@ == a,
            sum_of(counts@, |c: usize| c as nat) == i,
        decreases records.len() - i,
    {
        let label = author_label(&records[i]);
        let ghost pre = labels.subrange(0, i as int);
        let ghost post = labels.subrange(0, i + 1);
        assert(post.drop_last() =~= pre);
        assert(post.last() == label@);
        let mut j: usize = 0;
        while j < names.len() && names[j] != label
            invariant
                j <= names@.len(),
                forall|k: int| 0 <= k < j ==> names@[k]@ != label@,
            decreases names.len() - j,
        {
            j = j + 1;
        }
        if j < names.len() {
            let ghost old_counts = counts@;
            let c = counts[j] + 1;
            counts.set(j, c);
            proof {
                lemma_sum_update(old_counts, j as int, c);
            }
            assert forall|a: Seq<char>| post.contains(a) implies exists|k: int|
                0 <= k < names@.len() && #[trigger] names@[k]@ == a by {
                if pre.contains(a) {
                } else {
                    let k = choose|k: int| 0 <= k < post.len() && post[k] == a;
                    assert(k == i);
                    assert(names@[j as int]@ == a);
                }
            }
            assert forall|a: Seq<char>|
                (exists|k: int| 0 <= k < names@.len() && #[trigger] names@[k]@ == a) implies post.contains(a) by {
                assert(pre.contains(a));
                let k = choose|k: int| 0 <= k < pre.len() && pre[k] == a;
                assert(post[k] == a);
            }
        } else {
            let ghost old_counts = counts@;
            let ghost old_names = names@;
            names.push(label);
            counts.push(1);
            assert(counts@.drop_last() =~= old_counts);
            proof {
                assert(!pre.contains(label@));
                assert forall|q: int| 0 <= q < i implies labels[q] != label@ by {
                    assert(pre[q] == labels[q]);
                }
                assert(labels[i as int] == post[i as int]);
                firsts = firsts.push(i as int);
            }
            proof {
                lemma_occurrences_bound(pre, label@);
            }
            assert forall|a: Seq<char>| post.contains(a) implies exists|k: int|
                0 <= k < names@.len() && #[trigger] names@[k]@ == a by {
                if pre.contains(a) {
                    assert(exists|k: int| 0 <= k < old_names.len() && #[trigger] old_names[k]@ == a);
                    let k = choose|k: int| 0 <= k < old_names.len() && #[trigger] old_names[k]@ == a;
                    assert(names@[k] == old_names[k]);
                } else {
                    let k = choose|k: int| 0 <= k < post.len() && post[k] == a;
                    assert(k == i);
                    assert(names@[names@.len() - 1]@ == a);
                }
            }
            assert forall|a: Seq<char>|
                (exists|k: int| 0 <= k < names@.len() && #[trigger] names@[k]@ == a) implies post.contains(a) by {
                let k = choose|k: int| 0 <= k < names@.len() && names@[k]@ == a;
                if k == names@.len() - 1 {
                    assert(post[i as int] == a);
                } else {
                    assert(pre.contains(a));
                    let m = choose|m: int| 0 <= m < pre.len() && pre[m] == a;
                    assert(post[m] == a);
                }
            }
        }
        i = i + 1;
    }
    assert(labels.subrange(0, records.len() as int) =~= labels);
    let ghost name_views = names@.map_values(|s: String| s@);
    proof {
        assert(name_views.no_duplicates());
        name_views.unique_seq_to_set();
        assert(name_views.to_set() =~= labels.to_set()) by {
            assert forall|a: Seq<char>| name_views.contains(a) <==> labels.contains(a) by {
                if name_views.contains(a) {
                    let k = choose|k: int| 0 <= k < name_views.len() && name_views[k] == a;
                    assert(names@[k]@ == a);
                }
                if labels.contains(a) {
                    let k = choose|k: int| 0 <= k < names@.len() && names@[k]@ == a;
                    assert(name_views[k] == a);
                }
            }
        }
    }
    let m = names.len();
    let total = records.len();
    assert forall|j: int| 0 <= j < m implies labels.contains(#[trigger] names@[j]@) by {
        assert(exists|k: int| 0 <= k < names@.len() && #[trigger] names@[k]@ == names@[j]@);
    }
    let want: usize = if n < m {
        n
    } else {
        m
    };
    // Pick the authors one by one: each time the untaken one with the most
    // commits, the first such on a tie.
    let mut taken: Vec<bool> = Vec::new();
    let mut t: usize = 0;
    while t < m
        invariant
            t <= m,
            taken@.len() == t,
            forall|k: int| 0 <= k < t ==> !taken@[k],
        decreases m - t,
    {
        taken.push(false);
        t = t + 1;
    }
    proof {
        lemma_unmarked_none(counts@, taken@);
    }
    let ghost mut picked: Seq<int> = Seq::empty();
    let mut out: Vec<AuthorStat> = Vec::new();
    while out.len() < want
        invariant
            want <= m,
            m == names@.len(),
            m == counts@.len(),
            want == if n < m {
                n
            } else {
                m
            },
            total == records@.len(),
            labels == author_labels(records@),
            forall|j: int| 0 <= j < m ==> labels.contains(#[trigger] names@[j]@),
            forall|a: Seq<char>|
                labels.contains(a) ==> exists|j: int| 0 <= j < m && #[trigger] names@[j]@ == a,
            taken@.len() == m,
            picked.len() == out@.len(),
            out@.len() <= want,
            forall|a: int, b: int| 0 <= a < b < names@.len() ==> names@[a]@ != names@[b]@,
            forall|j: int| 0 <= j < m ==> #[trigger] counts@[j] == occurrences(labels, names@[j]@),
            forall|j: int| 0 <= j < m ==> counts@[j] <= total,
            forall|k: int| 0 <= k < picked.len() ==> 0 <= #[trigger] picked[k] < m,
            forall|k: int| 0 <= k < picked.len() ==> taken@[#[trigger] picked[k]],
            forall|j: int|
                0 <= j < m && #[trigger] taken@[j] ==> exists|k: int|
                    0 <= k < picked.len() && picked[k] == j,
            forall|k: int, l: int| 0 <= k < l < picked.len() ==> picked[k] != picked[l],
            forall|k: int|
                0 <= k < out@.len() ==> {
                    &&& #[trigger] out@[k].name@ == names@[picked[k]]@
                    &&& out@[k].commits == counts@[picked[k]]
                    &&& out@[k].percent == out@[k].commits * 100 / (total as int)
                },
            forall|k: int, j: int|
                #![trigger out@[k].commits, counts@[j]]
                0 <= k < out@.len() && 0 <= j < m && !taken@[j] ==> counts@[j] <= out@[k].commits,
            forall|k: int, l: int| 0 <= k < l < out@.len() ==> out@[k].commits >= out@[l].commits,
            firsts.len() == m,
            forall|j: int|
                0 <= j < m ==> 0 <= #[trigger] firsts[j] < labels.len() && labels[firsts[j]]
                    == names@[j]@,
            forall|j: int, q: int|
                #![trigger firsts[j], labels[q]]
                0 <= j < m && 0 <= q < firsts[j] ==> labels[q] != names@[j]@,
            forall|a: int, b: int| 0 <= a < b < m ==> firsts[a] < firsts[b],
            forall|k: int, j: int|
                #![trigger out@[k].commits, taken@[j]]
                0 <= k < out@.len() && 0 <= j < m && !taken@[j] && counts@[j] == out@[k].commits
                    ==> picked[k] < j,
            forall|k: int, l: int|
                0 <= k < l < out@.len() && out@[k].commits == out@[l].commits ==> #[trigger] picked[k]
                    < #[trigger] picked[l],
            commit_counts(out@) + unmarked_sum(counts@, taken@) == total,
        decreases want - out.len(),
    {
        // Some author is untaken: fewer than m have been picked.
        let mut best: usize = m;
        let mut j: usize = 0;
        while j < m
            invariant
                j <= m,
                m == counts@.len(),
                m == taken@.len(),
                best == m || (best < j && !taken@[best as int]),
                forall|k: int|
                    0 <= k < j && !taken@[k] ==> best < m && counts@[k] <= counts@[best as int],
                forall|k: int|
                    0 <= k < j && !taken@[k] && counts@[k] == counts@[best as int] ==> best <= k,
            decreases m - j,
        {
            if !taken[j] && (best == m || counts[j] > counts[best]) {
                best = j;
            }
            j = j + 1;
        }
        if best == m {
            // Every author was taken: then picked holds all of 0..m, so m
            // entries were picked, which is not fewer than want.
            proof {
                assert forall|j: int| 0 <= j < m implies #[trigger] picked.contains(j) by {
                    assert(taken@[j]);
                    let k = choose|k: int| 0 <= k < picked.len() && picked[k] == j;
                    assert(picked[k] == j);
                }
                lemma_pigeonhole(picked, m as int);
            }
            assert(false);
        }
        let c = counts[best];
        proof {
            assert(total > 0) by {
                assert(labels.contains(names@[best as int]@));
            }
            assert((c as int) * 100 / (total as int) <= 100) by (nonlinear_arith)
                requires
                    c <= total,
                    total > 0,
            {
                assert((c as int) * 100 <= 100 * (total as int));
            }
        }
        let pct: usize = ((c as u128) * 100 / (total as u128)) as usize;
        let ghost old_out = out@;
        let ghost old_taken = taken@;
        let ghost old_picked = picked;
        proof {
            lemma_unmarked_mark(counts@, taken@, best as int);
        }
        taken.set(best, true);
        out.push(AuthorStat { name: names[best].clone(), commits: c, percent: pct });
        proof {
            picked = picked.push(best as int);
            assert(out@.drop_last() =~= old_out);
            assert forall|k: int, j: int|
                0 <= k < out@.len() && 0 <= j < m && !taken@[j] && counts@[j] == out@[k].commits
                    implies picked[k] < j by {
                assert(!old_taken[j]);
                if k < out@.len() - 1 {
                    assert(out@[k] == old_out[k]);
                    assert(picked[k] == old_picked[k]);
                }
            }
            assert forall|k: int, l: int|
                0 <= k < l < out@.len() && out@[k].commits == out@[l].commits implies #[trigger] picked[k]
                    < #[trigger] picked[l] by {
                assert(picked[k] == old_picked[k]);
                assert(out@[k] == old_out[k]);
                if l == out@.len() - 1 {
                    assert(!old_taken[best as int]);
                } else {
                    assert(picked[l] == old_picked[l]);
                    assert(out@[l] == old_out[l]);
                }
            }
            assert forall|j: int| 0 <= j < m && #[trigger] taken@[j] implies exists|k: int|
                0 <= k < picked.len() && picked[k] == j by {
                if j != best {
                    assert(old_taken[j]);
                    let k = choose|k: int| 0 <= k < old_picked.len() && old_picked[k] == j;
                    assert(picked[k] == j);
                } else {
                    assert(picked[picked.len() - 1] == j);
                }
            }
        }
    }
    proof {
        assert forall|k: int, l: int| 0 <= k < l < out@.len() implies out@[k].name@
            != out@[l].name@ by {
            assert(picked[k] != picked[l]);
        }
        assert forall|k: int, l: int|
            0 <= k < l < out@.len() && out@[k].commits == out@[l].commits implies first_before(
            labels,
            #[trigger] out@[k].name@,
            #[trigger] out@[l].name@,
        ) by {
            let pk = picked[k];
            let pl = picked[l];
            assert(pk < pl);
            let w = firsts[pk];
            assert(firsts[pk] < firsts[pl]);
            assert(labels[w] == out@[k].name@);
            assert forall|q: int| 0 <= q <= w implies labels[q] != out@[l].name@ by {
                assert(q < firsts[pl]);
            }
        }
        if n >= m {
            assert forall|j: int| 0 <= j < m implies taken@[j] by {
                if !taken@[j] {
                    lemma_pigeonhole_taken(picked, m as int, j);
                }
            }
            lemma_unmarked_all(counts@, taken@);
        }
        assert forall|a: Seq<char>|
            #![trigger occurrences(author_labels(records@), a)]
            author_labels(records@).contains(a) && (forall|k: int|
                0 <= k < out@.len() ==> out@[k].name@ != a) implies forall|k: int|
                0 <= k < out@.len() ==> occurrences(author_labels(records@), a)
                    <= out@[k].commits by {
            let j = choose|j: int| 0 <= j < names@.len() && #[trigger] names@[j]@ == a;
            if taken@[j] {
                let k = choose|k: int| 0 <= k < picked.len() && picked[k] == j;
                assert(out@[k].name@ == a);
            }
            assert forall|k: int| 0 <= k < out@.len() implies occurrences(
                author_labels(records@),
                a,
            ) <= out@[k].commits by {
                assert(counts@[j] <= out@[k].commits);
            }
        }
        assert forall|k: int| 0 <= k < out@.len() implies author_labels(records@).contains(
            #[trigger] out@[k].name@,
        ) by {
            let j = picked[k];
            assert(labels.contains(names@[j]@));
        }
    }
    out
}

/// A sequence of distinct places below `m` that covers every place below `m`
/// has `m` entries.
proof fn lemma_pigeonhole(picked: Seq<int>, m: int)
    requires
        0 <= m,
        forall|k: int| 0 <= k < picked.len() ==> 0 <= #[trigger] picked[k] < m,
        forall|k: int, l: int| 0 <= k < l < picked.len() ==> picked[k] != picked[l],
        forall|j: int| 0 <= j < m ==> #[trigger] picked.contains(j),
    ensures
        picked.len() >= m,
{
    let s = picked.to_set();
    assert(picked.no_duplicates());
    picked.unique_seq_to_set();
    let full = Set::new(|j: int| 0 <= j < m);
    assert(full =~= vstd::set_lib::set_int_range(0, m));
    vstd::set_lib::lemma_int_range(0, m);
    assert(full.subset_of(s)) by {
        assert forall|j: int| full.contains(j) implies s.contains(j) by {
            assert(picked.contains(j));
        }
    }
    vstd::set_lib::lemma_len_subset(full, s);
}

/// A sequence of distinct places below `m` with `m` entries holds every place
/// below `m`.
proof fn lemma_pigeonhole_taken(picked: Seq<int>, m: int, j: int)
    requires
        0 <= j < m,
        picked.len() >= m,
        forall|k: int| 0 <= k < picked.len() ==> 0 <= #[trigger] picked[k] < m,
        forall|k: int, l: int| 0 <= k < l < picked.len() ==> picked[k] != picked[l],
    ensures
        picked.contains(j),
{
    if !picked.contains(j) {
        let s = picked.to_set();
        assert(picked.no_duplicates());
        picked.unique_seq_to_set();
        let rest = Set::new(|x: int| 0 <= x < m && x != j);
        assert(rest =~= vstd::set_lib::set_int_range(0, m).remove(j));
        vstd::set_lib::lemma_int_range(0, m);
        assert(s.subset_of(rest));
        vstd::set_lib::lemma_len_subset(s, rest);
    }
}

} // verus!
