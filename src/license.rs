//! The license field: which top-level files are license candidates, and how
//! the classifier's verdicts on them become one display string.

use crate::probes::{unknown, unknown_string};
use crate::repo::{join_comma, join_with_comma};
use vstd::prelude::*;
use vstd::string::*;

verus! {

/// Whether `p` is a prefix of `s`.
pub open spec fn has_prefix(s: Seq<char>, p: Seq<char>) -> bool {
    p.len() <= s.len() && s.subrange(0, p.len() as int) == p
}

/// Whether a file name marks a license candidate: it starts with `LICENSE`,
/// `LICENCE` or `COPYING`, case counting.
pub open spec fn license_name(name: Seq<char>) -> bool {
    has_prefix(name, "LICENSE"@) || has_prefix(name, "LICENCE"@) || has_prefix(name, "COPYING"@)
}

fn starts_with_str(s: &str, p: &str) -> (r: bool)
    ensures
        r == has_prefix(s@, p@),
{
    let n = s.unicode_len();
    let m = p.unicode_len();
    if m > n {
        return false;
    }
    let mut i: usize = 0;
    while i < m
        invariant
            m <= n,
            n == s@.len(),
            m == p@.len(),
            i <= m,
            forall|k: int| 0 <= k < i ==> s@[k] == p@[k],
        decreases m - i,
    {
        if s.get_char(i) != p.get_char(i) {
            assert(s@.subrange(0, m as int)[i as int] != p@[i as int]);
            return false;
        }
        i = i + 1;
    }
    assert(s@.subrange(0, m as int) =~= p@);
    true
}

/// Whether the file `name` is a license candidate: its name starts with
/// `LICENSE`, `LICENCE` or `COPYING`.
pub fn is_license_file(name: &str) -> (r: bool)
    ensures
        r == license_name(name@),
{
    starts_with_str(name, "LICENSE") || starts_with_str(name, "LICENCE") || starts_with_str(
        name,
        "COPYING",
    )
}

/// Lexicographic order of character sequences, by code point.
pub open spec fn lex_lt(a: Seq<char>, b: Seq<char>) -> bool
    decreases a.len(),
{
    if a.len() == 0 {
        b.len() > 0
    } else if b.len() == 0 {
        false
    } else if a[0] != b[0] {
        a[0] < b[0]
    } else {
        lex_lt(a.drop_first(), b.drop_first())
    }
}

/// `s` runs in strictly increasing order.
pub open spec fn strictly_sorted(s: Seq<Seq<char>>) -> bool {
    forall|i: int, j: int| 0 <= i < j < s.len() ==> lex_lt(s[i], s[j])
}

/// The distinct values of `ids`, sorted and joined with `", "`, or the
/// sentinel where `ids` is empty.
pub open spec fn license_text(ids: Seq<Seq<char>>, r: Seq<char>) -> bool {
    if ids.len() == 0 {
        r == unknown()
    } else {
        exists|s: Seq<Seq<char>>|
            strictly_sorted(s) && s.to_set() == ids.to_set() && r == join_comma(s)
    }
}

proof fn lemma_lex_irreflexive(a: Seq<char>)
    ensures
        !lex_lt(a, a),
    decreases a.len(),
{
    if a.len() > 0 {
        lemma_lex_irreflexive(a.drop_first());
    }
}

proof fn lemma_lex_total(a: Seq<char>, b: Seq<char>)
    ensures
        a != b ==> lex_lt(a, b) || lex_lt(b, a),
        !(lex_lt(a, b) && lex_lt(b, a)),
    decreases a.len(),
{
    if a.len() > 0 && b.len() > 0 {
        lemma_lex_total(a.drop_first(), b.drop_first());
        if a[0] == b[0] && a != b {
            assert(a =~= seq![a[0]] + a.drop_first());
            assert(b =~= seq![b[0]] + b.drop_first());
        }
    } else if a.len() == 0 && b.len() == 0 {
        assert(a =~= b);
    }
}

proof fn lemma_lex_trans(a: Seq<char>, b: Seq<char>, c: Seq<char>)
    requires
        lex_lt(a, b),
        lex_lt(b, c),
    ensures
        lex_lt(a, c),
    decreases a.len(),
{
    if a.len() > 0 && b.len() > 0 && c.len() > 0 && a[0] == b[0] && b[0] == c[0] {
        lemma_lex_trans(a.drop_first(), b.drop_first(), c.drop_first());
    }
}

/// Compares two strings in lexicographic order.
fn less_than(a: &str, b: &str) -> (r: bool)
    ensures
        r == lex_lt(a@, b@),
{
    let n = a.unicode_len();
    let m = b.unicode_len();
    let mut i: usize = 0;
    proof {
        assert(a@.subrange(0, n as int) =~= a@);
        assert(b@.subrange(0, m as int) =~= b@);
    }
    while i < n && i < m && a.get_char(i) == b.get_char(i)
        invariant
            n == a@.len(),
            m == b@.len(),
            i <= n,
            i <= m,
            lex_lt(a@, b@) == lex_lt(a@.subrange(i as int, n as int), b@.subrange(i as int, m as int)),
        decreases n - i,
    {
        assert(a@.subrange(i as int, n as int).drop_first() =~= a@.subrange(i + 1, n as int));
        assert(b@.subrange(i as int, m as int).drop_first() =~= b@.subrange(i + 1, m as int));
        i = i + 1;
    }
    proof {
        assert(a@.subrange(0, n as int) =~= a@);
        assert(b@.subrange(0, m as int) =~= b@);
    }
    if i == n {
        i < m
    } else if i == m {
        false
    } else {
        a.get_char(i) < b.get_char(i)
    }
}

/// Joins the classifier's verdicts on the license candidates: each license
/// once, sorted, separated by `", "`; the sentinel `"??"` where there is none.
pub fn license_summary(ids: &Vec<String>) -> (r: String)
    ensures
        license_text(ids@.map_values(|s: String| s@), r@),
{
    let ghost iv = ids@.map_values(|s: String| s@);
    let mut out: Vec<String> = Vec::new();
    let mut i: usize = 0;
    while i < ids.len()
        invariant
            i <= ids.len(),
            iv == ids@.map_values(|s: String| s@),
            strictly_sorted(out@.map_values(|s: String| s@)),
            out@.map_values(|s: String| s@).to_set() == iv.subrange(0, i as int).to_set(),
        decreases ids.len() - i,
    {
        let ghost ov = out@.map_values(|s: String| s@);
        let x = ids[i].as_str();
        let mut p: usize = 0;
        while p < out.len() && less_than(out[p].as_str(), x)
            invariant
                p <= out@.len(),
                ov == out@.map_values(|s: String| s@),
                forall|k: int| 0 <= k < p ==> lex_lt(ov[k], x@),
            decreases out.len() - p,
        {
            p = p + 1;
        }
        assert(iv.subrange(0, i + 1) =~= iv.subrange(0, i as int).push(x@));
        if p < out.len() && out[p].as_str().unicode_len() == x.unicode_len() && !less_than(
            x,
            out[p].as_str(),
        ) {
            // out[p] is neither below nor above x: it is x, already listed.
            proof {
                lemma_lex_total(ov[p as int], x@);
                assert(ov[p as int] == x@);
                iv.subrange(0, i as int).lemma_push_to_set_commute(x@);
                assert(ov.contains(x@));
            }
        } else {
            proof {
                if p < out@.len() {
                    lemma_lex_total(ov[p as int], x@);
                    if ov[p as int] == x@ {
                        lemma_lex_irreflexive(x@);
                    }
                }
            }
            out.insert(p, ids[i].clone());
            proof {
                let nv = out@.map_values(|s: String| s@);
                assert(nv =~= ov.insert(p as int, x@));
                assert forall|a: int, b: int| 0 <= a < b < nv.len() implies lex_lt(
                    nv[a],
                    nv[b],
                ) by {
                    if b < p {
                    } else if b == p {
                    } else if a < p {
                        assert(nv[b] == ov[b - 1]);
                        if b - 1 > p {
                            lemma_lex_trans(x@, ov[p as int], ov[b - 1]);
                        }
                        lemma_lex_trans(nv[a], x@, nv[b]);
                    } else if a == p {
                        assert(nv[b] == ov[b - 1]);
                        if b - 1 > p {
                            lemma_lex_trans(x@, ov[p as int], ov[b - 1]);
                        }
                    } else {
                        assert(nv[a] == ov[a - 1]);
                        assert(nv[b] == ov[b - 1]);
                    }
                }
                assert(nv.to_set() =~= ov.to_set().insert(x@)) by {
                    assert forall|v: Seq<char>| nv.contains(v) <==> ov.contains(v) || v == x@ by {
                        if nv.contains(v) {
                            let k = choose|k: int| 0 <= k < nv.len() && nv[k] == v;
                            if k < p {
                                assert(ov[k] == v);
                            } else if k > p {
                                assert(ov[k - 1] == v);
                            }
                        }
                        if ov.contains(v) {
                            let k = choose|k: int| 0 <= k < ov.len() && ov[k] == v;
                            if k < p {
                                assert(nv[k] == v);
                            } else {
                                assert(nv[k + 1] == v);
                            }
                        }
                        if v == x@ {
                            assert(nv[p as int] == v);
                        }
                    }
                }
                iv.subrange(0, i as int).lemma_push_to_set_commute(x@);
            }
        }
        i = i + 1;
    }
    assert(iv.subrange(0, ids.len() as int) =~= iv);
    if out.len() == 0 {
        proof {
            broadcast use vstd::set::group_set_axioms;

            let ov = out@.map_values(|s: String| s@);
            if iv.len() > 0 {
                assert(iv.contains(iv[0]));
                assert(iv.to_set().contains(iv[0]));
                assert(!ov.contains(iv[0]));
                assert(false);
            }
        }
        unknown_string()
    } else {
        let r = join_with_comma(&out);
        proof {
            let ov = out@.map_values(|s: String| s@);
            assert(iv.len() > 0) by {
                assert(ov.to_set().contains(ov[0]));
                if iv.len() == 0 {
                    assert(iv.to_set() =~= Set::<Seq<char>>::empty());
                }
            }
            assert(strictly_sorted(ov) && ov.to_set() == iv.to_set() && r@ == join_comma(ov));
            assert(exists|w: Seq<Seq<char>>|
                strictly_sorted(w) && w.to_set() == iv.to_set() && r@ == join_comma(w));
        }
        r
    }
}

/// `s` without the spaces at its start.
pub open spec fn trim_start(s: Seq<char>) -> Seq<char>
    decreases s.len(),
{
    if s.len() > 0 && s[0] == ' ' {
        trim_start(s.drop_first())
    } else {
        s
    }
}

/// `s` without the spaces at its end.
pub open spec fn trim_end(s: Seq<char>) -> Seq<char>
    decreases s.len(),
{
    if s.len() > 0 && s.last() == ' ' {
        trim_end(s.drop_last())
    } else {
        s
    }
}

/// The tag that names a license in its text.
pub open spec fn spdx_tag() -> Seq<char> {
    "SPDX-License-Identifier:"@
}

/// The license a line names: what follows the tag at its start, without
/// surrounding spaces, where that is not empty.
pub open spec fn tagged_license(line: Seq<char>) -> Option<Seq<char>> {
    if has_prefix(line, spdx_tag()) {
        let v = trim_end(trim_start(line.subrange(spdx_tag().len() as int, line.len() as int)));
        if v.len() > 0 {
            Some(v)
        } else {
            None
        }
    } else {
        None
    }
}

/// The license named by the first line of `lines` that names one.
pub open spec fn first_tagged(lines: Seq<Seq<char>>) -> Option<Seq<char>>
    decreases lines.len(),
{
    if lines.len() == 0 {
        None
    } else if tagged_license(lines[0]) is Some {
        tagged_license(lines[0])
    } else {
        first_tagged(lines.drop_first())
    }
}

/// Cuts the spaces off both ends of `s`.
fn trim_spaces(s: &str) -> (r: String)
    ensures
        r@ == trim_end(trim_start(s@)),
{
    let n = s.unicode_len();
    let mut a: usize = 0;
    assert(s@.subrange(0, n as int) =~= s@);
    while a < n && s.get_char(a) == ' '
        invariant
            a <= n,
            n == s@.len(),
            trim_start(s@) == trim_start(s@.subrange(a as int, n as int)),
        decreases n - a,
    {
        assert(s@.subrange(a as int, n as int).drop_first() =~= s@.subrange(a + 1, n as int));
        a = a + 1;
    }
    let ghost t = s@.subrange(a as int, n as int);
    assert(trim_start(t) == t);
    let mut b: usize = n;
    while b > a && s.get_char(b - 1) == ' '
        invariant
            a <= b <= n,
            n == s@.len(),
            trim_end(t) == trim_end(s@.subrange(a as int, b as int)),
        decreases b,
    {
        assert(s@.subrange(a as int, b as int).drop_last() =~= s@.subrange(a as int, b - 1));
        b = b - 1;
    }
    assert(trim_end(s@.subrange(a as int, b as int)) == s@.subrange(a as int, b as int));
    proof {
        assert(s@.subrange(0, n as int) =~= s@);
    }
    String::from_str(s.substring_char(a, b))
}

/// Reads the license that one line names with the license tag.
pub fn line_license(line: &str) -> (r: Option<String>)
    ensures
        r is Some <==> tagged_license(line@) is Some,
        r is Some ==> r->0@ == tagged_license(line@)->0,
{
    proof {
        reveal_strlit("SPDX-License-Identifier:");
    }
    let tag = "SPDX-License-Identifier:";
    if !starts_with_str(line, tag) {
        return None;
    }
    let v = trim_spaces(line.substring_char(tag.unicode_len(), line.unicode_len()));
    if v.as_str().unicode_len() > 0 {
        Some(v)
    } else {
        None
    }
}

/// Names the license of a license text by its tag: the license that the
/// first line starting with `SPDX-License-Identifier:` names, `None` where
/// no line does.
pub fn tagged_license_of(lines: &Vec<String>) -> (r: Option<String>)
    ensures
        r is Some <==> first_tagged(lines@.map_values(|s: String| s@)) is Some,
        r is Some ==> r->0@ == first_tagged(lines@.map_values(|s: String| s@))->0,
{
    let ghost lv = lines@.map_values(|s: String| s@);
    let mut i: usize = 0;
    assert(lv.subrange(0, lv.len() as int) =~= lv);
    while i < lines.len()
        invariant
            i <= lines@.len(),
            lv == lines@.map_values(|s: String| s@),
            first_tagged(lv) == first_tagged(lv.subrange(i as int, lv.len() as int)),
        decreases lines.len() - i,
    {
        let ghost rest = lv.subrange(i as int, lv.len() as int);
        assert(rest[0] == lines@[i as int]@);
        match line_license(lines[i].as_str()) {
            Some(v) => {
                return Some(v);
            },
            None => {},
        }
        assert(rest.drop_first() =~= lv.subrange(i + 1, lv.len() as int));
        i = i + 1;
    }
    None
}

} // verus!
