//! Formatting of the multi-line fields of the summary: the language list and
//! the author list.

use crate::authors::AuthorStat;
use crate::language::name_of;
use crate::layout::{space_string, spaces};
use crate::stats::{percent_tenths, tenths_of_percent, DisplayShare};
use crate::text::{decimal, decimal_string, digit_char};
use vstd::prelude::*;
use vstd::string::*;

verus! {

/// One line of the info column: a label, drawn in the title colour, and
/// its content, drawn plain.
#[derive(Clone, Debug)]
pub struct InfoLine {
    pub label: String,
    pub content: String,
}

/// The view of an info line.
pub open spec fn line_view(l: InfoLine) -> (Seq<char>, Seq<char>) {
    (l.label@, l.content@)
}

/// A number of tenths written with one decimal place.
pub open spec fn one_decimal(tenths: nat) -> Seq<char> {
    decimal(tenths / 10) + seq!['.', digit_char(tenths % 10)]
}

/// The name shown for a display entry: the language's, or `Other`.
pub open spec fn share_name(s: DisplayShare) -> Seq<char> {
    match s.language {
        Some(l) => name_of(l),
        None => "Other"@,
    }
}

/// A display entry as listed: `Name (12.3 %) `.
pub open spec fn share_text(s: DisplayShare, total: nat) -> Seq<char> {
    share_name(s) + seq![' ', '('] + one_decimal(tenths_of_percent(s.lines as nat, total)) + seq![
        ' ',
        '%',
        ')',
        ' ',
    ]
}

/// The entries `from` to `to` of `shares`, listed one after another.
pub open spec fn shares_text(shares: Seq<DisplayShare>, total: nat, from: int, to: int) -> Seq<char>
    decreases to - from,
{
    if to <= from {
        Seq::empty()
    } else {
        shares_text(shares, total, from, to - 1) + share_text(shares[to - 1], total)
    }
}

/// The lines of the language list: three entries to a line, the first line
/// under the `Languages: ` label, the others indented to the same column.
pub open spec fn language_lines(shares: Seq<DisplayShare>, total: nat) -> Seq<(Seq<char>, Seq<char>)> {
    Seq::new(
        ((shares.len() + 2) / 3) as nat,
        |j: int|
            {
                let to = if 3 * j + 3 <= shares.len() {
                    3 * j + 3
                } else {
                    shares.len() as int
                };
                if j == 0 {
                    ("Languages: "@, shares_text(shares, total, 0, to))
                } else {
                    (Seq::empty(), spaces(11) + shares_text(shares, total, 3 * j, to))
                }
            },
    )
}

/// An author as listed: `pct% name commits`.
pub open spec fn author_text(a: AuthorStat) -> Seq<char> {
    decimal(a.percent as nat) + seq!['%', ' '] + a.name@ + seq![' '] + decimal(a.commits as nat)
}

/// The lines of the author list: the first under `Author: ` (one author) or
/// `Authors: `, the others under a blank label of the same width.
pub open spec fn author_lines(authors: Seq<AuthorStat>) -> Seq<(Seq<char>, Seq<char>)> {
    let title = if authors.len() > 1 {
        "Authors: "@
    } else {
        "Author: "@
    };
    Seq::new(
        authors.len(),
        |k: int|
            if k == 0 {
                (title, author_text(authors[k]))
            } else {
                (spaces(title.len()), author_text(authors[k]))
            },
    )
}

/// Writes a number of tenths with one decimal place.
pub fn one_decimal_string(tenths: u64) -> (r: String)
    ensures
        r@ == one_decimal(tenths as nat),
{
    let mut s = decimal_string(tenths / 10);
    proof {
        reveal_strlit(".");
    }
    s.append(".");
    let d = decimal_string(tenths % 10);
    assert(d@ == seq![digit_char((tenths % 10) as nat)]);
    s.append(d.as_str());
    assert(s@ =~= one_decimal(tenths as nat));
    s
}

/// Writes the name shown for a display entry.
pub fn share_name_str(s: &DisplayShare) -> (r: &'static str)
    ensures
        r@ == share_name(*s),
{
    match s.language {
        Some(l) => l.name(),
        None => "Other",
    }
}

/// Writes the entries `from` to `to` of `shares` one after another.
fn shares_string(shares: &Vec<DisplayShare>, total: u64, from: usize, to: usize) -> (r: String)
    requires
        from <= to <= shares@.len(),
        total > 0,
        forall|k: int| 0 <= k < shares@.len() ==> shares@[k].lines <= total,
    ensures
        r@ == shares_text(shares@, total as nat, from as int, to as int),
{
    let mut out = String::new();
    let mut k = from;
    while k < to
        invariant
            from <= k <= to <= shares@.len(),
            total > 0,
            forall|j: int| 0 <= j < shares@.len() ==> shares@[j].lines <= total,
            out@ == shares_text(shares@, total as nat, from as int, k as int),
        decreases to - k,
    {
        proof {
            reveal_strlit(" (");
            reveal_strlit(" %) ");
        }
        let s = &shares[k];
        out.append(share_name_str(s));
        out.append(" (");
        out.append(one_decimal_string(percent_tenths(s.lines, total)).as_str());
        out.append(" %) ");
        assert(out@ =~= shares_text(shares@, total as nat, from as int, k as int) + share_text(
            shares@[k as int],
            total as nat,
        ));
        k = k + 1;
    }
    out
}

/// Lays out the language list three entries to a line.
pub fn language_list_lines(shares: &Vec<DisplayShare>, total: u64) -> (r: Vec<InfoLine>)
    requires
        total > 0,
        forall|k: int| 0 <= k < shares@.len() ==> shares@[k].lines <= total,
    ensures
        r@.map_values(|l: InfoLine| line_view(l)) == language_lines(shares@, total as nat),
{
    let ghost want = language_lines(shares@, total as nat);
    let n = shares.len();
    let mut out: Vec<InfoLine> = Vec::new();
    let mut from: usize = 0;
    let mut j: usize = 0;
    while from < n
        invariant
            n == shares@.len(),
            total > 0,
            forall|k: int| 0 <= k < shares@.len() ==> shares@[k].lines <= total,
            want == language_lines(shares@, total as nat),
            from <= n,
            from < n ==> from == 3 * j,
            from == 0 ==> j == 0,
            want.len() == (n + 2) / 3,
            j <= want.len(),
            from < n ==> j < want.len(),
            from == n ==> j == want.len(),
            out@.map_values(|l: InfoLine| line_view(l)) == want.subrange(0, j as int),
        decreases n + 3 - from,
    {
        let to = if n - from >= 3 {
            from + 3
        } else {
            n
        };
        let text = shares_string(shares, total, from, to);
        let line = if j == 0 {
            proof {
                reveal_strlit("Languages: ");
            }
            InfoLine { label: String::from_str("Languages: "), content: text }
        } else {
            let mut c = space_string(11);
            c.append(text.as_str());
            InfoLine { label: String::new(), content: c }
        };
        assert(line_view(line) == want[j as int]);
        let ghost before = out@;
        out.push(line);
        assert(out@.map_values(|l: InfoLine| line_view(l)) =~= before.map_values(
            |l: InfoLine| line_view(l),
        ).push(line_view(line)));
        assert(want.subrange(0, j + 1) =~= want.subrange(0, j as int).push(want[j as int]));
        from = to;
        j = j + 1;
    }
    assert(want.subrange(0, j as int) =~= want);
    out
}

/// Writes one author as listed.
fn author_string(a: &AuthorStat) -> (r: String)
    requires
        a.percent <= u64::MAX,
        a.commits <= u64::MAX,
    ensures
        r@ == author_text(*a),
{
    proof {
        reveal_strlit("% ");
        reveal_strlit(" ");
    }
    let mut s = decimal_string(a.percent as u64);
    s.append("% ");
    s.append(a.name.as_str());
    s.append(" ");
    s.append(decimal_string(a.commits as u64).as_str());
    s
}

/// Lays out the author list, one author to a line.
pub fn author_list_lines(authors: &Vec<AuthorStat>) -> (r: Vec<InfoLine>)
    ensures
        r@.map_values(|l: InfoLine| line_view(l)) == author_lines(authors@),
{
    let ghost want = author_lines(authors@);
    proof {
        reveal_strlit("Authors: ");
        reveal_strlit("Author: ");
    }
    let title = if authors.len() > 1 {
        "Authors: "
    } else {
        "Author: "
    };
    let pad = space_string(title.unicode_len());
    let mut out: Vec<InfoLine> = Vec::new();
    let mut k: usize = 0;
    while k < authors.len()
        invariant
            k <= authors@.len(),
            want == author_lines(authors@),
            title@ == (if authors@.len() > 1 {
                "Authors: "@
            } else {
                "Author: "@
            }),
            pad@ == spaces(title@.len()),
            out@.map_values(|l: InfoLine| line_view(l)) == want.subrange(0, k as int),
        decreases authors.len() - k,
    {
        let label = if k == 0 {
            String::from_str(title)
        } else {
            pad.clone()
        };
        let line = InfoLine { label, content: author_string(&authors[k]) };
        assert(line_view(line) == want[k as int]);
        let ghost before = out@;
        out.push(line);
        assert(out@.map_values(|l: InfoLine| line_view(l)) =~= before.map_values(
            |l: InfoLine| line_view(l),
        ).push(line_view(line)));
        assert(want.subrange(0, k + 1) =~= want.subrange(0, k as int).push(want[k as int]));
        k = k + 1;
    }
    assert(want.subrange(0, authors.len() as int) =~= want);
    out
}

} // verus!
