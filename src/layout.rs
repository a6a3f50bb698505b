//! The two-column layout: logo lines on the left, info lines on the right,
//! advanced in lock-step.

use crate::text::line_views;
use vstd::prelude::*;
use vstd::string::*;

verus! {

/// The gap between the logo column and the info column.
pub open spec fn gutter() -> Seq<char> {
    seq![' ', ' ', ' ']
}

/// `n` spaces.
pub open spec fn spaces(n: nat) -> Seq<char> {
    Seq::new(n, |i: int| ' ')
}

/// Row `k` of the layout of `logo`, drawn `width` columns wide, beside
/// `info`: both lines joined by the gutter where both have one; the logo
/// line alone once the info has run out; the info line behind `width` spaces
/// and the gutter once the logo has run out.
pub open spec fn row(logo: Seq<Seq<char>>, width: nat, info: Seq<Seq<char>>, k: int) -> Seq<char> {
    if k < logo.len() && k < info.len() {
        logo[k] + gutter() + info[k]
    } else if k < logo.len() {
        logo[k]
    } else {
        spaces(width) + gutter() + info[k]
    }
}

/// The rows of the layout: as many as the longer column has lines.
pub open spec fn rows(logo: Seq<Seq<char>>, width: nat, info: Seq<Seq<char>>) -> Seq<Seq<char>> {
    Seq::new(
        if logo.len() >= info.len() {
            logo.len()
        } else {
            info.len()
        },
        |k: int| row(logo, width, info, k),
    )
}

/// Writes `n` spaces.
pub fn space_string(n: usize) -> (r: String)
    ensures
        r@ == spaces(n as nat),
{
    let mut out = String::new();
    let mut i: usize = 0;
    while i < n
        invariant
            i <= n,
            out@ == spaces(i as nat),
        decreases n - i,
    {
        proof {
            reveal_strlit(" ");
        }
        out.append(" ");
        assert(out@ =~= spaces((i + 1) as nat));
        i = i + 1;
    }
    out
}

/// Lays out the logo lines, `width` columns wide, beside the info lines.
pub fn zip_columns(logo: &Vec<String>, width: usize, info: &Vec<String>) -> (r: Vec<String>)
    ensures
        line_views(r@) == rows(line_views(logo@), width as nat, line_views(info@)),
{
    let ghost want = rows(line_views(logo@), width as nat, line_views(info@));
    let n = if logo.len() >= info.len() {
        logo.len()
    } else {
        info.len()
    };
    let mut out: Vec<String> = Vec::new();
    let mut k: usize = 0;
    while k < n
        invariant
            k <= n,
            n == want.len(),
            want == rows(line_views(logo@), width as nat, line_views(info@)),
            line_views(out@) == want.subrange(0, k as int),
        decreases n - k,
    {
        proof {
            reveal_strlit("   ");
        }
        let line = if k < logo.len() && k < info.len() {
            let mut s = logo[k].clone();
            s.append("   ");
            s.append(info[k].as_str());
            s
        } else if k < logo.len() {
            logo[k].clone()
        } else {
            let mut s = space_string(width);
            s.append("   ");
            s.append(info[k].as_str());
            s
        };
        assert(line@ =~= want[k as int]);
        let ghost before = out@;
        out.push(line);
        assert(line_views(out@) =~= line_views(before).push(line@));
        assert(want.subrange(0, k + 1) =~= want.subrange(0, k as int).push(want[k as int]));
        k = k + 1;
    }
    assert(want.subrange(0, n as int) =~= want);
    out
}

/// `rows` written out, each followed by a newline, and then one blank line.
pub open spec fn block_text(rows: Seq<Seq<char>>) -> Seq<char>
    decreases rows.len(),
{
    if rows.len() == 0 {
        seq!['\n']
    } else {
        rows[0] + seq!['\n'] + block_text(rows.drop_first())
    }
}

/// The rows written out, each followed by a newline.
pub open spec fn lines_text(rows: Seq<Seq<char>>) -> Seq<char>
    decreases rows.len(),
{
    if rows.len() == 0 {
        Seq::empty()
    } else {
        lines_text(rows.drop_last()) + rows.last() + seq!['\n']
    }
}

proof fn lemma_block_text(rows: Seq<Seq<char>>)
    ensures
        block_text(rows) == lines_text(rows) + seq!['\n'],
    decreases rows.len(),
{
    if rows.len() > 0 {
        lemma_block_text(rows.drop_first());
        lemma_lines_text_first(rows);
        assert(rows[0] + seq!['\n'] + (lines_text(rows.drop_first()) + seq!['\n'])
            =~= (rows[0] + seq!['\n'] + lines_text(rows.drop_first())) + seq!['\n']);
    }
}

proof fn lemma_lines_text_first(rows: Seq<Seq<char>>)
    requires
        rows.len() > 0,
    ensures
        lines_text(rows) == rows[0] + seq!['\n'] + lines_text(rows.drop_first()),
    decreases rows.len(),
{
    if rows.len() == 1 {
        assert(rows.drop_first() =~= Seq::<Seq<char>>::empty());
        assert(rows.drop_last() =~= Seq::<Seq<char>>::empty());
        assert(lines_text(rows.drop_last()) =~= Seq::<char>::empty());
        assert(rows.last() == rows[0]);
        assert(lines_text(rows) =~= rows[0] + seq!['\n']);
        assert(rows[0] + seq!['\n'] + lines_text(rows.drop_first()) =~= rows[0] + seq!['\n']);
    } else {
        lemma_lines_text_first(rows.drop_last());
        assert(rows.drop_last().drop_first() =~= rows.drop_first().drop_last());
        assert(rows.drop_last()[0] == rows[0]);
        assert(rows.drop_first().last() == rows.last());
        assert(lines_text(rows) =~= rows[0] + seq!['\n'] + lines_text(rows.drop_first()));
    }
}

/// Writes the rows out, each followed by a newline, and ends the block with
/// one blank line.
pub fn block_string(rows: &Vec<String>) -> (r: String)
    ensures
        r@ == block_text(line_views(rows@)),
{
    let ghost rv = line_views(rows@);
    let mut out = String::new();
    let mut i: usize = 0;
    while i < rows.len()
        invariant
            i <= rows.len(),
            rv == line_views(rows@),
            out@ == lines_text(rv.subrange(0, i as int)),
        decreases rows.len() - i,
    {
        proof {
            reveal_strlit("\n");
        }
        out.append(rows[i].as_str());
        out.append("\n");
        assert(rv.subrange(0, i + 1).drop_last() =~= rv.subrange(0, i as int));
        i = i + 1;
    }
    proof {
        reveal_strlit("\n");
        assert(rv.subrange(0, rows.len() as int) =~= rv);
        lemma_block_text(rv);
    }
    out.append("\n");
    out
}

/// The lines of `s`: the pieces between its newlines, without a last empty
/// piece after a final newline.
pub open spec fn split_lines(s: Seq<char>) -> Seq<Seq<char>>
    decreases s.len(),
{
    if s.len() == 0 {
        Seq::empty()
    } else if s.last() == '\n' {
        pieces(s.drop_last())
    } else {
        pieces(s)
    }
}

/// The pieces of `s` between its newlines.
pub open spec fn pieces(s: Seq<char>) -> Seq<Seq<char>>
    decreases s.len(),
{
    if s.len() == 0 {
        seq![Seq::empty()]
    } else {
        let p = pieces(s.drop_last());
        if s.last() == '\n' {
            p.push(Seq::empty())
        } else {
            p.update(p.len() - 1, p.last().push(s.last()))
        }
    }
}

proof fn lemma_pieces_nonempty(s: Seq<char>)
    ensures
        pieces(s).len() > 0,
    decreases s.len(),
{
    if s.len() > 0 {
        lemma_pieces_nonempty(s.drop_last());
    }
}

/// Splits a text into its lines.
pub fn text_lines(art: &str) -> (r: Vec<String>)
    ensures
        line_views(r@) == split_lines(art@),
{
    let n = art.unicode_len();
    let end = if n > 0 && art.get_char(n - 1) == '\n' {
        n - 1
    } else {
        n
    };
    let ghost body = art@.subrange(0, end as int);
    let mut out: Vec<String> = Vec::new();
    let mut start: usize = 0;
    let mut i: usize = 0;
    proof {
        assert(body.subrange(0, 0) =~= Seq::<char>::empty());
        assert(art@.subrange(0, 0) =~= Seq::<char>::empty());
        assert(line_views(out@).push(art@.subrange(0, 0)) =~= seq![Seq::<char>::empty()]);
    }
    while i < end
        invariant
            end <= n,
            n == art@.len(),
            body == art@.subrange(0, end as int),
            start <= i <= end,
            pieces(body.subrange(0, i as int)) == line_views(out@).push(
                art@.subrange(start as int, i as int),
            ),
        decreases end - i,
    {
        let ghost before = out@;
        assert(body.subrange(0, i + 1).drop_last() =~= body.subrange(0, i as int));
        if art.get_char(i) == '\n' {
            out.push(String::from_str(art.substring_char(start, i)));
            assert(line_views(out@) =~= line_views(before).push(art@.subrange(start as int, i as int)));
            start = i + 1;
            assert(art@.subrange(start as int, start as int) =~= Seq::<char>::empty());
        } else {
            assert(art@.subrange(start as int, i + 1) =~= art@.subrange(start as int, i as int).push(
                art@[i as int],
            ));
            let ghost p = line_views(before).push(art@.subrange(start as int, i as int));
            assert(p.update(p.len() - 1, p.last().push(art@[i as int])) =~= line_views(out@).push(
                art@.subrange(start as int, i + 1),
            ));
        }
        i = i + 1;
    }
    out.push(String::from_str(art.substring_char(start, end)));
    proof {
        assert(body.subrange(0, end as int) =~= body);
        if n == 0 {
            assert(art@ =~= Seq::<char>::empty());
        } else if art@.last() == '\n' {
            assert(art@.drop_last() =~= body);
        } else {
            assert(art@ =~= body);
        }
    }
    assert(line_views(out@) =~= pieces(body));
    if n == 0 {
        proof {
            lemma_pieces_nonempty(art@);
        }
        return Vec::new();
    }
    out
}

/// The width of a logo: the length of its longest line.
pub open spec fn max_len(lines: Seq<Seq<char>>) -> nat
    decreases lines.len(),
{
    if lines.len() == 0 {
        0
    } else if lines.last().len() > max_len(lines.drop_last()) {
        lines.last().len()
    } else {
        max_len(lines.drop_last())
    }
}

/// The width of a logo: the number of characters of its longest line.
pub fn logo_width(lines: &Vec<String>) -> (r: usize)
    ensures
        r as nat == max_len(line_views(lines@)),
{
    let mut w: usize = 0;
    let mut i: usize = 0;
    while i < lines.len()
        invariant
            i <= lines@.len(),
            w as nat == max_len(line_views(lines@.subrange(0, i as int))),
        decreases lines.len() - i,
    {
        assert(line_views(lines@.subrange(0, i + 1)).drop_last() =~= line_views(
            lines@.subrange(0, i as int),
        ));
        let l = lines[i].as_str().unicode_len();
        if l > w {
            w = l;
        }
        i = i + 1;
    }
    assert(lines@.subrange(0, lines.len() as int) =~= lines@);
    w
}

} // verus!
