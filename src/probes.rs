//! The reductions of the repository probes' raw text output to the display
//! strings of the summary.

use crate::text::{decimal, decimal_string, line_views, strip_newlines, without_char};
use vstd::prelude::*;
use vstd::string::*;

verus! {

/// The sentinel shown where a probe found nothing.
pub open spec fn unknown() -> Seq<char> {
    seq!['?', '?']
}

pub(crate) fn unknown_string() -> (r: String)
    ensures
        r@ == unknown(),
{
    proof {
        reveal_strlit("??");
    }
    String::from_str("??")
}

/// A probe's single-value output as shown: the sentinel where it is empty,
/// and otherwise the output without its newlines.
pub open spec fn shown_or_unknown(output: Seq<char>) -> Seq<char> {
    if output.len() == 0 {
        unknown()
    } else {
        without_char(output, '\n')
    }
}

/// A probe's single-value output for display: the sentinel `"??"` where the
/// output is empty, and otherwise the output without its newlines.
pub fn or_unknown(output: &str) -> (r: String)
    ensures
        r@ == shown_or_unknown(output@),
{
    if output.unicode_len() == 0 {
        unknown_string()
    } else {
        strip_newlines(output)
    }
}

/// What a line of the status query says of its path.
#[derive(Clone, Copy, Debug, PartialEq, Eq, Structural)]
pub enum Change {
    Modified,
    Added,
    Deleted,
}

/// Whether `c` counts as blank in a status code.
pub open spec fn is_blank(c: char) -> bool {
    c == ' ' || c == '\t' || c == '\n' || c == '\r'
}

/// The status code of a status line: its first two characters without the
/// blanks around them.
pub open spec fn status_code(a: char, b: char) -> Seq<char> {
    if is_blank(a) && is_blank(b) {
        Seq::empty()
    } else if is_blank(a) {
        seq![b]
    } else if is_blank(b) {
        seq![a]
    } else {
        seq![a, b]
    }
}

/// The change that a status line reports, if its code is one that counts:
/// `D` deletes; `A`, `AM` and `??` add; `M`, `MM` and `R` modify. A line of
/// fewer than two characters reports none.
pub open spec fn change_of(line: Seq<char>) -> Option<Change> {
    if line.len() < 2 {
        None
    } else {
        let code = status_code(line[0], line[1]);
        if code == seq!['D'] {
            Some(Change::Deleted)
        } else if code == seq!['A'] || code == seq!['A', 'M'] || code == seq!['?', '?'] {
            Some(Change::Added)
        } else if code == seq!['M'] || code == seq!['M', 'M'] || code == seq!['R'] {
            Some(Change::Modified)
        } else {
            None
        }
    }
}

/// How many of `lines` report change `k`.
pub open spec fn count_changes(lines: Seq<Seq<char>>, k: Change) -> nat
    decreases lines.len(),
{
    if lines.len() == 0 {
        0
    } else {
        count_changes(lines.drop_last(), k) + if change_of(lines.last()) == Some(k) {
            1nat
        } else {
            0nat
        }
    }
}

/// The pending-change summary for the given counts: the modified count
/// followed by `+-`, the added count followed by `+`, the deleted count
/// followed by `-`, each only where it is above zero, joined by spaces.
pub open spec fn pending_text(modified: nat, added: nat, deleted: nat) -> Seq<char> {
    let m = if modified > 0 {
        decimal(modified) + seq!['+', '-']
    } else {
        Seq::empty()
    };
    let a = if added > 0 {
        if m.len() > 0 {
            m + seq![' '] + decimal(added) + seq!['+']
        } else {
            decimal(added) + seq!['+']
        }
    } else {
        m
    };
    if deleted > 0 {
        if a.len() > 0 {
            a + seq![' '] + decimal(deleted) + seq!['-']
        } else {
            decimal(deleted) + seq!['-']
        }
    } else {
        a
    }
}

fn is_blank_char(c: char) -> (r: bool)
    ensures
        r == is_blank(c),
{
    c == ' ' || c == '\t' || c == '\n' || c == '\r'
}

/// Reads the change that one status line reports.
pub fn classify_status_line(line: &str) -> (r: Option<Change>)
    ensures
        r == change_of(line@),
{
    if line.unicode_len() < 2 {
        return None;
    }
    let a = line.get_char(0);
    let b = line.get_char(1);
    let ba = is_blank_char(a);
    let bb = is_blank_char(b);
    let ghost code = status_code(a, b);
    if !ba && !bb {
        assert(code =~= seq![a, b]);
        if a == 'A' && b == 'M' || a == '?' && b == '?' {
            assert(code =~= seq!['A', 'M'] || code =~= seq!['?', '?']);
            Some(Change::Added)
        } else if a == 'M' && b == 'M' {
            assert(code =~= seq!['M', 'M']);
            Some(Change::Modified)
        } else {
            assert(code[0] == a && code[1] == b);
            assert(code != seq!['A', 'M']) by {
                if code == seq!['A', 'M'] {
                    assert(seq!['A', 'M'][0] == 'A' && seq!['A', 'M'][1] == 'M');
                }
            }
            assert(code != seq!['?', '?']) by {
                if code == seq!['?', '?'] {
                    assert(seq!['?', '?'][0] == '?' && seq!['?', '?'][1] == '?');
                }
            }
            assert(code != seq!['M', 'M']) by {
                if code == seq!['M', 'M'] {
                    assert(seq!['M', 'M'][0] == 'M' && seq!['M', 'M'][1] == 'M');
                }
            }
                None
        }
    } else if ba && bb {
        assert(code.len() == 0);
        None
    } else {
        let c = if ba {
            b
        } else {
            a
        };
        assert(code =~= seq![c]);
        assert(code[0] == c);
        assert(seq!['D'][0] == 'D' && seq!['A'][0] == 'A' && seq!['M'][0] == 'M' && seq!['R'][0]
            == 'R');
        if c == 'D' {
            Some(Change::Deleted)
        } else if c == 'A' {
            Some(Change::Added)
        } else if c == 'M' || c == 'R' {
            Some(Change::Modified)
        } else {
            assert(code != seq!['D'] && code != seq!['A'] && code != seq!['M'] && code != seq!['R']) by {
                assert(code[0] == c);
            }
                None
        }
    }
}

/// Summarises the lines of the status query (`git status --porcelain`):
/// modified, added and deleted paths are counted and written as
/// `"<m>+- <a>+ <d>-"`, leaving out each count that is zero. No line gives
/// the empty string, which hides the field.
pub fn get_pending_changes(lines: &Vec<String>) -> (r: String)
    ensures
        r@ == pending_text(
            count_changes(line_views(lines@), Change::Modified),
            count_changes(line_views(lines@), Change::Added),
            count_changes(line_views(lines@), Change::Deleted),
        ),
{
    let mut modified: u64 = 0;
    let mut added: u64 = 0;
    let mut deleted: u64 = 0;
    let mut i: usize = 0;
    while i < lines.len()
        invariant
            i <= lines.len(),
            modified as nat == count_changes(line_views(lines@.subrange(0, i as int)), Change::Modified),
            added as nat == count_changes(line_views(lines@.subrange(0, i as int)), Change::Added),
            deleted as nat == count_changes(line_views(lines@.subrange(0, i as int)), Change::Deleted),
            modified + added + deleted <= i,
        decreases lines.len() - i,
    {
        proof {
            assert(line_views(lines@.subrange(0, i + 1)).drop_last() =~= line_views(
                lines@.subrange(0, i as int),
            ));
        }
        match classify_status_line(lines[i].as_str()) {
            Some(Change::Modified) => {
                modified = modified + 1;
            },
            Some(Change::Added) => {
                added = added + 1;
            },
            Some(Change::Deleted) => {
                deleted = deleted + 1;
            },
            None => {},
        }
        i = i + 1;
    }
    assert(lines@.subrange(0, lines.len() as int) =~= lines@);
    let mut out = String::new();
    proof {
        reveal_strlit("+-");
        reveal_strlit("+");
        reveal_strlit("-");
        reveal_strlit(" ");
    }
    if modified > 0 {
        out.append(decimal_string(modified).as_str());
        out.append("+-");
    }
    if added > 0 {
        if out.unicode_len() > 0 {
            out.append(" ");
        }
        out.append(decimal_string(added).as_str());
        out.append("+");
    }
    if deleted > 0 {
        if out.unicode_len() > 0 {
            out.append(" ");
        }
        out.append(decimal_string(deleted).as_str());
        out.append("-");
    }
    proof {
        lemma_decimal_nonempty(modified as nat);
        lemma_decimal_nonempty(added as nat);
    }
    out
}

/// A decimal notation has at least one digit.
pub proof fn lemma_decimal_nonempty(n: nat)
    ensures
        decimal(n).len() > 0,
    decreases n,
{
    if n >= 10 {
        lemma_decimal_nonempty(n / 10);
    }
}

/// Whether `line` starts with `p`.
pub open spec fn starts_with(line: Seq<char>, p: Seq<char>) -> bool {
    p.len() <= line.len() && line.subrange(0, p.len() as int) == p
}

/// The key of the packed-size line of the object-count query.
pub open spec fn size_key() -> Seq<char> {
    seq!['s', 'i', 'z', 'e', '-', 'p', 'a', 'c', 'k', ':']
}

/// The place of the first line of `lines` that starts with the packed-size
/// key, or the number of lines where none does.
pub open spec fn first_size_line(lines: Seq<Seq<char>>) -> nat
    decreases lines.len(),
{
    if lines.len() == 0 {
        0
    } else if starts_with(lines[0], size_key()) {
        0
    } else {
        1 + first_size_line(lines.drop_first())
    }
}

/// The packed size that the object-count query reports: what follows the key
/// and one separator on the first packed-size line, or the sentinel where no
/// line carries a value.
pub open spec fn packed_size_of(lines: Seq<Seq<char>>) -> Seq<char> {
    let k = first_size_line(lines) as int;
    if k < lines.len() && lines[k].len() > 11 {
        lines[k].subrange(11, lines[k].len() as int)
    } else {
        unknown()
    }
}

/// How many times `c` occurs in `s`.
pub open spec fn char_count(s: Seq<char>, c: char) -> nat
    decreases s.len(),
{
    if s.len() == 0 {
        0
    } else {
        char_count(s.drop_last(), c) + if s.last() == c {
            1nat
        } else {
            0nat
        }
    }
}

proof fn lemma_first_size_line(lines: Seq<Seq<char>>, i: int)
    requires
        0 <= i <= lines.len(),
        forall|k: int| 0 <= k < i ==> !starts_with(#[trigger] lines[k], size_key()),
        i == lines.len() || starts_with(lines[i], size_key()),
    ensures
        first_size_line(lines) == i,
    decreases i,
{
    if i > 0 {
        assert forall|k: int| 0 <= k < i - 1 implies !starts_with(
            #[trigger] lines.drop_first()[k],
            size_key(),
        ) by {
            assert(lines.drop_first()[k] == lines[k + 1]);
        }
        lemma_first_size_line(lines.drop_first(), i - 1);
    }
}

fn starts_with_size_key(line: &str) -> (r: bool)
    ensures
        r == starts_with(line@, size_key()),
{
    let key = "size-pack:";
    proof {
        reveal_strlit("size-pack:");
    }
    let n = line.unicode_len();
    if n < 10 {
        return false;
    }
    let mut i: usize = 0;
    while i < 10
        invariant
            i <= 10 <= n,
            n == line@.len(),
            key@ == size_key(),
            forall|k: int| 0 <= k < i ==> line@[k] == key@[k],
        decreases 10 - i,
    {
        if line.get_char(i) != key.get_char(i) {
            assert(line@.subrange(0, 10)[i as int] != size_key()[i as int]);
            return false;
        }
        i = i + 1;
    }
    assert(line@.subrange(0, 10) =~= size_key());
    true
}

/// Counts the newlines of `s`.
fn count_newlines(s: &str) -> (r: u64)
    ensures
        r as nat == char_count(s@, '\n'),
{
    let n = s.unicode_len();
    let mut count: u64 = 0;
    let mut i: usize = 0;
    while i < n
        invariant
            n == s@.len(),
            i <= n,
            count as nat == char_count(s@.subrange(0, i as int), '\n'),
            count <= i,
        decreases n - i,
    {
        assert(s@.subrange(0, i + 1).drop_last() =~= s@.subrange(0, i as int));
        if s.get_char(i) == '\n' {
            count = count + 1;
        }
        i = i + 1;
    }
    assert(s@.subrange(0, n as int) =~= s@);
    count
}

/// The repository size for display, from the lines of the object-count query
/// (`git count-objects -vH`) and the output of the tracked-file listing
/// (`git ls-files`), `None` where the listing failed. With the listing, the
/// size is followed by `" (<n> files)"`, `n` being the number of newlines in
/// the listing.
pub fn get_packed_size(count_objects: &Vec<String>, file_listing: Option<&str>) -> (r: String)
    ensures
        file_listing is None ==> r@ == packed_size_of(line_views(count_objects@)),
        file_listing is Some ==> r@ == packed_size_of(line_views(count_objects@)) + seq![' ', '(']
            + decimal(char_count(file_listing->0@, '\n')) + seq![' ', 'f', 'i', 'l', 'e', 's', ')'],
{
    let ghost lv = line_views(count_objects@);
    let mut k: usize = 0;
    while k < count_objects.len() && !starts_with_size_key(count_objects[k].as_str())
        invariant
            k <= count_objects.len(),
            lv == line_views(count_objects@),
            forall|j: int| 0 <= j < k ==> !starts_with(#[trigger] lv[j], size_key()),
        decreases count_objects.len() - k,
    {
        k = k + 1;
    }
    proof {
        lemma_first_size_line(lv, k as int);
    }
    let mut size = if k < count_objects.len() && count_objects[k].as_str().unicode_len() > 11 {
        let line = count_objects[k].as_str();
        String::from_str(line.substring_char(11, line.unicode_len()))
    } else {
        unknown_string()
    };
    match file_listing {
        Some(listing) => {
            proof {
                reveal_strlit(" (");
                reveal_strlit(" files)");
            }
            size.append(" (");
            size.append(decimal_string(count_newlines(listing)).as_str());
            size.append(" files)");
            size
        },
        None => size,
    }
}

} // verus!
