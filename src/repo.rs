//! The repository's identity: project name and URL from the remote
//! configuration, and the current commit with the references that point at it.

use vstd::prelude::*;
use vstd::string::*;

verus! {

/// One entry of the repository's configuration.
#[derive(Clone, Debug)]
pub struct ConfigEntry {
    pub name: String,
    pub value: String,
}

/// A reference of the repository: the commit it points at, as a hex object
/// id (`None` for a symbolic reference), its short name, and whether it is a
/// tag.
#[derive(Clone, Debug)]
pub struct RefInfo {
    pub target: Option<String>,
    pub shorthand: Option<String>,
    pub is_tag: bool,
}

/// The value of the last entry of `entries` named `key`.
pub open spec fn last_value(entries: Seq<ConfigEntry>, key: Seq<char>) -> Option<Seq<char>>
    decreases entries.len(),
{
    if entries.len() == 0 {
        None
    } else if entries.last().name@ == key {
        Some(entries.last().value@)
    } else {
        last_value(entries.drop_last(), key)
    }
}

/// The remote URL of a configuration: that of the `upstream` remote where
/// there is one, else that of `origin`, else empty.
pub open spec fn remote_url_of(entries: Seq<ConfigEntry>) -> Seq<char> {
    match last_value(entries, "remote.upstream.url"@) {
        Some(u) => u,
        None => match last_value(entries, "remote.origin.url"@) {
            Some(o) => o,
            None => Seq::empty(),
        },
    }
}

/// What follows the last `c` of `s`, or all of `s` where it holds none.
pub open spec fn after_last(s: Seq<char>, c: char) -> Seq<char>
    decreases s.len(),
{
    if s.len() == 0 {
        s
    } else if s.last() == c {
        Seq::empty()
    } else {
        after_last(s.drop_last(), c).push(s.last())
    }
}

/// The four characters that end a repository's directory name.
pub open spec fn git_suffix() -> Seq<char> {
    seq!['.', 'g', 'i', 't']
}

/// Whether `.git` starts at place `k` of `s`.
pub open spec fn git_suffix_at(s: Seq<char>, k: int) -> bool {
    0 <= k && k + 4 <= s.len() && s.subrange(k, k + 4) == git_suffix()
}

/// What stands in `s` before its first `.git`, or all of `s`.
pub open spec fn before_git(s: Seq<char>) -> Seq<char>
    decreases s.len(),
{
    if s.len() < 4 {
        s
    } else if s.subrange(0, 4) == git_suffix() {
        Seq::empty()
    } else {
        seq![s[0]] + before_git(s.drop_first())
    }
}

/// The project name of a remote URL: its last path segment, up to its first
/// `.git`.
pub open spec fn project_name_of(url: Seq<char>) -> Seq<char> {
    before_git(after_last(url, '/'))
}

/// Reads the remote URL from the repository's configuration entries: the
/// `upstream` remote's where it has one, else the `origin` remote's, else
/// empty. Of entries with the same name the last one counts.
pub fn remote_url(entries: &Vec<ConfigEntry>) -> (r: String)
    ensures
        r@ == remote_url_of(entries@),
{
    let origin_key = String::from_str("remote.origin.url");
    let upstream_key = String::from_str("remote.upstream.url");
    let mut origin: Option<usize> = None;
    let mut upstream: Option<usize> = None;
    let mut i: usize = 0;
    while i < entries.len()
        invariant
            i <= entries.len(),
            origin_key@ == "remote.origin.url"@,
            upstream_key@ == "remote.upstream.url"@,
            match origin {
                Some(k) => k < i && last_value(entries@.subrange(0, i as int), "remote.origin.url"@)
                    == Some(entries@[k as int].value@),
                None => last_value(entries@.subrange(0, i as int), "remote.origin.url"@) is None,
            },
            match upstream {
                Some(k) => k < i && last_value(entries@.subrange(0, i as int), "remote.upstream.url"@)
                    == Some(entries@[k as int].value@),
                None => last_value(entries@.subrange(0, i as int), "remote.upstream.url"@) is None,
            },
        decreases entries.len() - i,
    {
        assert(entries@.subrange(0, i + 1).drop_last() =~= entries@.subrange(0, i as int));
        if entries[i].name == origin_key {
            origin = Some(i);
        }
        if entries[i].name == upstream_key {
            upstream = Some(i);
        }
        i = i + 1;
    }
    assert(entries@.subrange(0, entries.len() as int) =~= entries@);
    match upstream {
        Some(k) => entries[k].value.clone(),
        None => match origin {
            Some(k) => entries[k].value.clone(),
            None => String::new(),
        },
    }
}

fn git_suffix_starts(s: &str, k: usize) -> (r: bool)
    requires
        k + 4 <= s@.len(),
        s@.len() <= usize::MAX,
    ensures
        r == git_suffix_at(s@, k as int),
{
    let r = s.get_char(k) == '.' && s.get_char(k + 1) == 'g' && s.get_char(k + 2) == 'i'
        && s.get_char(k + 3) == 't';
    let ghost w = s@.subrange(k as int, k + 4);
    if r {
        assert(w =~= git_suffix());
    } else {
        assert(w[0] == s@[k as int] && w[1] == s@[k + 1] && w[2] == s@[k + 2] && w[3] == s@[k + 3]);
        assert(w != git_suffix()) by {
            if w == git_suffix() {
                assert(git_suffix()[0] == '.' && git_suffix()[1] == 'g' && git_suffix()[2] == 'i'
                    && git_suffix()[3] == 't');
            }
        }
    }
    r
}

/// The project name of a remote URL: its last `/`-separated segment, cut
/// before its first `.git`.
pub fn project_name(url: &str) -> (r: String)
    ensures
        r@ == project_name_of(url@),
{
    let n = url.unicode_len();
    let mut start: usize = 0;
    let mut i: usize = 0;
    while i < n
        invariant
            n == url@.len(),
            start <= i <= n,
            after_last(url@.subrange(0, i as int), '/') == url@.subrange(start as int, i as int),
        decreases n - i,
    {
        assert(url@.subrange(0, i + 1).drop_last() =~= url@.subrange(0, i as int));
        if url.get_char(i) == '/' {
            start = i + 1;
            assert(url@.subrange(start as int, start as int) =~= Seq::<char>::empty());
        } else {
            assert(url@.subrange(start as int, i + 1) =~= url@.subrange(start as int, i as int).push(
                url@[i as int],
            ));
        }
        i = i + 1;
    }
    assert(url@.subrange(0, n as int) =~= url@);
    let seg = url.substring_char(start, n);
    let m = seg.unicode_len();
    let mut k: usize = 0;
    proof {
        assert(seg@.subrange(0, 0) + seg@.subrange(0, m as int) =~= seg@);
    }
    while m >= 4 && k <= m - 4 && !git_suffix_starts(seg, k)
        invariant
            m == seg@.len(),
            k <= m,
            before_git(seg@) == seg@.subrange(0, k as int) + before_git(
                seg@.subrange(k as int, m as int),
            ),
        decreases m - k,
    {
        proof {
            let rest = seg@.subrange(k as int, m as int);
            assert(rest.subrange(0, 4) =~= seg@.subrange(k as int, k + 4));
            assert(rest.drop_first() =~= seg@.subrange(k + 1, m as int));
            assert(seg@.subrange(0, k + 1) =~= seg@.subrange(0, k as int) + seq![rest[0]]);
        }
        k = k + 1;
    }
    proof {
        let rest = seg@.subrange(k as int, m as int);
        if m >= 4 && k <= m - 4 {
            assert(rest.subrange(0, 4) =~= seg@.subrange(k as int, k + 4));
            assert(seg@.subrange(0, k as int) + Seq::<char>::empty() =~= seg@.subrange(0, k as int));
        } else {
            assert(seg@.subrange(0, k as int) + rest =~= seg@);
        }
    }
    if m >= 4 && k <= m - 4 {
        String::from_str(seg.substring_char(0, k))
    } else {
        String::from_str(seg)
    }
}

/// The name under which a reference is shown: `tags/` before a tag's name.
pub open spec fn ref_label(r: RefInfo) -> Seq<char> {
    if r.is_tag {
        seq!['t', 'a', 'g', 's', '/'] + r.shorthand->0@
    } else {
        r.shorthand->0@
    }
}

/// Whether reference `r` has a short name and points at commit `head`.
pub open spec fn points_at(r: RefInfo, head: Seq<char>) -> bool {
    r.target is Some && r.target->0@ == head && r.shorthand is Some
}

/// The labels of the references of `refs` that point at `head`, in order.
pub open spec fn head_labels(refs: Seq<RefInfo>, head: Seq<char>) -> Seq<Seq<char>>
    decreases refs.len(),
{
    if refs.len() == 0 {
        Seq::empty()
    } else if points_at(refs.last(), head) {
        head_labels(refs.drop_last(), head).push(ref_label(refs.last()))
    } else {
        head_labels(refs.drop_last(), head)
    }
}

/// The labels of the references that point at the current commit `head`, in
/// the order given; a tag's label is its name after `tags/`.
pub fn refs_at_head(head: &String, refs: &Vec<RefInfo>) -> (r: Vec<String>)
    ensures
        r@.map_values(|s: String| s@) == head_labels(refs@, head@),
{
    let mut out: Vec<String> = Vec::new();
    let mut i: usize = 0;
    while i < refs.len()
        invariant
            i <= refs.len(),
            out@.map_values(|s: String| s@) == head_labels(refs@.subrange(0, i as int), head@),
        decreases refs.len() - i,
    {
        assert(refs@.subrange(0, i + 1).drop_last() =~= refs@.subrange(0, i as int));
        proof {
            reveal_strlit("tags/");
        }
        let r = &refs[i];
        match (&r.target, &r.shorthand) {
            (Some(t), Some(short)) => {
                if *t == *head {
                    let mut label = if r.is_tag {
                        String::from_str("tags/")
                    } else {
                        String::new()
                    };
                    label.append(short.as_str());
                    assert(label@ =~= ref_label(refs@[i as int]));
                    let ghost before = out@;
                    out.push(label);
                    assert(out@.map_values(|s: String| s@) =~= before.map_values(|s: String| s@).push(
                        ref_label(refs@[i as int]),
                    ));
                }
            },
            _ => {},
        }
        i = i + 1;
    }
    assert(refs@.subrange(0, refs.len() as int) =~= refs@);
    out
}

/// `parts` joined with `", "` between them.
pub open spec fn join_comma(parts: Seq<Seq<char>>) -> Seq<char>
    decreases parts.len(),
{
    if parts.len() == 0 {
        Seq::empty()
    } else if parts.len() == 1 {
        parts[0]
    } else {
        join_comma(parts.drop_last()) + seq![',', ' '] + parts.last()
    }
}

/// Joins `parts` with `", "` between them.
pub fn join_with_comma(parts: &Vec<String>) -> (r: String)
    ensures
        r@ == join_comma(parts@.map_values(|s: String| s@)),
{
    let ghost pv = parts@.map_values(|s: String| s@);
    let mut out = String::new();
    let mut i: usize = 0;
    while i < parts.len()
        invariant
            i <= parts.len(),
            pv == parts@.map_values(|s: String| s@),
            out@ == join_comma(pv.subrange(0, i as int)),
        decreases parts.len() - i,
    {
        assert(pv.subrange(0, i + 1).drop_last() =~= pv.subrange(0, i as int));
        proof {
            reveal_strlit(", ");
        }
        let ghost old_out = out@;
        if i > 0 {
            out.append(", ");
        } else {
            assert(pv.subrange(0, 1)[0] == pv[0]);
        }
        out.append(parts[i].as_str());
        if i > 0 {
            assert(out@ =~= old_out + seq![',', ' '] + pv[i as int]);
        } else {
            assert(out@ =~= pv[0]);
        }
        i = i + 1;
    }
    assert(pv.subrange(0, parts.len() as int) =~= pv);
    out
}

/// The current commit as shown: its first seven hex digits, then the labels
/// of the references at it in parentheses where there are any.
pub open spec fn commit_text(head: Seq<char>, labels: Seq<Seq<char>>) -> Seq<char> {
    let short = if head.len() > 7 {
        head.subrange(0, 7)
    } else {
        head
    };
    if labels.len() == 0 {
        short
    } else {
        short + seq![' ', '('] + join_comma(labels) + seq![')']
    }
}

/// Writes the current commit for display: the short id of `head` and the
/// labels of the references at it.
pub fn commit_info(head: &String, labels: &Vec<String>) -> (r: String)
    ensures
        r@ == commit_text(head@, labels@.map_values(|s: String| s@)),
{
    let h = head.as_str();
    let n = h.unicode_len();
    let mut out = if n > 7 {
        String::from_str(h.substring_char(0, 7))
    } else {
        head.clone()
    };
    if labels.len() > 0 {
        proof {
            reveal_strlit(" (");
            reveal_strlit(")");
        }
        out.append(" (");
        out.append(join_with_comma(labels).as_str());
        out.append(")");
    }
    out
}

} // verus!
