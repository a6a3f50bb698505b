//! The ignored-path patterns handed to the line counter: a pattern that
//! names a path is made to match at any depth.

use vstd::prelude::*;
use vstd::string::*;

verus! {

/// Whether the regular expression `pattern` compiles and matches somewhere in
/// `text`; `None` where it does not compile.
pub uninterp spec fn regex_match(pattern: Seq<char>, text: Seq<char>) -> Option<bool>;

/// Relies on `regex::Regex::new` and `Regex::is_match`: whether the pattern
/// compiles, and then whether it matches somewhere in the text.
#[verifier::external_body]
fn regex_is_match(pattern: &str, text: &str) -> (r: Option<bool>)
    ensures
        r == regex_match(pattern@, text@),
{
    match regex::Regex::new(pattern) {
        Ok(re) => Some(re.is_match(text)),
        Err(_) => None,
    }
}

/// The pattern that tells a path, with a `/` in it, from a bare name.
pub open spec fn path_pattern() -> Seq<char> {
    "((.*)+/)+(.*)"@
}

/// A pattern as handed to the line counter: where it names a path, it is
/// preceded by `**` (where it starts with `/`) or `**/` so that it matches at
/// any depth; a bare name is left as it is.
pub open spec fn glob_of(dir: Seq<char>, names_path: bool) -> Seq<char> {
    if names_path {
        if dir.len() > 0 && dir[0] == '/' {
            seq!['*', '*'] + dir
        } else {
            seq!['*', '*', '/'] + dir
        }
    } else {
        dir
    }
}

/// Rewrites one ignored-path pattern, given whether it names a path.
pub fn glob_for(dir: &str, names_path: bool) -> (r: String)
    ensures
        r@ == glob_of(dir@, names_path),
{
    if names_path {
        let mut out = if dir.unicode_len() > 0 && dir.get_char(0) == '/' {
            proof {
                reveal_strlit("**");
            }
            String::from_str("**")
        } else {
            proof {
                reveal_strlit("**/");
            }
            String::from_str("**/")
        };
        out.append(dir);
        out
    } else {
        String::from_str(dir)
    }
}

/// Rewrites the ignored-path patterns for the line counter: each one that
/// the path pattern matches is made to match at any depth.
pub fn ignore_patterns(dirs: &Vec<String>) -> (r: Vec<String>)
    ensures
        r@.len() == dirs@.len(),
        forall|i: int|
            0 <= i < dirs@.len() ==> #[trigger] r@[i]@ == glob_of(
                dirs@[i]@,
                regex_match(path_pattern(), dirs@[i]@) == Some(true),
            ),
{
    let mut out: Vec<String> = Vec::new();
    let mut i: usize = 0;
    while i < dirs.len()
        invariant
            i <= dirs.len(),
            out@.len() == i,
            forall|k: int|
                0 <= k < i ==> #[trigger] out@[k]@ == glob_of(
                    dirs@[k]@,
                    regex_match(path_pattern(), dirs@[k]@) == Some(true),
                ),
        decreases dirs.len() - i,
    {
        let d = dirs[i].as_str();
        let m = regex_is_match("((.*)+/)+(.*)", d);
        let names_path = match m {
            Some(b) => b,
            None => false,
        };
        out.push(glob_for(d, names_path));
        i = i + 1;
    }
    out
}

} // verus!
