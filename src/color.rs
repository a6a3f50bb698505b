//! Terminal colours: the sixteen-colour palette, the user's numbered
//! overrides of a logo's palette, and painting text through `colored`.

use colored::Colorize;
use vstd::prelude::*;
use vstd::string::*;

verus! {

/// One of the sixteen standard terminal colours.
#[derive(Clone, Copy, Debug, PartialEq, Eq, Structural, Hash)]
pub enum Color {
    Black,
    Red,
    Green,
    Yellow,
    Blue,
    Magenta,
    Cyan,
    White,
    BrightBlack,
    BrightRed,
    BrightGreen,
    BrightYellow,
    BrightBlue,
    BrightMagenta,
    BrightCyan,
    BrightWhite,
}

/// The colour that carries number `n` (0 to 15) in the standard terminal order.
pub open spec fn palette(n: nat) -> Color {
    if n == 0 {
        Color::Black
    } else if n == 1 {
        Color::Red
    } else if n == 2 {
        Color::Green
    } else if n == 3 {
        Color::Yellow
    } else if n == 4 {
        Color::Blue
    } else if n == 5 {
        Color::Magenta
    } else if n == 6 {
        Color::Cyan
    } else if n == 7 {
        Color::White
    } else if n == 8 {
        Color::BrightBlack
    } else if n == 9 {
        Color::BrightRed
    } else if n == 10 {
        Color::BrightGreen
    } else if n == 11 {
        Color::BrightYellow
    } else if n == 12 {
        Color::BrightBlue
    } else if n == 13 {
        Color::BrightMagenta
    } else if n == 14 {
        Color::BrightCyan
    } else {
        Color::BrightWhite
    }
}

/// The colour name that `colored` reads for `c`.
pub open spec fn key_of(c: Color) -> Seq<char> {
    match c {
        Color::Black => "black"@,
        Color::Red => "red"@,
        Color::Green => "green"@,
        Color::Yellow => "yellow"@,
        Color::Blue => "blue"@,
        Color::Magenta => "magenta"@,
        Color::Cyan => "cyan"@,
        Color::White => "white"@,
        Color::BrightBlack => "bright black"@,
        Color::BrightRed => "bright red"@,
        Color::BrightGreen => "bright green"@,
        Color::BrightYellow => "bright yellow"@,
        Color::BrightBlue => "bright blue"@,
        Color::BrightMagenta => "bright magenta"@,
        Color::BrightCyan => "bright cyan"@,
        Color::BrightWhite => "bright white"@,
    }
}

/// The value of decimal digit `c`, if it is one.
pub open spec fn digit_value(c: char) -> Option<nat> {
    if '0' <= c && c <= '9' {
        Some((c as u32 - '0' as u32) as nat)
    } else {
        None
    }
}

/// The colour number written by `s`: `"0"` to `"15"`, in plain decimal.
pub open spec fn color_code(s: Seq<char>) -> Option<nat> {
    if s.len() == 1 && digit_value(s[0]) is Some {
        digit_value(s[0])
    } else if s.len() == 2 && s[0] == '1' && digit_value(s[1]) is Some && digit_value(
        s[1],
    )->0 <= 5 {
        Some(10 + digit_value(s[1])->0)
    } else {
        None
    }
}

/// The colour a user's override `s` asks for, if it names one.
pub open spec fn color_of_code(s: Seq<char>) -> Option<Color> {
    match color_code(s) {
        Some(n) => Some(palette(n)),
        None => None,
    }
}

/// A logo palette after the user's overrides: the colour at place `i` is the
/// one that override `i` names, where there is such an override and it names
/// a colour, and the default otherwise.
pub open spec fn with_overrides(defaults: Seq<Color>, custom: Seq<Seq<char>>) -> Seq<Color> {
    Seq::new(
        defaults.len(),
        |i: int|
            if i < custom.len() && color_of_code(custom[i]) is Some {
                color_of_code(custom[i])->0
            } else {
                defaults[i]
            },
    )
}

/// The colour with number `n`.
fn color_by_number(n: u32) -> (r: Color)
    requires
        n < 16,
    ensures
        r == palette(n as nat),
{
    match n {
        0 => Color::Black,
        1 => Color::Red,
        2 => Color::Green,
        3 => Color::Yellow,
        4 => Color::Blue,
        5 => Color::Magenta,
        6 => Color::Cyan,
        7 => Color::White,
        8 => Color::BrightBlack,
        9 => Color::BrightRed,
        10 => Color::BrightGreen,
        11 => Color::BrightYellow,
        12 => Color::BrightBlue,
        13 => Color::BrightMagenta,
        14 => Color::BrightCyan,
        _ => Color::BrightWhite,
    }
}

/// Reads a user's colour override: `"0"` to `"15"` select a colour of the
/// standard palette; anything else selects none.
pub fn num_to_color(num: &str) -> (r: Option<Color>)
    ensures
        r == color_of_code(num@),
{
    let n = num.unicode_len();
    if n == 1 {
        let c = num.get_char(0);
        if '0' <= c && c <= '9' {
            return Some(color_by_number(c as u32 - '0' as u32));
        }
    } else if n == 2 {
        let c0 = num.get_char(0);
        let c1 = num.get_char(1);
        if c0 == '1' && '0' <= c1 && c1 <= '5' {
            return Some(color_by_number(10 + (c1 as u32 - '0' as u32)));
        }
    }
    None
}

/// Applies the user's numbered overrides to a logo's default palette.
pub fn apply_custom_colors(defaults: &Vec<Color>, custom: &Vec<String>) -> (r: Vec<Color>)
    ensures
        r@ == with_overrides(defaults@, custom@.map_values(|s: String| s@)),
{
    let ghost want = with_overrides(defaults@, custom@.map_values(|s: String| s@));
    let mut out: Vec<Color> = Vec::new();
    let mut i: usize = 0;
    while i < defaults.len()
        invariant
            i <= defaults.len(),
            want == with_overrides(defaults@, custom@.map_values(|s: String| s@)),
            out@ == want.subrange(0, i as int),
        decreases defaults.len() - i,
    {
        let mut c = defaults[i];
        if i < custom.len() {
            match num_to_color(custom[i].as_str()) {
                Some(o) => {
                    c = o;
                },
                None => {},
            }
        }
        out.push(c);
        i = i + 1;
    }
    assert(out@ == want);
    out
}

/// The name under which `colored` knows colour `c`.
pub fn color_key(c: Color) -> (r: &'static str)
    ensures
        r@ == key_of(c),
{
    match c {
        Color::Black => "black",
        Color::Red => "red",
        Color::Green => "green",
        Color::Yellow => "yellow",
        Color::Blue => "blue",
        Color::Magenta => "magenta",
        Color::Cyan => "cyan",
        Color::White => "white",
        Color::BrightBlack => "bright black",
        Color::BrightRed => "bright red",
        Color::BrightGreen => "bright green",
        Color::BrightYellow => "bright yellow",
        Color::BrightBlue => "bright blue",
        Color::BrightMagenta => "bright magenta",
        Color::BrightCyan => "bright cyan",
        Color::BrightWhite => "bright white",
    }
}

/// The sequence that ends a styled run of text.
pub open spec fn reset_seq() -> Seq<char> {
    seq!['\x1b', '[', '0', 'm']
}

/// What painting may make of `text`: where colouring is switched off, `text`
/// itself; otherwise `text` behind a style sequence and followed by the reset
/// sequence.
pub open spec fn painted_form(text: Seq<char>, r: Seq<char>) -> bool {
    !text.contains('\x1b') ==> (r == text || exists|p: Seq<char>| r == p + text + reset_seq())
}

/// Relies on `colored::Colorize::color` and the display of `ColoredString`:
/// the text in the named foreground colour, or the text alone where the
/// environment switches colouring off.
#[verifier::external_body]
pub(crate) fn paint(text: &str, color: &str) -> (r: String)
    ensures
        painted_form(text@, r@),
{
    text.color(color).to_string()
}

/// Relies on `colored::Colorize::color` and `bold` and the display of
/// `ColoredString`: the text in the named colour and in bold, or the text alone
/// where the environment switches colouring off.
#[verifier::external_body]
pub(crate) fn paint_bold(text: &str, color: &str) -> (r: String)
    ensures
        painted_form(text@, r@),
{
    text.color(color).bold().to_string()
}

/// Relies on `colored::Colorize::on_color` and the display of
/// `ColoredString`: the text on the named background colour, or the text alone
/// where the environment switches colouring off.
#[verifier::external_body]
pub(crate) fn paint_background(text: &str, color: &str) -> (r: String)
    ensures
        painted_form(text@, r@),
{
    text.on_color(color).to_string()
}

} // verus!
