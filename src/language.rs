//! The languages the summary can report, with their display names, logo
//! resources and default palettes.

use crate::color::Color;
use vstd::prelude::*;

verus! {

/// A programming language recognised by the line counter.
#[derive(Clone, Copy, Debug, PartialEq, Eq, Structural, Hash)]
pub enum Language {
    Assembly,
    C,
    Clojure,
    CMake,
    CoffeeScript,
    Cpp,
    Csharp,
    CSS,
    D,
    Dart,
    Dockerfile,
    Elisp,
    Elixir,
    Elm,
    Erlang,
    Fish,
    Forth,
    FortranModern,
    FSharp,
    Go,
    Groovy,
    Haskell,
    HTML,
    Idris,
    Java,
    JavaScript,
    Julia,
    Jupyter,
    Kotlin,
    Lisp,
    Lua,
    Markdown,
    Nim,
    Nix,
    ObjectiveC,
    OCaml,
    Org,
    Perl,
    Php,
    Prolog,
    PureScript,
    Python,
    R,
    Racket,
    Ruby,
    Rust,
    Scala,
    Shell,
    Swift,
    Tcl,
    Tex,
    TypeScript,
    Vue,
    XML,
    Zig,
    Unknown,
}

/// The name shown for `l`.
pub open spec fn name_of(l: Language) -> Seq<char> {
    match l {
        Language::Assembly => "Assembly"@,
        Language::C => "C"@,
        Language::Clojure => "Clojure"@,
        Language::CMake => "CMake"@,
        Language::CoffeeScript => "CoffeeScript"@,
        Language::Cpp => "C++"@,
        Language::Csharp => "C#"@,
        Language::CSS => "CSS"@,
        Language::D => "D"@,
        Language::Dart => "Dart"@,
        Language::Dockerfile => "Dockerfile"@,
        Language::Elisp => "EmacsLisp"@,
        Language::Elixir => "Elixir"@,
        Language::Elm => "Elm"@,
        Language::Erlang => "Erlang"@,
        Language::Fish => "Fish"@,
        Language::Forth => "Forth"@,
        Language::FortranModern => "Fortran"@,
        Language::FSharp => "FSharp"@,
        Language::Go => "Go"@,
        Language::Groovy => "Groovy"@,
        Language::Haskell => "Haskell"@,
        Language::HTML => "HTML"@,
        Language::Idris => "Idris"@,
        Language::Java => "Java"@,
        Language::JavaScript => "JavaScript"@,
        Language::Julia => "Julia"@,
        Language::Jupyter => "Jupyter-Notebooks"@,
        Language::Kotlin => "Kotlin"@,
        Language::Lisp => "Lisp"@,
        Language::Lua => "Lua"@,
        Language::Markdown => "Markdown"@,
        Language::Nim => "Nim"@,
        Language::Nix => "Nix"@,
        Language::ObjectiveC => "Objective-C"@,
        Language::OCaml => "OCaml"@,
        Language::Org => "Org"@,
        Language::Perl => "Perl"@,
        Language::Php => "Php"@,
        Language::Prolog => "Prolog"@,
        Language::PureScript => "PureScript"@,
        Language::Python => "Python"@,
        Language::R => "R"@,
        Language::Racket => "Racket"@,
        Language::Ruby => "Ruby"@,
        Language::Rust => "Rust"@,
        Language::Scala => "Scala"@,
        Language::Shell => "Shell"@,
        Language::Swift => "Swift"@,
        Language::Tcl => "Tcl"@,
        Language::Tex => "Tex"@,
        Language::TypeScript => "TypeScript"@,
        Language::Vue => "Vue"@,
        Language::XML => "XML"@,
        Language::Zig => "Zig"@,
        Language::Unknown => "Unknown"@,
    }
}

/// The file, among the logo resources, that holds the art drawn for `l`.
pub open spec fn art_file_of(l: Language) -> Seq<char> {
    match l {
        Language::Assembly => "assembly.ascii"@,
        Language::C => "c.ascii"@,
        Language::Clojure => "clojure.ascii"@,
        Language::CMake => "cmake.ascii"@,
        Language::CoffeeScript => "coffeescript.ascii"@,
        Language::Cpp => "cpp.ascii"@,
        Language::Csharp => "csharp.ascii"@,
        Language::CSS => "css.ascii"@,
        Language::D => "d.ascii"@,
        Language::Dart => "dart.ascii"@,
        Language::Dockerfile => "dockerfile.ascii"@,
        Language::Elisp => "emacslisp.ascii"@,
        Language::Elixir => "elixir.ascii"@,
        Language::Elm => "elm.ascii"@,
        Language::Erlang => "erlang.ascii"@,
        Language::Fish => "fish.ascii"@,
        Language::Forth => "forth.ascii"@,
        Language::FortranModern => "f90.ascii"@,
        Language::FSharp => "fsharp.ascii"@,
        Language::Go => "go.ascii"@,
        Language::Groovy => "groovy.ascii"@,
        Language::Haskell => "haskell.ascii"@,
        Language::HTML => "html.ascii"@,
        Language::Idris => "idris.ascii"@,
        Language::Java => "java.ascii"@,
        Language::JavaScript => "javascript.ascii"@,
        Language::Julia => "julia.ascii"@,
        Language::Jupyter => "jupyter.ascii"@,
        Language::Kotlin => "kotlin.ascii"@,
        Language::Lisp => "lisp.ascii"@,
        Language::Lua => "lua.ascii"@,
        Language::Markdown => "markdown.ascii"@,
        Language::Nim => "nim.ascii"@,
        Language::Nix => "nix.ascii"@,
        Language::ObjectiveC => "objectivec.ascii"@,
        Language::OCaml => "ocaml.ascii"@,
        Language::Org => "org.ascii"@,
        Language::Perl => "perl.ascii"@,
        Language::Php => "php.ascii"@,
        Language::Prolog => "prolog.ascii"@,
        Language::PureScript => "purescript.ascii"@,
        Language::Python => "python.ascii"@,
        Language::R => "r.ascii"@,
        Language::Racket => "racket.ascii"@,
        Language::Ruby => "ruby.ascii"@,
        Language::Rust => "rust.ascii"@,
        Language::Scala => "scala.ascii"@,
        Language::Shell => "shell.ascii"@,
        Language::Swift => "swift.ascii"@,
        Language::Tcl => "tcl.ascii"@,
        Language::Tex => "tex.ascii"@,
        Language::TypeScript => "typescript.ascii"@,
        Language::Vue => "vue.ascii"@,
        Language::XML => "xml.ascii"@,
        Language::Zig => "zig.ascii"@,
        Language::Unknown => "unknown.ascii"@,
    }
}

/// The default palette of `l`'s logo: the colour of each numbered placeholder.
pub open spec fn colors_of(l: Language) -> Seq<Color> {
    match l {
        Language::Assembly => seq![Color::Cyan],
        Language::C => seq![Color::Cyan, Color::Blue],
        Language::Clojure => seq![Color::Cyan, Color::Green],
        Language::CMake => seq![Color::Blue, Color::Green, Color::Red, Color::Black],
        Language::CoffeeScript => seq![Color::Red],
        Language::Cpp => seq![Color::Cyan, Color::Blue],
        Language::Csharp => seq![Color::Blue, Color::Magenta],
        Language::CSS => seq![Color::Blue, Color::White],
        Language::D => seq![Color::Red],
        Language::Dart => seq![Color::Cyan, Color::Blue],
        Language::Dockerfile => seq![Color::Cyan, Color::White, Color::Cyan],
        Language::Elisp => seq![Color::Magenta, Color::White],
        Language::Elixir => seq![Color::Magenta],
        Language::Elm => seq![Color::Black, Color::Green, Color::Yellow, Color::Cyan],
        Language::Erlang => seq![Color::Red],
        Language::Fish => seq![Color::Red, Color::Yellow],
        Language::Forth => seq![Color::Red],
        Language::FortranModern => seq![Color::White, Color::Green, Color::Cyan, Color::Yellow, Color::Red],
        Language::FSharp => seq![Color::Cyan, Color::Cyan],
        Language::Go => seq![Color::White],
        Language::Groovy => seq![Color::Cyan, Color::White],
        Language::Haskell => seq![Color::Cyan, Color::Magenta, Color::Blue],
        Language::HTML => seq![Color::Red, Color::White],
        Language::Idris => seq![Color::Red],
        Language::Java => seq![Color::Cyan, Color::Red],
        Language::JavaScript => seq![Color::Yellow],
        Language::Julia => seq![Color::White, Color::Blue, Color::Green, Color::Red, Color::Magenta],
        Language::Jupyter => seq![Color::White, Color::Yellow, Color::White],
        Language::Kotlin => seq![Color::Blue, Color::Yellow, Color::Magenta],
        Language::Lisp => seq![Color::Yellow],
        Language::Lua => seq![Color::Blue],
        Language::Markdown => seq![Color::White, Color::Red],
        Language::Nim => seq![Color::Yellow, Color::White],
        Language::Nix => seq![Color::Cyan, Color::Blue],
        Language::ObjectiveC => seq![Color::Cyan, Color::Blue],
        Language::OCaml => seq![Color::Yellow],
        Language::Org => seq![Color::Green, Color::Red, Color::White],
        Language::Perl => seq![Color::Cyan],
        Language::Php => seq![Color::Magenta, Color::Black],
        Language::Prolog => seq![Color::Blue, Color::Red],
        Language::PureScript => seq![Color::White],
        Language::Python => seq![Color::Blue, Color::Yellow],
        Language::R => seq![Color::White, Color::Blue],
        Language::Racket => seq![Color::Red, Color::White, Color::Blue],
        Language::Ruby => seq![Color::Magenta],
        Language::Rust => seq![Color::White, Color::Red],
        Language::Scala => seq![Color::Blue],
        Language::Shell => seq![Color::Green],
        Language::Swift => seq![Color::Red],
        Language::Tcl => seq![Color::Blue, Color::White, Color::Cyan],
        Language::Tex => seq![Color::White, Color::Black],
        Language::TypeScript => seq![Color::Cyan],
        Language::Vue => seq![Color::Green, Color::Blue],
        Language::XML => seq![Color::Yellow, Color::White, Color::Green],
        Language::Zig => seq![Color::Yellow],
        Language::Unknown => seq![Color::White],
    }
}

/// Every language, in the order in which they are declared.
pub open spec fn all_languages() -> Seq<Language> {
    seq![
        Language::Assembly,
        Language::C,
        Language::Clojure,
        Language::CMake,
        Language::CoffeeScript,
        Language::Cpp,
        Language::Csharp,
        Language::CSS,
        Language::D,
        Language::Dart,
        Language::Dockerfile,
        Language::Elisp,
        Language::Elixir,
        Language::Elm,
        Language::Erlang,
        Language::Fish,
        Language::Forth,
        Language::FortranModern,
        Language::FSharp,
        Language::Go,
        Language::Groovy,
        Language::Haskell,
        Language::HTML,
        Language::Idris,
        Language::Java,
        Language::JavaScript,
        Language::Julia,
        Language::Jupyter,
        Language::Kotlin,
        Language::Lisp,
        Language::Lua,
        Language::Markdown,
        Language::Nim,
        Language::Nix,
        Language::ObjectiveC,
        Language::OCaml,
        Language::Org,
        Language::Perl,
        Language::Php,
        Language::Prolog,
        Language::PureScript,
        Language::Python,
        Language::R,
        Language::Racket,
        Language::Ruby,
        Language::Rust,
        Language::Scala,
        Language::Shell,
        Language::Swift,
        Language::Tcl,
        Language::Tex,
        Language::TypeScript,
        Language::Vue,
        Language::XML,
        Language::Zig,
        Language::Unknown,
    ]
}

impl Language {
    /// Every language, in the order in which they are declared.
    pub fn all() -> (r: Vec<Language>)
        ensures
            r@ == all_languages(),
    {
        let v = vec![
            Language::Assembly,
            Language::C,
            Language::Clojure,
            Language::CMake,
            Language::CoffeeScript,
            Language::Cpp,
            Language::Csharp,
            Language::CSS,
            Language::D,
            Language::Dart,
            Language::Dockerfile,
            Language::Elisp,
            Language::Elixir,
            Language::Elm,
            Language::Erlang,
            Language::Fish,
            Language::Forth,
            Language::FortranModern,
            Language::FSharp,
            Language::Go,
            Language::Groovy,
            Language::Haskell,
            Language::HTML,
            Language::Idris,
            Language::Java,
            Language::JavaScript,
            Language::Julia,
            Language::Jupyter,
            Language::Kotlin,
            Language::Lisp,
            Language::Lua,
            Language::Markdown,
            Language::Nim,
            Language::Nix,
            Language::ObjectiveC,
            Language::OCaml,
            Language::Org,
            Language::Perl,
            Language::Php,
            Language::Prolog,
            Language::PureScript,
            Language::Python,
            Language::R,
            Language::Racket,
            Language::Ruby,
            Language::Rust,
            Language::Scala,
            Language::Shell,
            Language::Swift,
            Language::Tcl,
            Language::Tex,
            Language::TypeScript,
            Language::Vue,
            Language::XML,
            Language::Zig,
            Language::Unknown,
        ];
        assert(v@ =~= all_languages());
        v
    }

    /// The name shown for this language.
    pub fn name(&self) -> (r: &'static str)
        ensures
            r@ == name_of(*self),
    {
        match *self {
            Language::Assembly => "Assembly",
            Language::C => "C",
            Language::Clojure => "Clojure",
            Language::CMake => "CMake",
            Language::CoffeeScript => "CoffeeScript",
            Language::Cpp => "C++",
            Language::Csharp => "C#",
            Language::CSS => "CSS",
            Language::D => "D",
            Language::Dart => "Dart",
            Language::Dockerfile => "Dockerfile",
            Language::Elisp => "EmacsLisp",
            Language::Elixir => "Elixir",
            Language::Elm => "Elm",
            Language::Erlang => "Erlang",
            Language::Fish => "Fish",
            Language::Forth => "Forth",
            Language::FortranModern => "Fortran",
            Language::FSharp => "FSharp",
            Language::Go => "Go",
            Language::Groovy => "Groovy",
            Language::Haskell => "Haskell",
            Language::HTML => "HTML",
            Language::Idris => "Idris",
            Language::Java => "Java",
            Language::JavaScript => "JavaScript",
            Language::Julia => "Julia",
            Language::Jupyter => "Jupyter-Notebooks",
            Language::Kotlin => "Kotlin",
            Language::Lisp => "Lisp",
            Language::Lua => "Lua",
            Language::Markdown => "Markdown",
            Language::Nim => "Nim",
            Language::Nix => "Nix",
            Language::ObjectiveC => "Objective-C",
            Language::OCaml => "OCaml",
            Language::Org => "Org",
            Language::Perl => "Perl",
            Language::Php => "Php",
            Language::Prolog => "Prolog",
            Language::PureScript => "PureScript",
            Language::Python => "Python",
            Language::R => "R",
            Language::Racket => "Racket",
            Language::Ruby => "Ruby",
            Language::Rust => "Rust",
            Language::Scala => "Scala",
            Language::Shell => "Shell",
            Language::Swift => "Swift",
            Language::Tcl => "Tcl",
            Language::Tex => "Tex",
            Language::TypeScript => "TypeScript",
            Language::Vue => "Vue",
            Language::XML => "XML",
            Language::Zig => "Zig",
            Language::Unknown => "Unknown",
        }
    }

    /// The logo resource of this language: the name of the file, among the
    /// logo resources, that holds its art.
    pub fn get_ascii_art(&self) -> (r: &'static str)
        ensures
            r@ == art_file_of(*self),
    {
        match *self {
            Language::Assembly => "assembly.ascii",
            Language::C => "c.ascii",
            Language::Clojure => "clojure.ascii",
            Language::CMake => "cmake.ascii",
            Language::CoffeeScript => "coffeescript.ascii",
            Language::Cpp => "cpp.ascii",
            Language::Csharp => "csharp.ascii",
            Language::CSS => "css.ascii",
            Language::D => "d.ascii",
            Language::Dart => "dart.ascii",
            Language::Dockerfile => "dockerfile.ascii",
            Language::Elisp => "emacslisp.ascii",
            Language::Elixir => "elixir.ascii",
            Language::Elm => "elm.ascii",
            Language::Erlang => "erlang.ascii",
            Language::Fish => "fish.ascii",
            Language::Forth => "forth.ascii",
            Language::FortranModern => "f90.ascii",
            Language::FSharp => "fsharp.ascii",
            Language::Go => "go.ascii",
            Language::Groovy => "groovy.ascii",
            Language::Haskell => "haskell.ascii",
            Language::HTML => "html.ascii",
            Language::Idris => "idris.ascii",
            Language::Java => "java.ascii",
            Language::JavaScript => "javascript.ascii",
            Language::Julia => "julia.ascii",
            Language::Jupyter => "jupyter.ascii",
            Language::Kotlin => "kotlin.ascii",
            Language::Lisp => "lisp.ascii",
            Language::Lua => "lua.ascii",
            Language::Markdown => "markdown.ascii",
            Language::Nim => "nim.ascii",
            Language::Nix => "nix.ascii",
            Language::ObjectiveC => "objectivec.ascii",
            Language::OCaml => "ocaml.ascii",
            Language::Org => "org.ascii",
            Language::Perl => "perl.ascii",
            Language::Php => "php.ascii",
            Language::Prolog => "prolog.ascii",
            Language::PureScript => "purescript.ascii",
            Language::Python => "python.ascii",
            Language::R => "r.ascii",
            Language::Racket => "racket.ascii",
            Language::Ruby => "ruby.ascii",
            Language::Rust => "rust.ascii",
            Language::Scala => "scala.ascii",
            Language::Shell => "shell.ascii",
            Language::Swift => "swift.ascii",
            Language::Tcl => "tcl.ascii",
            Language::Tex => "tex.ascii",
            Language::TypeScript => "typescript.ascii",
            Language::Vue => "vue.ascii",
            Language::XML => "xml.ascii",
            Language::Zig => "zig.ascii",
            Language::Unknown => "unknown.ascii",
        }
    }

    /// The default palette of this language's logo.
    pub fn get_colors(&self) -> (r: Vec<Color>)
        ensures
            r@ == colors_of(*self),
    {
        match *self {
            Language::Assembly => vec![Color::Cyan],
            Language::C => vec![Color::Cyan, Color::Blue],
            Language::Clojure => vec![Color::Cyan, Color::Green],
            Language::CMake => vec![Color::Blue, Color::Green, Color::Red, Color::Black],
            Language::CoffeeScript => vec![Color::Red],
            Language::Cpp => vec![Color::Cyan, Color::Blue],
            Language::Csharp => vec![Color::Blue, Color::Magenta],
            Language::CSS => vec![Color::Blue, Color::White],
            Language::D => vec![Color::Red],
            Language::Dart => vec![Color::Cyan, Color::Blue],
            Language::Dockerfile => vec![Color::Cyan, Color::White, Color::Cyan],
            Language::Elisp => vec![Color::Magenta, Color::White],
            Language::Elixir => vec![Color::Magenta],
            Language::Elm => vec![Color::Black, Color::Green, Color::Yellow, Color::Cyan],
            Language::Erlang => vec![Color::Red],
            Language::Fish => vec![Color::Red, Color::Yellow],
            Language::Forth => vec![Color::Red],
            Language::FortranModern => vec![Color::White, Color::Green, Color::Cyan, Color::Yellow, Color::Red],
            Language::FSharp => vec![Color::Cyan, Color::Cyan],
            Language::Go => vec![Color::White],
            Language::Groovy => vec![Color::Cyan, Color::White],
            Language::Haskell => vec![Color::Cyan, Color::Magenta, Color::Blue],
            Language::HTML => vec![Color::Red, Color::White],
            Language::Idris => vec![Color::Red],
            Language::Java => vec![Color::Cyan, Color::Red],
            Language::JavaScript => vec![Color::Yellow],
            Language::Julia => vec![Color::White, Color::Blue, Color::Green, Color::Red, Color::Magenta],
            Language::Jupyter => vec![Color::White, Color::Yellow, Color::White],
            Language::Kotlin => vec![Color::Blue, Color::Yellow, Color::Magenta],
            Language::Lisp => vec![Color::Yellow],
            Language::Lua => vec![Color::Blue],
            Language::Markdown => vec![Color::White, Color::Red],
            Language::Nim => vec![Color::Yellow, Color::White],
            Language::Nix => vec![Color::Cyan, Color::Blue],
            Language::ObjectiveC => vec![Color::Cyan, Color::Blue],
            Language::OCaml => vec![Color::Yellow],
            Language::Org => vec![Color::Green, Color::Red, Color::White],
            Language::Perl => vec![Color::Cyan],
            Language::Php => vec![Color::Magenta, Color::Black],
            Language::Prolog => vec![Color::Blue, Color::Red],
            Language::PureScript => vec![Color::White],
            Language::Python => vec![Color::Blue, Color::Yellow],
            Language::R => vec![Color::White, Color::Blue],
            Language::Racket => vec![Color::Red, Color::White, Color::Blue],
            Language::Ruby => vec![Color::Magenta],
            Language::Rust => vec![Color::White, Color::Red],
            Language::Scala => vec![Color::Blue],
            Language::Shell => vec![Color::Green],
            Language::Swift => vec![Color::Red],
            Language::Tcl => vec![Color::Blue, Color::White, Color::Cyan],
            Language::Tex => vec![Color::White, Color::Black],
            Language::TypeScript => vec![Color::Cyan],
            Language::Vue => vec![Color::Green, Color::Blue],
            Language::XML => vec![Color::Yellow, Color::White, Color::Green],
            Language::Zig => vec![Color::Yellow],
            Language::Unknown => vec![Color::White],
        }
    }
}

} // verus!
