use onefetch::authors::AuthorStat;
use onefetch::color::{apply_custom_colors, num_to_color, Color};
use onefetch::error::Error;
use onefetch::info::{Info, InfoFieldOn, Probes};
use onefetch::language::Language;
use onefetch::layout::{block_string, logo_width, text_lines, zip_columns};
use onefetch::license::{line_license, tagged_license_of};
use onefetch::plan::{plan_probes, Discovery, Probe};
use onefetch::repo::{ConfigEntry, RefInfo};
use onefetch::stats::LanguageLines;

fn lines(v: &[&str]) -> Vec<String> {
    v.iter().map(|s| s.to_string()).collect()
}

fn nothing_hidden() -> InfoFieldOn {
    InfoFieldOn {
        git_info: false,
        project: false,
        head: false,
        version: false,
        created: false,
        languages: false,
        authors: false,
        last_change: false,
        repo: false,
        pending: false,
        commits: false,
        lines_of_code: false,
        size: false,
        license: false,
    }
}

fn probes() -> Probes {
    Probes {
        language_counts: vec![
            LanguageLines { language: Language::Rust, lines: 750 },
            LanguageLines { language: Language::Python, lines: 250 },
        ],
        config: Some(vec![ConfigEntry {
            name: "remote.origin.url".into(),
            value: "https://example.org/me/onefetch.git".into(),
        }]),
        head: Some("a1b2c3d4e5f6".into()),
        refs: vec![RefInfo { target: Some("a1b2c3d4e5f6".into()), shorthand: Some("master".into()), is_tag: false }],
        history: lines(&["2 hours ago\tAlice", "1 week ago\tBob", "2 years ago\tAlice"]),
        git_version: "git version 2.30.0\n".into(),
        git_username: "Alice\n".into(),
        version: "".into(),
        last_change: "2 hours ago\n".into(),
        status: lines(&["M  a.txt", "?? b.txt"]),
        count_objects: lines(&["size-pack: 12.00 KiB"]),
        file_listing: Some("a.txt\nb.txt\n".into()),
        license_ids: Some(lines(&["MIT", "MIT"])),
    }
}

fn build(p: &Probes) -> Result<Info, Error> {
    Info::new(&Discovery::WorkTree("/repo".into()), p, Language::Unknown, vec!["9".to_string()], nothing_hidden(), false, true, 3)
}

#[test]
fn zip_pads_rows_past_the_logo() {
    let logo = lines(&["0123456789", "ab", "cdef"]);
    let info = lines(&["one", "two", "three", "four", "five"]);
    let rows = zip_columns(&logo, 10, &info);
    assert_eq!(rows.len(), 5);
    assert_eq!(rows[0], "0123456789   one");
    assert_eq!(rows[1], "ab   two");
    assert!(rows[3].starts_with("          "));
    assert!(rows[4].starts_with("          "));
    assert_eq!(rows[3], "             four");
    assert_eq!(rows[4], "             five");
}

#[test]
fn zip_keeps_logo_lines_past_the_info() {
    let logo = lines(&["L1", "L2", "L3"]);
    let info = lines(&["i1"]);
    let rows = zip_columns(&logo, 2, &info);
    assert_eq!(rows, lines(&["L1   i1", "L2", "L3"]));
    assert_eq!(block_string(&rows), "L1   i1\nL2\nL3\n\n");
    assert_eq!(block_string(&Vec::new()), "\n");
}

#[test]
fn non_repository_launches_no_probe() {
    assert_eq!(plan_probes(&Discovery::NotARepository).unwrap_err(), Error::NotARepository);
    assert_eq!(plan_probes(&Discovery::Bare).unwrap_err(), Error::BareRepository);
    let all = plan_probes(&Discovery::WorkTree("/tmp/x".into())).unwrap();
    assert_eq!(all.len(), 10);
    assert_eq!(all[0], Probe::Languages);
    assert_eq!(all[9], Probe::License);
}

#[test]
fn colour_overrides_are_numbered() {
    assert_eq!(num_to_color("0"), Some(Color::Black));
    assert_eq!(num_to_color("9"), Some(Color::BrightRed));
    assert_eq!(num_to_color("15"), Some(Color::BrightWhite));
    assert_eq!(num_to_color("16"), None);
    assert_eq!(num_to_color("01"), None);
    assert_eq!(num_to_color("red"), None);
    let out = apply_custom_colors(&vec![Color::White, Color::Red], &lines(&["4", "x", "2"]));
    assert_eq!(out, vec![Color::Blue, Color::Red]);
}

#[test]
fn language_table_entries() {
    assert_eq!(Language::Cpp.name(), "C++");
    assert_eq!(Language::Csharp.name(), "C#");
    assert_eq!(Language::Rust.get_colors(), vec![Color::White, Color::Red]);
    assert_eq!(Language::Rust.get_ascii_art(), "rust.ascii");
    assert_eq!(Language::FortranModern.get_ascii_art(), "f90.ascii");
}

#[test]
fn summary_is_assembled_from_probes() {
    let info = build(&probes()).unwrap();
    assert_eq!(info.git_version, "git version 2.30.0");
    assert_eq!(info.git_username, "Alice");
    assert_eq!(info.project_name, "onefetch");
    assert_eq!(info.repo, "https://example.org/me/onefetch.git");
    assert_eq!(info.current_commit, "a1b2c3d (master)");
    assert_eq!(info.version, "??");
    assert_eq!(info.creation_date, "2 years ago");
    assert_eq!(info.commits, "3");
    assert_eq!(info.pending, "1+- 1+");
    assert_eq!(info.repo_size, "12.00 KiB (2 files)");
    assert_eq!(info.license, "MIT");
    assert_eq!(info.number_of_lines, 1000);
    assert_eq!(info.dominant_language, Language::Rust);
    assert_eq!(info.authors.len(), 2);
    assert_eq!(info.authors[0].name, "Alice");
    assert_eq!(info.authors[0].percent, 66);
    assert_eq!(info.get_ascii(), "rust.ascii");
    assert_eq!(info.colors(), vec![Color::BrightRed, Color::Red]);
}

#[test]
fn fatal_probe_failures_stop_the_summary() {
    let mut p = probes();
    p.head = None;
    assert_eq!(build(&p).unwrap_err(), Error::ReferenceResolutionFailed);
    p.config = None;
    assert_eq!(build(&p).unwrap_err(), Error::ConfigurationUnavailable);
    p.language_counts = vec![LanguageLines { language: Language::Go, lines: 0 }];
    assert_eq!(build(&p).unwrap_err(), Error::NoSourceCodeFound);
}

#[test]
fn unreadable_license_directory_shows_unknown() {
    let mut p = probes();
    p.license_ids = None;
    assert_eq!(build(&p).unwrap().license, "??");
}

#[test]
fn info_lines_follow_the_field_order() {
    let info = build(&probes()).unwrap();
    let shown: Vec<(String, String)> = info.info_lines().into_iter().map(|l| (l.label, l.content)).collect();
    let expect: Vec<(String, String)> = vec![
        ("Alice ~ git version 2.30.0", ""),
        ("", "--------------------------"),
        ("Project: ", "onefetch"),
        ("HEAD: ", "a1b2c3d (master)"),
        ("Pending: ", "1+- 1+"),
        ("Version: ", "??"),
        ("Created: ", "2 years ago"),
        ("Languages: ", "Rust (75.0 %) Python (25.0 %) "),
        ("Authors: ", "66% Alice 2"),
        ("         ", "33% Bob 1"),
        ("Last change: ", "2 hours ago"),
        ("Repo: ", "https://example.org/me/onefetch.git"),
        ("Commits: ", "3"),
        ("Lines of code: ", "1000"),
        ("Size: ", "12.00 KiB (2 files)"),
        ("License: ", "MIT"),
    ]
    .into_iter()
    .map(|(a, b)| (a.to_string(), b.to_string()))
    .collect();
    assert_eq!(shown, expect);
}

#[test]
fn language_list_wraps_after_three_entries() {
    let mut p = probes();
    p.language_counts = vec![
        LanguageLines { language: Language::Rust, lines: 40 },
        LanguageLines { language: Language::Go, lines: 20 },
        LanguageLines { language: Language::C, lines: 15 },
        LanguageLines { language: Language::Lua, lines: 10 },
        LanguageLines { language: Language::Nim, lines: 6 },
        LanguageLines { language: Language::Zig, lines: 5 },
        LanguageLines { language: Language::Elm, lines: 3 },
        LanguageLines { language: Language::Tcl, lines: 1 },
    ];
    let info = build(&p).unwrap();
    let langs: Vec<(String, String)> = info
        .info_lines()
        .into_iter()
        .map(|l| (l.label, l.content))
        .filter(|(_, c)| c.contains(" %) "))
        .collect();
    assert_eq!(langs.len(), 3);
    assert_eq!(langs[0].0, "Languages: ");
    assert_eq!(langs[0].1, "Rust (40.0 %) Go (20.0 %) C (15.0 %) ");
    assert_eq!(langs[1].0, "");
    assert_eq!(langs[1].1, "           Lua (10.0 %) Nim (6.0 %) Zig (5.0 %) ");
    assert_eq!(langs[2].1, "           Other (4.0 %) ");
}

#[test]
fn hidden_fields_are_left_out() {
    let mut hidden = nothing_hidden();
    hidden.git_info = true;
    hidden.authors = true;
    hidden.license = true;
    let info = Info::new(&Discovery::WorkTree("/repo".into()), &probes(), Language::Go, Vec::new(), hidden, true, true, 3).unwrap();
    let labels: Vec<String> = info.info_lines().into_iter().map(|l| l.label).collect();
    assert_eq!(labels[0], "Project: ");
    assert!(!labels.iter().any(|l| l == "License: " || l == "Authors: "));
    assert_eq!(info.get_ascii(), "go.ascii");
}

#[test]
fn single_language_and_single_author_labels() {
    let mut p = probes();
    p.language_counts = vec![LanguageLines { language: Language::Go, lines: 10 }];
    p.history = lines(&["now\tSolo"]);
    let info = build(&p).unwrap();
    let shown: Vec<(String, String)> = info.info_lines().into_iter().map(|l| (l.label, l.content)).collect();
    assert!(shown.contains(&("Language: ".to_string(), "Go".to_string())));
    assert!(shown.contains(&("Author: ".to_string(), "100% Solo 1".to_string())));
}

#[test]
fn render_paints_labels_beside_the_logo() {
    colored::control::set_override(true);
    let info = Info::new(&Discovery::WorkTree("/repo".into()), &probes(), Language::Unknown, Vec::new(), nothing_hidden(), false, false, 3).unwrap();
    let logo = lines(&["RRRR", "RRRR"]);
    let out = info.render(&logo, 4);
    colored::control::unset_override();
    let rows: Vec<&str> = out.split('\n').collect();
    assert!(rows[0].starts_with("RRRR   \u{1b}["));
    assert!(rows[0].contains("Alice ~ git version 2.30.0\u{1b}[0m"));
    assert!(rows[2].starts_with("       \u{1b}["));
    assert!(out.contains("Project: \u{1b}[0monefetch"));
    assert!(out.ends_with("\n\n") && !out.ends_with("\n\n\n"));
    let blank = rows.iter().position(|r| r.trim().is_empty()).unwrap();
    assert!(rows[blank + 1].contains("\u{1b}[40m   \u{1b}[0m"));
}

#[test]
fn error_messages_are_distinct() {
    assert_ne!(Error::NotARepository.message(), Error::BareRepository.message());
    let _ = AuthorStat { name: String::new(), commits: 0, percent: 0 };
}

#[test]
fn art_text_splits_into_lines_with_a_width() {
    let logo = text_lines("ab\ncdef\n\ng\n");
    assert_eq!(logo, lines(&["ab", "cdef", "", "g"]));
    assert_eq!(logo_width(&logo), 4);
    assert_eq!(text_lines("one"), lines(&["one"]));
    assert!(text_lines("").is_empty());
    assert_eq!(logo_width(&Vec::new()), 0);
}

#[test]
fn license_tag_names_the_license() {
    let text = lines(&["Copyright (c) 2020", "SPDX-License-Identifier:  MIT  ", "SPDX-License-Identifier: GPL-3.0"]);
    assert_eq!(tagged_license_of(&text), Some("MIT".to_string()));
    assert_eq!(line_license("SPDX-License-Identifier:   "), None);
    assert_eq!(tagged_license_of(&lines(&["MIT License", "Permission is hereby granted"])), None);
}

#[test]
fn bold_labels_are_painted_bold() {
    colored::control::set_override(true);
    let info = Info::new(&Discovery::WorkTree("/repo".into()), &probes(), Language::Unknown, Vec::new(), nothing_hidden(), true, true, 3).unwrap();
    let out = info.render(&Vec::new(), 0);
    colored::control::unset_override();
    assert!(out.contains("\u{1b}[1;"));
    assert!(out.starts_with("   \u{1b}[1;"));
}

#[test]
fn failed_discovery_reads_no_probe() {
    let no_code = Probes { language_counts: Vec::new(), config: None, head: None, ..probes() };
    let r = Info::new(&Discovery::NotARepository, &no_code, Language::Unknown, Vec::new(), nothing_hidden(), false, true, 3);
    assert_eq!(r.unwrap_err(), Error::NotARepository);
    let r = Info::new(&Discovery::Bare, &probes(), Language::Unknown, Vec::new(), nothing_hidden(), false, true, 3);
    assert_eq!(r.unwrap_err(), Error::BareRepository);
}

#[test]
fn every_language_is_listed_once() {
    let all = Language::all();
    assert_eq!(all.len(), 56);
    assert_eq!(all[0], Language::Assembly);
    assert_eq!(all[55], Language::Unknown);
}
