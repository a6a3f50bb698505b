use onefetch::license::{is_license_file, license_summary};
use onefetch::probes::{classify_status_line, get_packed_size, get_pending_changes, or_unknown, Change};
use onefetch::repo::{commit_info, project_name, refs_at_head, remote_url, ConfigEntry, RefInfo};
use onefetch::ignore::{glob_for, ignore_patterns};

fn lines(v: &[&str]) -> Vec<String> {
    v.iter().map(|s| s.to_string()).collect()
}

#[test]
fn pending_changes_are_summarised() {
    assert_eq!(get_pending_changes(&lines(&["M  a.txt", "?? b.txt", "D  c.txt"])), "1+- 1+ 1-");
}

#[test]
fn no_status_lines_give_no_pending_string() {
    assert_eq!(get_pending_changes(&Vec::new()), "");
}

#[test]
fn pending_changes_skip_unknown_and_short_lines() {
    let input = lines(&[" M x", "A  y", "AM z", "R  r", "XY q", "D", "MM m"]);
    assert_eq!(get_pending_changes(&input), "3+- 2+");
    assert_eq!(get_pending_changes(&lines(&[" D gone"])), "1-");
    assert_eq!(classify_status_line("??"), Some(Change::Added));
    assert_eq!(classify_status_line("  x"), None);
}

#[test]
fn packed_size_reads_the_size_line() {
    let out = lines(&["count: 0", "size: 0 bytes", "size-pack: 1.50 MiB", "size-pack: 9 MiB"]);
    assert_eq!(get_packed_size(&out, Some("a\nb\nc\n")), "1.50 MiB (3 files)");
    assert_eq!(get_packed_size(&out, None), "1.50 MiB");
    assert_eq!(get_packed_size(&lines(&["count: 0"]), Some("")), "?? (0 files)");
}

#[test]
fn empty_probe_output_is_unknown() {
    assert_eq!(or_unknown(""), "??");
    assert_eq!(or_unknown("v2.1.0\n"), "v2.1.0");
}

#[test]
fn upstream_remote_wins_over_origin() {
    let entries = vec![
        ConfigEntry { name: "remote.origin.url".into(), value: "https://example.org/me/fork.git".into() },
        ConfigEntry { name: "user.name".into(), value: "me".into() },
        ConfigEntry { name: "remote.upstream.url".into(), value: "https://example.org/them/onefetch.git".into() },
    ];
    let url = remote_url(&entries);
    assert_eq!(url, "https://example.org/them/onefetch.git");
    assert_eq!(project_name(&url), "onefetch");
    assert_eq!(remote_url(&entries[..2].to_vec()), "https://example.org/me/fork.git");
    assert_eq!(remote_url(&Vec::new()), "");
}

#[test]
fn project_name_is_the_last_segment() {
    assert_eq!(project_name("git@host:group/tool.git"), "tool");
    assert_eq!(project_name("https://host/a/plain"), "plain");
    assert_eq!(project_name("https://host/a/name.github.io.git"), "name");
    assert_eq!(project_name(""), "");
}

#[test]
fn commit_label_lists_the_refs_at_head() {
    let head = "0123456789abcdef".to_string();
    let refs = vec![
        RefInfo { target: Some(head.clone()), shorthand: Some("main".into()), is_tag: false },
        RefInfo { target: Some("ffff".into()), shorthand: Some("other".into()), is_tag: false },
        RefInfo { target: Some(head.clone()), shorthand: Some("v1.0".into()), is_tag: true },
        RefInfo { target: None, shorthand: Some("HEAD".into()), is_tag: false },
    ];
    let labels = refs_at_head(&head, &refs);
    assert_eq!(labels, vec!["main".to_string(), "tags/v1.0".to_string()]);
    assert_eq!(commit_info(&head, &labels), "0123456 (main, tags/v1.0)");
    assert_eq!(commit_info(&"abc".to_string(), &Vec::new()), "abc");
}

#[test]
fn license_files_are_recognised_by_prefix() {
    assert!(is_license_file("LICENSE"));
    assert!(is_license_file("LICENSE-MIT"));
    assert!(is_license_file("LICENCE.txt"));
    assert!(is_license_file("COPYING"));
    assert!(!is_license_file("license"));
    assert!(!is_license_file("README.md"));
}

#[test]
fn same_license_twice_is_listed_once() {
    assert_eq!(license_summary(&lines(&["MIT", "MIT"])), "MIT");
}

#[test]
fn licenses_are_sorted_and_joined() {
    assert_eq!(license_summary(&lines(&["MIT", "Apache-2.0", "MIT"])), "Apache-2.0, MIT");
    assert_eq!(license_summary(&Vec::new()), "??");
}

#[test]
fn path_patterns_match_at_any_depth() {
    let out = ignore_patterns(&lines(&["target", "src/gen", "/abs/dir"]));
    assert_eq!(out, lines(&["target", "**/src/gen", "**/abs/dir"]));
    assert_eq!(glob_for("a/b", true), "**/a/b");
    assert_eq!(glob_for("a", false), "a");
}
