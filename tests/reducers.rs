use onefetch::authors::get_authors;
use onefetch::error::Error;
use onefetch::history::{get_creation_date, get_number_of_commits, parse_history, parse_history_line};
use onefetch::language::Language;
use onefetch::stats::{bucket_languages, percent_tenths, LanguageLines};

fn lines(v: &[&str]) -> Vec<String> {
    v.iter().map(|s| s.to_string()).collect()
}

fn counts(v: &[(Language, u64)]) -> Vec<LanguageLines> {
    v.iter().map(|&(language, lines)| LanguageLines { language, lines }).collect()
}

#[test]
fn language_stats_are_ranked_with_total() {
    let input = counts(&[(Language::Rust, 30), (Language::Go, 50), (Language::C, 20)]);
    let (stats, total) = Language::get_language_stats(&input).unwrap();
    assert_eq!(total, 100);
    let order: Vec<Language> = stats.iter().map(|s| s.language).collect();
    assert_eq!(order, vec![Language::Go, Language::Rust, Language::C]);
    assert_eq!(Language::get_dominant_language(&stats), Language::Go);
}

#[test]
fn language_stats_equal_counts_keep_their_order() {
    let input = counts(&[(Language::Lua, 5), (Language::Nim, 9), (Language::Zig, 5), (Language::Elm, 5)]);
    let (stats, _) = Language::get_language_stats(&input).unwrap();
    let order: Vec<Language> = stats.iter().map(|s| s.language).collect();
    assert_eq!(order, vec![Language::Nim, Language::Lua, Language::Zig, Language::Elm]);
}

#[test]
fn language_percentages_sum_to_one_hundred() {
    let input = counts(&[(Language::Rust, 7), (Language::Go, 11), (Language::C, 13), (Language::Java, 1)]);
    let (stats, total) = Language::get_language_stats(&input).unwrap();
    let sum: f64 = stats.iter().map(|s| 100.0 * s.lines as f64 / total as f64).sum();
    assert!((sum - 100.0).abs() <= 0.01);
    for w in stats.windows(2) {
        assert!(w[0].lines >= w[1].lines);
    }
}

#[test]
fn no_code_is_an_error() {
    let input = counts(&[(Language::Rust, 0), (Language::Go, 0)]);
    assert_eq!(Language::get_language_stats(&input).unwrap_err(), Error::NoSourceCodeFound);
    assert_eq!(Language::get_language_stats(&Vec::new()).unwrap_err(), Error::NoSourceCodeFound);
}

#[test]
fn percent_in_tenths_rounds_to_nearest() {
    assert_eq!(percent_tenths(1, 3), 333);
    assert_eq!(percent_tenths(2, 3), 667);
    assert_eq!(percent_tenths(1, 1), 1000);
    assert_eq!(percent_tenths(1, 2000), 1);
    assert_eq!(percent_tenths(0, 5), 0);
}

#[test]
fn more_than_six_languages_are_bucketed() {
    let input = counts(&[
        (Language::Rust, 80),
        (Language::Go, 70),
        (Language::C, 60),
        (Language::Java, 50),
        (Language::Lua, 40),
        (Language::Nim, 30),
        (Language::Zig, 20),
        (Language::Elm, 10),
    ]);
    let (stats, _) = Language::get_language_stats(&input).unwrap();
    let shown = bucket_languages(&stats);
    assert_eq!(shown.len(), 7);
    assert_eq!(shown[5].language, Some(Language::Nim));
    assert_eq!(shown[6].language, None);
    assert_eq!(shown[6].lines, 30);
}

#[test]
fn six_languages_are_kept_as_they_are() {
    let input = counts(&[(Language::Rust, 6), (Language::Go, 5), (Language::C, 4), (Language::Java, 3), (Language::Lua, 2), (Language::Nim, 1)]);
    let shown = bucket_languages(&input);
    assert_eq!(shown.len(), 6);
    assert!(shown.iter().all(|s| s.language.is_some()));
}

#[test]
fn history_lines_become_records() {
    let recs = parse_history(&lines(&["2 days ago\tAlice", "no tab here", "3 weeks ago\tBob\textra"]));
    assert_eq!(recs.len(), 2);
    assert_eq!(recs[0].time, "2 days ago");
    assert_eq!(recs[0].author, "Alice");
    assert_eq!(recs[1].author, "Bob");
    assert!(parse_history_line("nothing").is_none());
    assert_eq!(get_creation_date(&recs), "3 weeks ago");
    assert_eq!(get_number_of_commits(&recs), "2");
}

#[test]
fn empty_history_has_unknown_creation_date() {
    let recs = parse_history(&Vec::new());
    assert_eq!(get_creation_date(&recs), "??");
    assert_eq!(get_number_of_commits(&recs), "0");
}

#[test]
fn author_counts_cover_every_commit() {
    let recs = parse_history(&lines(&[
        "1 day ago\tAlice",
        "2 days ago\tBob",
        "3 days ago\tAlice",
        "4 days ago\tCarol",
        "5 days ago\t'Bob'",
        "6 days ago\tAlice",
    ]));
    let authors = get_authors(&recs, 10);
    assert_eq!(authors.len(), 3);
    let sum: usize = authors.iter().map(|a| a.commits).sum();
    assert_eq!(sum, recs.len());
    assert_eq!(authors[0].name, "Alice");
    assert_eq!(authors[0].commits, 3);
    assert_eq!(authors[0].percent, 50);
    assert_eq!(authors[1].name, "Bob");
    assert_eq!(authors[1].commits, 2);
    assert_eq!(authors[1].percent, 33);
    assert_eq!(authors[2].name, "Carol");
    assert_eq!(authors[2].percent, 16);
}

#[test]
fn author_list_is_truncated_to_n() {
    let recs = parse_history(&lines(&["a\tX", "b\tY", "c\tY", "d\tZ"]));
    let authors = get_authors(&recs, 2);
    assert_eq!(authors.len(), 2);
    assert_eq!(authors[0].name, "Y");
    assert_eq!(authors[1].name, "X");
    assert!(get_authors(&recs, 0).is_empty());
    assert!(get_authors(&Vec::new(), 3).is_empty());
}
