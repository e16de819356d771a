use maple_filter::filter::{filter_lines, run_filter, sync_run, take_top};
use maple_filter::matcher::{match_line, text_start, Algo, Bonus, MatchType};
use maple_filter::rank::rank;

fn owned(v: &[&str]) -> Vec<String> {
    v.iter().map(|s| s.to_string()).collect()
}

#[test]
fn fb_query_drops_bar() {
    let out = sync_run("fb", owned(&["foobar", "fizzbuzz", "bar"]), Algo::Skim);
    let lines: Vec<&str> = out.iter().map(|r| r.0.as_str()).collect();
    assert_eq!(out.len(), 2);
    assert!(lines.contains(&"foobar"));
    assert!(lines.contains(&"fizzbuzz"));
    assert!(!lines.contains(&"bar"));
    assert!(out[0].1 >= out[1].1);
}

#[test]
fn rank_is_stable_best_first() {
    let lines = owned(&["a", "b", "c", "d", "e"]);
    let scored = vec![
        Some((3, vec![0])),
        None,
        Some((5, vec![1])),
        Some((3, vec![2])),
        Some((5, vec![3])),
    ];
    let out = rank(lines, scored);
    let order: Vec<(&str, i64)> = out.iter().map(|r| (r.0.as_str(), r.1)).collect();
    assert_eq!(order, vec![("c", 5), ("e", 5), ("a", 3), ("d", 3)]);
    assert_eq!(out[0].2, vec![1]);
}

#[test]
fn rank_of_nothing_matched_is_empty() {
    let out = rank(owned(&["x", "y"]), vec![None, None]);
    assert!(out.is_empty());
}

#[test]
fn total_ignores_cap() {
    let out = run_filter("a", owned(&["abc", "xyz", "bca", "cab"]), Algo::Skim, Some(1));
    assert_eq!(out.total, 3);
    assert_eq!(out.lines.len(), 1);
    assert_eq!(out.indices.len(), 1);
}

#[test]
fn take_top_without_cap_keeps_all() {
    let ranked = vec![
        ("a".to_string(), 9, vec![0]),
        ("b".to_string(), 4, vec![1, 2]),
    ];
    let out = take_top(ranked, None);
    assert_eq!(out.total, 2);
    assert_eq!(out.lines, owned(&["a", "b"]));
    assert_eq!(out.indices, vec![vec![0], vec![1, 2]]);
}

#[test]
fn empty_query_matches_everything_with_zero() {
    let m = match_line("", "anything", Algo::Skim, MatchType::Full, &vec![Bonus::Neutral]);
    assert_eq!(m, Some((0, vec![])));
}

#[test]
fn grep_line_text_start() {
    assert_eq!(text_start("src/lib.rs:12:5:fn main"), 16);
    assert_eq!(text_start("no colons here"), 0);
    assert_eq!(text_start("a:b"), 0);
}

#[test]
fn ignore_file_path_offsets_indices() {
    let line = "src/lib.rs:1:1:xyz";
    let m = match_line("xyz", line, Algo::Skim, MatchType::IgnoreFilePath, &vec![Bonus::Neutral]);
    let (_, idx) = m.expect("matches");
    assert_eq!(idx, vec![15, 16, 17]);
    let none = match_line("src", line, Algo::Skim, MatchType::IgnoreFilePath, &vec![]);
    assert_eq!(none, None);
}

#[test]
fn file_name_bonus_counts_matches_after_slash() {
    let plain = match_line("ab", "x/ab", Algo::Skim, MatchType::Full, &vec![Bonus::Neutral]).unwrap();
    let boosted = match_line("ab", "x/ab", Algo::Skim, MatchType::Full, &vec![Bonus::FileName]).unwrap();
    assert_eq!(boosted.0, plain.0 + 2);
    assert_eq!(boosted.1, plain.1);
}

#[test]
fn filter_lines_sorted_descending() {
    let out = filter_lines(
        "ab",
        owned(&["xaxb", "ab", "a_b", "zzz"]),
        Algo::Skim,
        MatchType::Full,
        &vec![Bonus::Neutral],
    );
    assert_eq!(out.len(), 3);
    for w in out.windows(2) {
        assert!(w[0].1 >= w[1].1);
    }
}
