use maple_filter::dynamic::{Action, DynRunner, Event};
use maple_filter::grep::{
    prepare_sync_grep_args, rg_args, sync_grep_output, DynSource, ForerunnerAction, Grep,
    GrepError, GrepPlan, Params, RipGrepForerunner,
};
use maple_filter::matcher::{Algo, Bonus, MatchType};

fn owned(v: &[&str]) -> Vec<String> {
    v.iter().map(|s| s.to_string()).collect()
}

fn params(no_cache: bool) -> Params {
    Params { number: Some(5), winwidth: None, enable_icon: false, no_cache }
}

fn grep(sync: bool, cmd: Option<&str>, dir: Option<&str>, input: Option<&str>) -> Grep {
    Grep {
        grep_query: "foo".to_string(),
        grep_cmd: cmd.map(|s| s.to_string()),
        glob: None,
        cmd_dir: dir.map(|s| s.to_string()),
        input: input.map(|s| s.to_string()),
        sync,
    }
}

#[test]
fn sync_args_strip_quotes_and_add_json() {
    let args = prepare_sync_grep_args("rg \"--vimgrep\" -i \"\"", "fn ul", &Some("*.rs".to_string()));
    assert_eq!(args, owned(&["rg", "--vimgrep", "-i", "\"\"", "--json", "fn ul", "-g", "*.rs"]));
}

#[test]
fn sync_without_cmd_is_config_error() {
    let r = grep(true, None, None, None).run(&params(false), None);
    assert!(matches!(r, Err(GrepError::MissingGrepCmd)));
}

#[test]
fn sync_plan_runs_command() {
    let r = grep(true, Some("rg --column"), Some("/src"), None).run(&params(false), None);
    match r {
        Ok(GrepPlan::Sync { args, dir }) => {
            assert_eq!(args, owned(&["rg", "--column", "--json", "foo"]));
            assert_eq!(dir, Some("/src".to_string()));
        }
        _ => panic!("expected a sync plan"),
    }
}

#[test]
fn dyn_plan_prefers_input_then_cache() {
    let g = grep(false, None, Some("/src"), Some("/tmp/in"));
    assert!(matches!(g.run(&params(false), Some("/c".to_string())),
        Ok(GrepPlan::Dyn { source: DynSource::File(ref f), .. }) if f == "/tmp/in"));
    let g = grep(false, None, Some("/src"), None);
    assert_eq!(g.cache_dir(&params(false)), Some("/src".to_string()));
    assert_eq!(g.cache_dir(&params(true)), None);
    assert!(matches!(g.run(&params(false), Some("/c".to_string())),
        Ok(GrepPlan::Dyn { source: DynSource::File(ref f), .. }) if f == "/c"));
    match g.run(&params(true), Some("/c".to_string())) {
        Ok(GrepPlan::Dyn { source: DynSource::Command { cmd, dir }, query, match_type, bonuses, number, winwidth, enable_icon }) => {
            assert_eq!(match_type, MatchType::IgnoreFilePath);
            assert_eq!(bonuses, vec![Bonus::Neutral]);
            assert_eq!(number, Some(5));
            assert_eq!(winwidth, None);
            assert!(!enable_icon);
            assert!(cmd.starts_with("rg --column"));
            assert_eq!(dir, Some("/src".to_string()));
            assert_eq!(query, "foo");
        }
        _ => panic!("expected a command source"),
    }
}

#[test]
fn forerunner_decisions() {
    let f = RipGrepForerunner { cmd_dir: Some("/src".to_string()), output_threshold: 30000 };
    assert!(matches!(f.run(&params(false), Some(("/c".to_string(), 7)), Some(true)),
        ForerunnerAction::FromCache { total: 7, .. }));
    let f = RipGrepForerunner { cmd_dir: Some("/src".to_string()), output_threshold: 30000 };
    assert!(matches!(f.run(&params(true), Some(("/c".to_string(), 7)), Some(false)),
        ForerunnerAction::Skip));
    let f = RipGrepForerunner { cmd_dir: None, output_threshold: 30000 };
    match f.run(&params(false), None, None) {
        ForerunnerAction::Run { args, dir, number, threshold } => {
            assert_eq!(args, rg_args());
            assert_eq!(args.len(), 7);
            assert_eq!(dir, None);
            assert_eq!(number, Some(5));
            assert_eq!(threshold, 30000);
        }
        _ => panic!("expected a run"),
    }
}

#[test]
fn sync_grep_output_default_width() {
    let long = "x".repeat(100);
    let out = sync_grep_output(&vec![long.clone(), "short".to_string()], &vec![vec![0], vec![]], None, true);
    assert_eq!(out.total, 2);
    assert_eq!(out.truncated.lines[0].len(), 78);
    assert_eq!(out.truncated.truncated_map, vec![(0, long)]);
}

fn runner(cap: Option<usize>, batch: usize) -> DynRunner {
    DynRunner::new("ab".to_string(), Algo::Skim, MatchType::Full, vec![Bonus::Neutral], cap, batch, true)
}

#[test]
fn dynamic_snapshots_are_monotone() {
    let mut r = runner(Some(2), 2);
    let mut last_total = 0;
    let mut last_scores: Vec<i64> = vec![];
    for line in ["xxaxxb", "zzz", "ab", "a_b", "ab_ab", "nothing"] {
        let _ = r.step(Event::Line(line.to_string()));
        assert!(r.total >= last_total);
        let scores: Vec<i64> = r.top.iter().map(|e| e.1).collect();
        assert!(scores.len() >= last_scores.len());
        for (k, s) in last_scores.iter().enumerate() {
            assert!(scores[k] >= *s);
        }
        assert!(scores.len() <= 2);
        last_total = r.total;
        last_scores = scores;
    }
    assert_eq!(r.total, 4);
    assert_eq!(r.seen, 6);
}

#[test]
fn dynamic_emits_every_batch_and_finishes() {
    let mut r = runner(None, 2);
    assert!(matches!(r.step(Event::Line("ab".to_string())), Action::Continue));
    match r.step(Event::Line("b".to_string())) {
        Action::Emit(s) => {
            assert_eq!(s.total, 1);
            assert_eq!(s.lines, owned(&["ab"]));
            assert_eq!(s.indices, vec![vec![0, 1]]);
        }
        _ => panic!("expected a snapshot"),
    }
    match r.step(Event::End) {
        Action::Finish { snapshot, write_cache } => {
            assert!(write_cache);
            assert_eq!(snapshot.total, 1);
        }
        _ => panic!("expected the final snapshot"),
    }
    assert!(matches!(r.step(Event::Line("ab".to_string())), Action::Ignore));
}

#[test]
fn cancel_stops_and_silences() {
    let mut r = runner(Some(3), 1);
    let _ = r.step(Event::Line("ab".to_string()));
    assert!(matches!(r.step(Event::Cancel), Action::Terminate));
    assert!(matches!(r.step(Event::Line("ab".to_string())), Action::Ignore));
    assert!(matches!(r.step(Event::End), Action::Ignore));
    assert_eq!(r.total, 1);
}

#[test]
fn grep_line_layout_and_positions() {
    let (line, idx) = maple_filter::grep::build_grep_line("src/a.rs", 12, "let fooé = 1;", 4, 7);
    assert_eq!(line, "src/a.rs:12:5:let fooé = 1;");
    assert_eq!(idx, vec![18, 19, 20]);
    let (line, idx) = maple_filter::grep::build_grep_line("p", 0, "", 0, 0);
    assert_eq!(line, "p:0:1:");
    assert!(idx.is_empty());
}

#[test]
fn run_dispatches_on_sync_flag() {
    let g = grep(true, Some("rg"), None, None);
    assert!(matches!(g.sync_run(), Ok(GrepPlan::Sync { .. })));
    assert!(matches!(g.run(&params(false), None), Ok(GrepPlan::Sync { .. })));
    let d = grep(false, None, None, None);
    match d.dyn_run(&params(false), None) {
        GrepPlan::Dyn { source: DynSource::Command { dir, .. }, .. } => assert_eq!(dir, None),
        _ => panic!("expected rg where it stands"),
    }
}

#[test]
fn grep_and_args_appends_query() {
    assert_eq!(maple_filter::grep::prepare_grep_and_args("rg  -n\t--x", "q r"), owned(&["rg", "-n", "--x", "q r"]));
}

#[test]
fn snapshot_output_keeps_total_and_bounds_width() {
    let snap = maple_filter::filter::FilterOutput {
        total: 9,
        lines: owned(&["abcdefghij", "ab"]),
        indices: vec![vec![9], vec![0]],
    };
    let out = maple_filter::grep::snapshot_output(&snap, Some(6), true);
    assert_eq!(out.total, 9);
    assert_eq!(out.truncated.lines, owned(&["ghij", "ab"]));
    assert_eq!(out.truncated.indices, vec![vec![3], vec![0]]);
    assert_eq!(out.truncated.truncated_map, vec![(0, "abcdefghij".to_string())]);
}

#[test]
fn capped_snapshots_stay_within_cap() {
    let mut r = runner(Some(1), 1);
    for line in ["ab", "aab", "xaxb"] {
        match r.step(Event::Line(line.to_string())) {
            Action::Emit(s) => {
                assert!(s.lines.len() <= 1);
                assert_eq!(s.lines.len(), s.indices.len());
            }
            _ => panic!("batch of one emits every line"),
        }
    }
    assert_eq!(r.total, 3);
}
