use maple_filter::cache::{Cache, Signature};
use maple_filter::command::{
    check_exit, count_newlines, exec_output, join_args, split_lines, trim_trailing, truncate_stdout,
};
use maple_filter::truncate::truncate_lines;

fn owned(v: &[&str]) -> Vec<String> {
    v.iter().map(|s| s.to_string()).collect()
}

#[test]
fn failed_command_with_stderr_is_error() {
    let r = check_exit(false, &b"no such option".to_vec());
    match r {
        Err(e) => assert_eq!(e.message, "no such option"),
        Ok(()) => panic!("expected an error"),
    }
}

#[test]
fn silent_failure_is_no_error() {
    assert!(check_exit(false, &Vec::new()).is_ok());
    assert!(check_exit(true, &b"warning".to_vec()).is_ok());
}

#[test]
fn newline_count() {
    assert_eq!(count_newlines(&b"a\nb\nc\n".to_vec()), 3);
    assert_eq!(count_newlines(&Vec::new()), 0);
}

#[test]
fn split_keeps_trailing_piece() {
    assert_eq!(split_lines(&b"a\nb\n".to_vec()), owned(&["a", "b", ""]));
    assert_eq!(split_lines(&Vec::new()), owned(&[""]));
    assert_eq!(split_lines(&b"\xffx\ny".to_vec()), owned(&["\u{fffd}x", "y"]));
}

#[test]
fn trim_removes_only_empty_last() {
    let mut v = owned(&["a", ""]);
    trim_trailing(&mut v);
    assert_eq!(v, owned(&["a"]));
    let mut w = owned(&["a", "b"]);
    trim_trailing(&mut w);
    assert_eq!(w, owned(&["a", "b"]));
}

#[test]
fn truncate_stdout_takes_first_lines() {
    let out = b"one\ntwo\nthree\n".to_vec();
    assert_eq!(truncate_stdout(&out, 2), owned(&["one", "two"]));
    assert_eq!(truncate_stdout(&out, 10), owned(&["one", "two", "three"]));
}

#[test]
fn exec_output_spills_past_threshold() {
    let out = b"1\n2\n3\n".to_vec();
    let r = exec_output(&out, None, 2);
    assert_eq!(r.total, 3);
    assert!(r.spill);
    assert_eq!(r.lines, owned(&["1", "2", "3"]));
    assert!(!exec_output(&out, None, 0).spill);
    assert!(!exec_output(&out, None, 3).spill);
    let capped = exec_output(&out, Some(1), 1);
    assert_eq!(capped.total, 3);
    assert_eq!(capped.lines, owned(&["1"]));
    assert!(!capped.spill);
}

#[test]
fn join_args_with_underscores() {
    assert_eq!(join_args(&owned(&["rg", "--json", "x"])), "rg_--json_x");
    assert_eq!(join_args(&Vec::new()), "");
}

#[test]
fn width_ten_truncation_keeps_map() {
    let lines = owned(&["supercalifragilistic"]);
    let t = truncate_lines(&lines, &vec![vec![0]], 10, None);
    assert!(t.lines[0].chars().count() <= 10);
    assert_eq!(t.lines[0], "supercalif");
    assert_eq!(t.indices[0], vec![0]);
    assert_eq!(t.truncated_map, vec![(0, "supercalifragilistic".to_string())]);
}

#[test]
fn short_lines_untouched() {
    let lines = owned(&["short", "tiny"]);
    let t = truncate_lines(&lines, &vec![vec![1], vec![0, 3]], 10, None);
    assert_eq!(t.lines, lines);
    assert_eq!(t.indices, vec![vec![1], vec![0, 3]]);
    assert!(t.truncated_map.is_empty());
}

#[test]
fn truncation_window_follows_last_match() {
    let lines = owned(&["abcdefghijklmnop"]);
    let t = truncate_lines(&lines, &vec![vec![2, 12]], 7, Some(2));
    assert_eq!(t.lines[0], "ijklm");
    assert_eq!(t.indices[0], vec![4]);
    assert_eq!(t.truncated_map.len(), 1);
}

#[test]
fn cache_round_trip() {
    let mut cache = Cache::new();
    let sig = Signature { args: owned(&["rg", "x"]), dir: "/tmp".to_string() };
    let (path, total) = cache.store(sig, "/tmp/out".to_string(), &b"a\nb\n".to_vec());
    assert_eq!(path, "/tmp/out");
    assert_eq!(total, 2);
    let again = Signature { args: owned(&["rg", "x"]), dir: "/tmp".to_string() };
    assert_eq!(cache.lookup(&again), Some(("/tmp/out".to_string(), 2)));
    let other = Signature { args: owned(&["rg", "x"]), dir: "/home".to_string() };
    assert_eq!(cache.lookup(&other), None);
    let (_, t2) = cache.store(again, "/tmp/new".to_string(), &b"z\n".to_vec());
    assert_eq!(t2, 1);
    let third = Signature { args: owned(&["rg", "x"]), dir: "/tmp".to_string() };
    assert_eq!(cache.lookup(&third), Some(("/tmp/new".to_string(), 1)));
}

#[test]
fn empty_output_gives_no_lines() {
    assert!(truncate_stdout(&Vec::new(), 3).is_empty());
    assert!(exec_output(&Vec::new(), None, 0).lines.is_empty());
    assert_eq!(exec_output(&Vec::new(), None, 0).total, 0);
}

#[test]
fn spill_needs_threshold_and_excess() {
    assert!(maple_filter::command::spill(5, 4));
    assert!(!maple_filter::command::spill(4, 4));
    assert!(!maple_filter::command::spill(5, 0));
}

#[test]
fn record_then_lookup() {
    let mut cache = Cache::new();
    cache.record(Signature { args: owned(&["rg"]), dir: "/a".to_string() }, "/f".to_string(), 12);
    let sig = Signature { args: owned(&["rg"]), dir: "/a".to_string() };
    assert_eq!(cache.lookup(&sig), Some(("/f".to_string(), 12)));
}
