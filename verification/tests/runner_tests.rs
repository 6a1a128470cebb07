use agile_inc::runner::{finish_run, parse_numstat, truncate, RunnerError};
use agile_inc::types::OutputLimits;

#[test]
fn runner_error_messages() {
    assert_eq!(RunnerError::Execution("boom".to_string()).message(), "execution error: boom");
    assert_eq!(RunnerError::Timeout(30).message(), "timeout after 30 seconds");
    let io = RunnerError::Io(std::io::Error::new(std::io::ErrorKind::Other, "disk gone"));
    assert_eq!(io.message(), "io error: disk gone");
}

#[test]
fn short_output_is_kept() {
    assert_eq!(truncate("hello", 1), "hello");
    let exact = "a".repeat(1024);
    assert_eq!(truncate(&exact, 1), exact);
}

#[test]
fn long_output_is_cut_with_a_notice() {
    let long = "b".repeat(1500);
    let t = truncate(&long, 1);
    assert_eq!(t, format!("{}\n\n[Output truncated to 1KB]", "b".repeat(1024)));
    assert_eq!(truncate("xyz", 0), "\n\n[Output truncated to 0KB]");
}

#[test]
fn finished_runs_cap_both_streams() {
    let limits = OutputLimits::new(1);
    let r = finish_run(Some(3), &"o".repeat(2000), "err", 42, &limits);
    assert_eq!(r.exit_code, 3);
    assert!(r.stdout.ends_with("[Output truncated to 1KB]"));
    assert_eq!(r.stdout.len(), 1024 + "\n\n[Output truncated to 1KB]".len());
    assert_eq!(r.stderr, "err");
    assert_eq!(r.duration_ms, 42);
    assert!(r.artifacts.is_empty());
    let killed = finish_run(None, "", "", 0, &limits);
    assert_eq!(killed.exit_code, -1);
}

#[test]
fn numstat_sums_changed_paths() {
    let out = "3\t1\tsrc/a.rs\n0\t0\tsrc/unchanged.rs\n-\t-\timg.png\n10\t2\tsrc/b.rs\n";
    let d = parse_numstat(out).unwrap();
    assert_eq!(d.files_changed, 2);
    assert_eq!(d.insertions, 13);
    assert_eq!(d.deletions, 3);
    assert_eq!(d.files, vec!["src/a.rs".to_string(), "src/b.rs".to_string()]);
}

#[test]
fn numstat_edge_cases() {
    let empty = parse_numstat("").unwrap();
    assert_eq!((empty.files_changed, empty.insertions, empty.deletions), (0, 0, 0));
    // short lines and summary lines are ignored; CRLF endings are accepted
    let d = parse_numstat(" 1 file changed\r\n5\t0\tREADME.md\r\nonly\ttwo\n7\t7\tlast").unwrap();
    assert_eq!(d.files, vec!["README.md".to_string(), "last".to_string()]);
    assert_eq!((d.insertions, d.deletions), (12, 7));
    // a total that does not fit 32 bits is refused
    assert!(parse_numstat("4294967295\t0\ta\n1\t0\tb\n").is_none());
}
