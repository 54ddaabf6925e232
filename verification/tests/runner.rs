use tengin::harness::Status;
use tengin::runner::{abnormal_exit_detail, decode_exit, exit_code, parse_args, parse_jobs, parse_shard_spec};

fn args(list: &[&str]) -> Vec<String> {
    list.iter().map(|s| s.to_string()).collect()
}

#[test]
fn shard_and_jobs() {
    assert_eq!(parse_shard_spec("3/16"), Some((3, 16)));
    assert_eq!(parse_shard_spec("16/16"), None);
    assert_eq!(parse_shard_spec("0/0"), None);
    assert_eq!(parse_shard_spec("3"), None);
    assert_eq!(parse_jobs("4"), Some(4));
    assert_eq!(parse_jobs("0"), None);
    assert_eq!(parse_jobs("x"), None);
}

#[test]
fn command_line() {
    let o = match parse_args(&args(&["-v", "--jobs", "3", "--shard=1/2", "foo", "--test262=x", "--timeout", "9", "-"])) {
        Ok(o) => o,
        Err(e) => panic!("{}", e),
    };
    assert!(o.verbose);
    assert_eq!(o.jobs, 3);
    assert_eq!(o.shard, Some((1, 2)));
    assert_eq!(o.root, "x");
    assert_eq!(o.timeout_secs, 9);
    assert_eq!(o.filters, args(&["foo", "-"]));
    let complaints = [
        (vec!["--jobs"], "--jobs requires a positive integer"),
        (vec!["--test262"], "--test262 requires a path"),
        (vec!["--timeout"], "--timeout requires a number of seconds"),
        (vec!["--shard"], "--shard requires N/M, for example 3/16"),
        (vec!["--timeout", "0"], "invalid --timeout value: 0"),
        (vec!["--jobs=0"], "invalid --jobs value: 0"),
        (vec!["--shard", "2/2"], "invalid --shard value: 2/2 (expected zero-based N/M with N < M)"),
        (vec!["--what"], "unknown option: --what"),
    ];
    for (list, text) in complaints.iter() {
        match parse_args(&args(list)) {
            Ok(_) => panic!("accepted {:?}", list),
            Err(e) => assert_eq!(&e, text),
        }
    }
}

#[test]
fn exit_codes_round_trip() {
    for p in 0..3 {
        for f in 0..3 {
            for s in 0..3 {
                if p + f + s <= 3 {
                    let out = decode_exit("t.js", exit_code(p, f, s) as i32).unwrap();
                    let count = |status: Status| out.iter().filter(|o| o.status == status).count() as u32;
                    assert_eq!((count(Status::Pass), count(Status::Fail), count(Status::Skip)), (p, f, s));
                }
            }
        }
    }
    assert!(decode_exit("t.js", 9).is_none());
    assert!(decode_exit("t.js", 38).is_none());
}

#[test]
fn abnormal_exits() {
    assert_eq!(abnormal_exit_detail(Some(11), None), "test runner crashed (SIGSEGV)");
    assert_eq!(abnormal_exit_detail(Some(6), None), "test runner aborted (SIGABRT)");
    assert_eq!(abnormal_exit_detail(Some(9), None), "test runner killed (SIGKILL; possible OOM)");
    assert_eq!(abnormal_exit_detail(Some(15), None), "test runner terminated by signal 15");
    assert_eq!(abnormal_exit_detail(None, Some(-3)), "test runner exited without a result (code -3)");
    assert_eq!(abnormal_exit_detail(None, None), "test runner exited without a result");
}
