use tengin::frontmatter::parse_frontmatter;
use tengin::harness::{
    assemble_harness, choose_harness, collect_test_files, evaluate, harness_missing, harness_names, is_excluded,
    modes, parse_excludelist, probe, run_files, select_files, summarize, take_shard, test_body,
    unreadable, Entry, Probe, Seen, Status, TestOutcome,
};

fn outcome(strict: bool, status: Status) -> TestOutcome {
    TestOutcome { path: String::new(), strict, status, detail: String::new() }
}

fn seen() -> Seen {
    Seen { error: None, done: false, done_error: None, unhandled: 0, first_unhandled: String::new() }
}

#[test]
fn frontmatter_parses_flags_in_block_and_inline_form() {
    let meta = parse_frontmatter("/*---\nflags: [onlyStrict, module]\n---*/\n0;");
    assert!(meta.only_strict);
    assert!(meta.module);
    assert!(!meta.no_strict);

    let meta = parse_frontmatter("/*---\nflags:\n  - noStrict\n  - raw\n---*/\n0;");
    assert!(meta.no_strict);
    assert!(meta.raw);
}

#[test]
fn frontmatter_parses_includes_and_negative() {
    let meta = parse_frontmatter(
        "/*---\nincludes: [compareArray.js]\nnegative:\n  phase: runtime\n  type: RangeError\n---*/\n0;",
    );
    assert_eq!(meta.includes, vec!["compareArray.js".to_string()]);
    assert_eq!(meta.negative_phase.as_deref(), Some("runtime"));
    assert_eq!(meta.negative_type.as_deref(), Some("RangeError"));
}

#[test]
fn frontmatter_without_block_is_default() {
    let meta = parse_frontmatter("// no frontmatter here");
    assert!(meta.includes.is_empty());
    assert_eq!(meta.negative_phase, None);
    assert!(!meta.raw);
    assert!(!meta.module);
    assert!(!meta.only_strict);
    assert!(!meta.no_strict);
}

#[test]
fn frontmatter_ignores_scalars_and_strips_quotes() {
    let meta = parse_frontmatter(
        "/*---\r\ndescription: |\r\n  flags: [raw]\r\nincludes: [\"a.js\", 'b.js', ]\r\nfeatures:\r\n  - Symbol\r\n---*/",
    );
    assert!(meta.raw);
    assert_eq!(meta.includes, vec!["a.js".to_string(), "b.js".to_string()]);
    assert_eq!(meta.features, vec!["Symbol".to_string()]);
}

#[test]
fn frontmatter_keys_end_the_negative_section() {
    let meta = parse_frontmatter("/*---\nnegative:\n  phase: parse\n  type: SyntaxError\nflags:\n  - raw\nincludes:\n  - a.js\n---*/");
    assert_eq!(meta.negative_phase.as_deref(), Some("parse"));
    assert_eq!(meta.negative_type.as_deref(), Some("SyntaxError"));
    assert!(meta.raw);
    assert_eq!(meta.includes, vec!["a.js".to_string()]);
}

#[test]
fn the_nearest_whole_harness_counts() {
    let near = vec![(true, false), (false, true), (true, true), (true, true)];
    assert_eq!(choose_harness(&near, true), Some(2));
    assert_eq!(choose_harness(&near[..2].to_vec(), true), Some(2));
    assert_eq!(choose_harness(&near[..2].to_vec(), false), None);
    assert_eq!(choose_harness(&Vec::new(), true), Some(0));
}

#[test]
fn excludelist_parsing_and_matching() {
    let excludes = parse_excludelist(
        "<excludeList>\n<test id=\"test/built-ins/Math/abs\"><![CDATA[x]]></test>\n<test id=\"test/foo/bar\"/>\n</excludeList>",
    );
    assert_eq!(excludes.len(), 2);
    assert!(excludes.contains(&"test/built-ins/Math/abs".to_string()));
    assert!(excludes.contains(&"test/foo/bar".to_string()));

    assert!(is_excluded("vendor/test262/test/built-ins/Math/abs/x.js", &excludes));
    assert!(!is_excluded("test/built-ins/JSON/stringify.js", &excludes));
}

#[test]
fn missing_excludelist_is_empty() {
    assert!(parse_excludelist("").is_empty());
}

#[test]
fn summarize_counts_outcomes() {
    let outcomes = vec![
        outcome(false, Status::Pass),
        outcome(true, Status::Fail),
        outcome(false, Status::Skip),
        outcome(false, Status::Pass),
    ];
    assert_eq!(summarize(&outcomes), (2, 1, 1));
    assert_eq!(summarize(&[]), (0, 0, 0));
    assert!(outcomes[0].status.is_pass());
    assert!(!outcomes[1].status.is_pass());
}

#[test]
fn collect_test_files_finds_js_recursively() {
    let file = |name: &str, path: &str| Entry::File { name: name.to_string(), path: path.to_string() };
    let tree = vec![
        file("top.js", "root/top.js"),
        Entry::Dir(vec![Entry::Dir(vec![file("deep.js", "root/a/b/deep.js")])]),
        file("readme.txt", "root/readme.txt"),
        file(".js", "root/.js"),
    ];
    assert_eq!(collect_test_files(&tree), vec!["root/top.js".to_string(), "root/a/b/deep.js".to_string()]);
}

#[test]
fn missing_test_file_reports_failure_not_panic() {
    let outcomes = run_files(&vec!["/nonexistent/tengin-test-case.js".to_string()], |p| vec![unreadable(p, "gone")]);
    assert_eq!(outcomes.len(), 1);
    assert_eq!(outcomes[0].status, Status::Fail);
    assert_eq!(outcomes[0].detail, "cannot read file: gone");
}

#[test]
fn modes_and_harness_files() {
    let plain = parse_frontmatter("");
    assert_eq!(modes(&plain), vec![false, true]);
    let strict = parse_frontmatter("/*---\nflags: [onlyStrict]\nincludes: [x.js]\n---*/");
    assert_eq!(modes(&strict), vec![true]);
    assert_eq!(harness_names(&strict), vec!["assert.js".to_string(), "sta.js".to_string(), "x.js".to_string()]);
    let raw = parse_frontmatter("/*---\nflags: [raw]\n---*/");
    assert_eq!(modes(&raw), vec![false]);
    assert!(harness_names(&raw).is_empty());
    let names = harness_names(&strict);
    let whole = assemble_harness("t", &names, &vec![Some("a".to_string()), Some("b".to_string()), Some("c".to_string())]);
    assert_eq!(whole.unwrap(), "abc");
    let bad = assemble_harness("t", &names, &vec![Some("a".to_string()), None, None]);
    assert_eq!(bad.unwrap_err().detail, "harness file 'sta.js' not found");
    assert_eq!(harness_missing("t", "q.js").detail, "harness file 'q.js' not found");
    assert_eq!(test_body("x", true), "\"use strict\";\nx");
    assert_eq!(test_body("x", false), "x");
}

#[test]
fn verdicts() {
    let plain = parse_frontmatter("");
    assert_eq!(probe(&plain), Probe::Evaluate);
    assert_eq!(evaluate(&plain, &seen()).0, Status::Pass);
    let failed = Seen { error: Some("boom".to_string()), ..seen() };
    assert_eq!(evaluate(&plain, &failed), (Status::Fail, "boom".to_string()));
    let parse = parse_frontmatter("/*---\nnegative:\n  phase: parse\n  type: SyntaxError\n---*/");
    assert_eq!(probe(&parse), Probe::Parse);
    assert_eq!(evaluate(&parse, &failed).0, Status::Pass);
    assert_eq!(evaluate(&parse, &seen()).1, "expected a parse error");
    let early = parse_frontmatter("/*---\nnegative:\n  phase: early\n---*/");
    assert_eq!(probe(&early), Probe::Nothing);
    assert_eq!(evaluate(&early, &seen()).0, Status::Skip);
    let asynchronous = parse_frontmatter("/*---\nflags: [async]\n---*/");
    assert_eq!(evaluate(&asynchronous, &seen()).1, "async test did not call $DONE");
    let done = Seen { done: true, unhandled: 2, first_unhandled: "E".to_string(), ..seen() };
    assert_eq!(evaluate(&asynchronous, &done).1, "unhandled rejection (2): E");
    let err = Seen { done: true, done_error: Some("bad".to_string()), ..seen() };
    assert_eq!(evaluate(&asynchronous, &err).1, "$DONE called with error: bad");
}

#[test]
fn selection_and_shards() {
    let files: Vec<String> = ["a/x.js", "a/y.js", "b/x.js", "b/z.js"].iter().map(|s| s.to_string()).collect();
    let picked = select_files(&files, &vec!["b/z".to_string()], &vec!["x".to_string(), "z".to_string()]);
    assert_eq!(picked, vec!["a/x.js".to_string(), "b/x.js".to_string()]);
    assert_eq!(select_files(&files, &vec![], &vec![]).len(), 4);
    assert_eq!(take_shard(&files, 1, 3), vec!["a/y.js".to_string()]);
    let total: usize = (0..3).map(|i| take_shard(&files, i, 3).len()).sum();
    assert_eq!(total, files.len());
}
