use owo_colors::OwoColorize;
use momo::test::file::{is_ignored_dir, is_test_file_name, matches_filter};
use momo::test::found_line;
use momo::test::parse::{describe_utf8_error, parse_loaded, parse_verdict, WorkerContext};
use momo::test::reporter::{ConsoleReporter, PathLabel};
use momo::test::types::{TestFailure, TestReport};
use std::path::PathBuf;

#[test]
fn ignored_directories() {
    for name in ["node_modules", ".git", "dist", "coverage", "target"] {
        assert!(is_ignored_dir(name.as_bytes()));
    }
    for name in ["src", "node_module", "dist2", ".github", ""] {
        assert!(!is_ignored_dir(name.as_bytes()));
    }
}

#[test]
fn test_file_names() {
    for name in [
        "login.test.js",
        "login.test.ts",
        "a.test.jsx",
        "a.test.tsx",
        "user.spec.js",
        "user.spec.ts",
        "b.spec.jsx",
        "b.spec.tsx",
        "util_test.js",
        "util_test.ts",
        "c_test.jsx",
        "c_test.tsx",
        ".test.js",
    ] {
        assert!(is_test_file_name(name.as_bytes()), "{name}");
    }
    for name in ["login.ts", "test.js", "a.test.mjs", "a.tests.js", "a.test.js.map", "test_a.js"] {
        assert!(!is_test_file_name(name.as_bytes()), "{name}");
    }
}

#[test]
fn filter_matches_substrings_of_the_path() {
    assert!(matches_filter("./src/utils/login.test.ts", None));
    assert!(matches_filter("./src/utils/login.test.ts", Some("login")));
    assert!(matches_filter("./src/controllers/user.test.ts", Some("controllers")));
    assert!(matches_filter("./src/a.test.ts", Some("")));
    assert!(!matches_filter("./src/utils/login.test.ts", Some("logout")));
    assert!(!matches_filter("ab", Some("abc")));
}

#[test]
fn parse_verdicts() {
    assert_eq!(parse_verdict(false, 0), Ok(()));
    assert_eq!(parse_verdict(true, 3), Err("Parser panicked".to_string()));
    assert_eq!(parse_verdict(false, 1), Err("1 syntax errors encountered".to_string()));
    assert_eq!(parse_verdict(false, 12), Err("12 syntax errors encountered".to_string()));
}

fn check(path: &str, source: &[u8]) -> Result<(), String> {
    let mut ctx = WorkerContext::new();
    ctx.source.extend_from_slice(source);
    parse_loaded(Some(path), &ctx).map(|_| ())
}

#[test]
fn valid_sources_parse() {
    assert_eq!(check("a.test.js", b"const x = 1 + 2;\nexport default x;\n"), Ok(()));
    assert_eq!(check("b.test.ts", b"let n: number = 3;\n"), Ok(()));
    assert_eq!(check("c.test.tsx", b"const e = <div>hi</div>;\n"), Ok(()));
}

#[test]
fn syntax_errors_fail_the_file() {
    let r = check("a.test.js", b"const = ;");
    let m = r.unwrap_err();
    assert!(m.ends_with(" syntax errors encountered") || m == "Parser panicked", "{m}");
}

#[test]
fn bad_utf8_fails_the_file() {
    let m = check("a.test.js", &[0x66, 0xff, 0x66]).unwrap_err();
    assert!(m.starts_with("Invalid UTF-8: "), "{m}");
}

#[test]
fn unknown_extensions_fail_the_file() {
    assert_eq!(check("a.test.py", b"x = 1"), Err("Unknown source dialect".to_string()));
    assert_eq!(check("noextension", b"x"), Err("Unknown source dialect".to_string()));
    assert_eq!(check(".ts", b"x"), Err("Unknown source dialect".to_string()));
}

#[test]
fn a_name_that_is_not_text_has_no_dialect() {
    let mut ctx = WorkerContext::new();
    ctx.source.extend_from_slice(b"const x = 1;\n");
    assert_eq!(parse_loaded(None, &ctx).map(|_| ()), Err("Unknown source dialect".to_string()));
}

#[test]
fn each_dialect_extension_is_checked() {
    for ext in ["js", "mjs", "cjs", "jsx", "ts", "mts", "cts", "tsx"] {
        let name = format!("a.test.{ext}");
        assert_eq!(check(&name, b"const x = 1;\n"), Ok(()), "{name}");
    }
}

#[test]
fn a_file_checks_the_same_after_another() {
    let mut ctx = WorkerContext::new();
    ctx.source.extend_from_slice(b"const = ;");
    let first = parse_loaded(Some("a.test.js"), &ctx).map(|_| ()).unwrap_err();
    ctx.prepare_for_next_file();
    ctx.source.extend_from_slice(b"let y = 2;\n");
    assert_eq!(parse_loaded(Some("b.test.js"), &ctx).map(|_| ()), Ok(()));
    ctx.prepare_for_next_file();
    ctx.source.extend_from_slice(b"const = ;");
    assert_eq!(parse_loaded(Some("a.test.js"), &ctx).map(|_| ()).unwrap_err(), first);
}

#[test]
fn worker_buffers_are_emptied() {
    let mut ctx = WorkerContext::new();
    assert!(ctx.source.is_empty() && ctx.diagnostics.is_empty() && ctx.temp_paths.is_empty());
    ctx.source.extend_from_slice(b"abc");
    ctx.temp_paths.push(PathBuf::from("x"));
    ctx.prepare_for_next_file();
    assert!(ctx.source.is_empty() && ctx.diagnostics.is_empty() && ctx.temp_paths.is_empty());
    ctx.source = vec![0u8; 9 * 1024 * 1024];
    ctx.prepare_for_next_file();
    assert!(ctx.source.is_empty());
    assert!(ctx.source.capacity() < 9 * 1024 * 1024);
}

#[test]
fn tally_counts_passes() {
    let failures = vec![TestFailure { path: PathBuf::from("a.test.js"), error: "e".to_string() }];
    let r = TestReport::tally(4, failures);
    assert_eq!((r.total_files, r.total_failed, r.total_passed), (4, 1, 3));
    assert_eq!(r.failures.len(), 1);
}

#[test]
fn found_line_is_dimmed() {
    assert_eq!(found_line(3), "\x1b[90mFound 3 files. Testing them...\x1b[39m");
}

fn label(nonempty_parent: bool, display: &str, file_name: &str) -> PathLabel {
    PathLabel { nonempty_parent, display: display.to_string(), file_name: file_name.to_string() }
}

const BADGE: &str = "\x1b[1m\x1b[37;41m FAIL \x1b[0m\x1b[0m";

#[test]
fn failure_lines_show_path_and_error() {
    let lines = ConsoleReporter::failure_lines(&label(true, "./src/a.test.js", "a.test.js"), "boom");
    assert_eq!(lines, vec![
        format!("  {BADGE} \x1b[90m./src/a.test.js\x1b[39m"),
        "> \x1b[31mboom\x1b[39m".to_string(),
    ]);
    let lines = ConsoleReporter::failure_lines(&label(false, "a.test.js", "a.test.js"), "x");
    assert_eq!(lines[0], format!("  {BADGE} \x1b[1ma.test.js\x1b[0m"));
}

#[test]
fn summary_without_failures() {
    let report = TestReport::tally(2, vec![]);
    let lines = ConsoleReporter::summary_lines(&report, &vec![]);
    assert_eq!(lines, vec![
        "\x1b[37m\x1b[1mTest Suites:\x1b[0m\x1b[39m".to_string(),
        "  0 failed, \x1b[32m\x1b[1m2 passed\x1b[0m\x1b[39m, 2 total".to_string(),
        "\x1b[90mRan all test suites.\n\x1b[39m".to_string(),
    ]);
}

#[test]
fn summary_lists_five_failures_and_counts_the_rest() {
    let failures: Vec<TestFailure> = (0..7)
        .map(|i| TestFailure { path: PathBuf::from(format!("./t{i}.test.js")), error: format!("e{i}") })
        .collect();
    let labels: Vec<PathLabel> =
        (0..7).map(|i| label(true, &format!("./t{i}.test.js"), &format!("t{i}.test.js"))).collect();
    let report = TestReport::tally(9, failures);
    let lines = ConsoleReporter::summary_lines(&report, &labels);
    assert_eq!(lines.len(), 1 + 10 + 1 + 1 + 3);
    assert_eq!(lines[0], "\x1b[31m\x1b[1mFAILURES\x1b[0m\x1b[39m");
    assert_eq!(lines[1], format!("  {BADGE} \x1b[90m./t0.test.js\x1b[39m"));
    assert_eq!(lines[10], "> \x1b[31me4\x1b[39m");
    assert_eq!(lines[11], "\x1b[90m  ... and 2 more errors.\x1b[39m");
    assert_eq!(lines[12], "");
    assert_eq!(lines[14], "  \x1b[31m\x1b[1m7 failed\x1b[0m\x1b[39m, \x1b[32m\x1b[1m2 passed\x1b[0m\x1b[39m, 9 total");
}

#[test]
fn summary_with_few_failures_has_no_count_line() {
    let failures = vec![TestFailure { path: PathBuf::from("x.test.ts"), error: "bad".to_string() }];
    let report = TestReport::tally(1, failures);
    let lines = ConsoleReporter::summary_lines(&report, &vec![label(false, "x.test.ts", "x.test.ts")]);
    assert_eq!(lines.len(), 1 + 2 + 1 + 3);
    assert_eq!(lines[3], "");
    assert_eq!(lines[5], "  \x1b[31m\x1b[1m1 failed\x1b[0m\x1b[39m, \x1b[32m\x1b[1m0 passed\x1b[0m\x1b[39m, 1 total");
}

fn std_utf8_text(bytes: &[u8]) -> String {
    std::str::from_utf8(bytes).unwrap_err().to_string()
}

#[test]
fn utf8_errors_are_described_as_std_does() {
    assert_eq!(describe_utf8_error(1, Some(1)), "invalid utf-8 sequence of 1 bytes from index 1");
    assert_eq!(describe_utf8_error(1, None), "incomplete utf-8 byte sequence from index 1");
    for bytes in [&[0x66u8, 0xff, 0x66][..], &[0x66, 0xe2, 0x82], &[0xc0, 0x80], &[0x61, 0x62, 0xed, 0xa0, 0x80]] {
        let e = std::str::from_utf8(bytes).unwrap_err();
        assert_eq!(describe_utf8_error(e.valid_up_to(), e.error_len()), std_utf8_text(bytes));
    }
}

#[test]
fn bad_utf8_message_is_complete() {
    assert_eq!(
        check("a.test.js", &[0x66, 0xff, 0x66]),
        Err("Invalid UTF-8: invalid utf-8 sequence of 1 bytes from index 1".to_string())
    );
    assert_eq!(
        check("a.test.js", &[0x66, 0xe2, 0x82]),
        Err("Invalid UTF-8: incomplete utf-8 byte sequence from index 1".to_string())
    );
}

#[test]
fn fail_badge_matches_owo_colors() {
    assert_eq!(BADGE, format!("{}", " FAIL ".white().on_red().bold()));
}

#[test]
fn empty_and_narrower_filters() {
    let p = "./src/utils/login.test.ts";
    assert_eq!(matches_filter(p, Some("")), matches_filter(p, None));
    assert!(matches_filter(p, Some("login.test")));
    assert!(matches_filter(p, Some("login")));
    assert!(!matches_filter(p, Some("logout")));
}
