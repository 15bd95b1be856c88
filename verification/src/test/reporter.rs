//! The console summary of a test run.

use vstd::prelude::*;
use crate::style::{bold, bold_text, bright_black, combo_text, fg_text, green, red, white, white_on_red};
use crate::test::types::{TestFailure, TestReport};
use crate::text::{decimal, push_decimal, push_str};

verus! {

/// Renders test results for the terminal.
pub struct ConsoleReporter;

/// How a failed file's path is shown: the whole path when it has a
/// non-empty parent directory, else only its file name.
pub struct PathLabel {
    /// The path has a parent and that parent is not the empty path.
    pub nonempty_parent: bool,
    /// The whole path as displayed.
    pub display: String,
    /// The file name, lossily decoded, or empty when there is none.
    pub file_name: String,
}

/// How many failures the summary lists in full.
pub const SHOWN_FAILURES: usize = 5;

/// The path part of a failure's first line.
pub open spec fn path_text(l: PathLabel) -> Seq<char> {
    if l.nonempty_parent {
        fg_text(90, l.display@)
    } else {
        bold_text(l.file_name@)
    }
}

/// The badge in front of a failed path.
pub open spec fn fail_badge() -> Seq<char> {
    bold_text(combo_text(37, 41, " FAIL "@))
}

/// The two lines that describe one failure.
pub open spec fn failure_text(l: PathLabel, error: Seq<char>) -> Seq<Seq<char>> {
    seq!["  "@ + fail_badge() + " "@ + path_text(l), "> "@ + fg_text(31, error)]
}

/// The lines of the first `k` failures.
pub open spec fn failures_text(labels: Seq<PathLabel>, errors: Seq<Seq<char>>, k: nat) -> Seq<
    Seq<char>,
>
    decreases k,
{
    if k == 0 {
        seq![]
    } else {
        failures_text(labels, errors, (k - 1) as nat) + failure_text(
            labels[k - 1],
            errors[k - 1],
        )
    }
}

/// The error texts of failures.
pub open spec fn error_texts(fs: Seq<TestFailure>) -> Seq<Seq<char>> {
    fs.map_values(|f: TestFailure| f.error@)
}

/// The number of failures listed in full.
pub open spec fn shown(n: nat) -> nat {
    if n > 5 { 5 } else { n }
}

/// The failure section: empty without failures; else a heading, the first
/// five failures, a count of the rest when there are more, and a blank line.
pub open spec fn failure_section(labels: Seq<PathLabel>, errors: Seq<Seq<char>>) -> Seq<Seq<char>> {
    if errors.len() == 0 {
        seq![]
    } else {
        seq![fg_text(31, bold_text("FAILURES"@))] + failures_text(labels, errors, shown(errors.len()))
            + if errors.len() > 5 {
            seq![fg_text(90, "  ... and "@ + decimal((errors.len() - 5) as nat) + " more errors."@)]
        } else {
            seq![]
        } + seq![seq![]]
    }
}

/// The count of failed suites as shown.
pub open spec fn failed_text(n: nat) -> Seq<char> {
    if n == 0 {
        "0 failed"@
    } else {
        fg_text(31, bold_text(decimal(n) + " failed"@))
    }
}

/// The totals section.
pub open spec fn totals_section(failed: nat, passed: nat, total: nat) -> Seq<Seq<char>> {
    seq![
        fg_text(37, bold_text("Test Suites:"@)),
        "  "@ + failed_text(failed) + ", "@ + fg_text(32, bold_text(decimal(passed) + " passed"@))
            + ", "@ + decimal(total) + " total"@,
        fg_text(90, "Ran all test suites.\n"@),
    ]
}

/// The whole summary of a report.
pub open spec fn summary_text(r: TestReport, labels: Seq<PathLabel>) -> Seq<Seq<char>> {
    failure_section(labels, error_texts(r.failures@)) + totals_section(
        r.total_failed as nat,
        r.total_passed as nat,
        r.total_files as nat,
    )
}

/// The views of a vector of lines.
pub open spec fn lines_text(v: Seq<String>) -> Seq<Seq<char>> {
    v.map_values(|s: String| s@)
}

/// The lines of the first `k` failures are two per failure, in order.
pub proof fn lemma_failures_text(labels: Seq<PathLabel>, errors: Seq<Seq<char>>, k: nat)
    ensures
        failures_text(labels, errors, k).len() == 2 * k,
        forall|i: int|
            0 <= i < k ==> #[trigger] failures_text(labels, errors, k)[2 * i] == failure_text(
                labels[i],
                errors[i],
            )[0] && failures_text(labels, errors, k)[2 * i + 1] == failure_text(labels[i], errors[i])[1],
    decreases k,
{
    if k > 0 {
        lemma_failures_text(labels, errors, (k - 1) as nat);
        let prev = failures_text(labels, errors, (k - 1) as nat);
        let last = failure_text(labels[k - 1], errors[k - 1]);
        assert(failures_text(labels, errors, k) == prev + last);
        assert forall|i: int| 0 <= i < k implies #[trigger] failures_text(labels, errors, k)[2 * i]
            == failure_text(labels[i], errors[i])[0] && failures_text(labels, errors, k)[2 * i + 1]
            == failure_text(labels[i], errors[i])[1] by {
            if i < k - 1 {
                assert(prev[2 * i] == failure_text(labels[i], errors[i])[0]);
            }
        }
    }
}

/// The shape of a summary: a `FAILURES` heading exactly when there are
/// failures; then two lines for each of the first min(n, 5) of its `n`
/// failures, in order, so every failure when there are at most five;
/// a count of the rest exactly when there are more than five; a blank line;
/// and the three totals lines, whose middle one shows the report's counts
/// as they are.
pub proof fn lemma_summary_shape(r: TestReport, labels: Seq<PathLabel>)
    ensures
        ({
            let t = summary_text(r, labels);
            let n = r.failures@.len();
            let k: int = if n <= 5 { n as int } else { 5 };
            let extra: int = if n > 5 { 1 } else { 0 };
            let failed = r.total_failed as nat;
            let totals = seq![
                fg_text(37, bold_text("Test Suites:"@)),
                "  "@ + (if failed == 0 {
                    "0 failed"@
                } else {
                    fg_text(31, bold_text(decimal(failed) + " failed"@))
                }) + ", "@ + fg_text(32, bold_text(decimal(r.total_passed as nat) + " passed"@))
                    + ", "@ + decimal(r.total_files as nat) + " total"@,
                fg_text(90, "Ran all test suites.\n"@),
            ];
            &&& n == 0 ==> t == totals
            &&& n > 0 ==> {
                &&& t.len() == 1 + 2 * k + extra + 1 + 3
                &&& t[0] == fg_text(31, bold_text("FAILURES"@))
                &&& forall|i: int|
                    0 <= i < k ==> t[1 + 2 * i] == "  "@ + bold_text(combo_text(37, 41, " FAIL "@))
                        + " "@ + (if labels[i].nonempty_parent {
                        fg_text(90, labels[i].display@)
                    } else {
                        bold_text(labels[i].file_name@)
                    }) && t[2 + 2 * i] == "> "@ + fg_text(31, r.failures@[i].error@)
                &&& n > 5 ==> t[1 + 2 * k] == fg_text(
                    90,
                    "  ... and "@ + decimal((n - 5) as nat) + " more errors."@,
                )
                &&& t[1 + 2 * k + extra] == Seq::<char>::empty()
                &&& t.subrange(2 + 2 * k + extra, t.len() as int) == totals
            }
        }),
{
    let n = r.failures@.len();
    let errors = error_texts(r.failures@);
    let k = shown(n);
    lemma_failures_text(labels, errors, k);
    let t = summary_text(r, labels);
    let tot = totals_section(r.total_failed as nat, r.total_passed as nat, r.total_files as nat);
    if n > 0 {
        let ft = failures_text(labels, errors, k);
        let head = seq![fg_text(31, bold_text("FAILURES"@))];
        let more: Seq<Seq<char>> = if n > 5 {
            seq![fg_text(90, "  ... and "@ + decimal((n - 5) as nat) + " more errors."@)]
        } else {
            seq![]
        };
        let sec = head + ft + more + seq![seq![]];
        assert(errors.len() == n);
        assert(failure_section(labels, errors) == sec);
        assert(t == sec + tot);
        assert forall|i: int| 0 <= i < k implies t[1 + 2 * i] == failure_text(labels[i], errors[i])[0]
            && t[2 + 2 * i] == failure_text(labels[i], errors[i])[1] by {
            assert(ft[2 * i] == failure_text(labels[i], errors[i])[0]);
            assert(t[1 + 2 * i] == ft[2 * i]);
            assert(t[2 + 2 * i] == ft[2 * i + 1]);
        }
        assert(t.subrange(sec.len() as int, t.len() as int) =~= tot);
    } else {
        assert(error_texts(r.failures@).len() == 0);
        assert(t =~= tot);
    }
}

impl ConsoleReporter {
    /// The two lines that describe one failure: the badge with the path,
    /// then the error in red.
    pub fn failure_lines(label: &PathLabel, error: &str) -> (lines: Vec<String>)
        ensures
            lines_text(lines@) == failure_text(*label, error@),
    {
        let path = if label.nonempty_parent {
            bright_black(label.display.as_str())
        } else {
            bold(label.file_name.as_str())
        };
        let badge = bold(white_on_red(" FAIL ").as_str());
        let mut first = String::from_str("  ");
        push_str(&mut first, badge.as_str());
        push_str(&mut first, " ");
        push_str(&mut first, path.as_str());
        let mut second = String::from_str("> ");
        let e = red(error);
        push_str(&mut second, e.as_str());
        proof {
            reveal_strlit("  ");
            reveal_strlit(" ");
            reveal_strlit("> ");
        }
        let mut lines = Vec::new();
        lines.push(first);
        lines.push(second);
        assert(lines_text(lines@) =~= failure_text(*label, error@));
        lines
    }

    /// Every line of the summary of `report`, in print order. `labels[i]`
    /// says how to show the path of `report.failures[i]`.
    pub fn summary_lines(report: &TestReport, labels: &Vec<PathLabel>) -> (lines: Vec<String>)
        requires
            labels@.len() >= shown(report.failures@.len()),
        ensures
            lines_text(lines@) == summary_text(*report, labels@),
    {
        let mut lines: Vec<String> = Vec::new();
        let n = report.failures.len();
        let ghost errors = error_texts(report.failures@);
        if n > 0 {
            lines.push(red(bold("FAILURES").as_str()));
            let k: usize = if n > SHOWN_FAILURES { SHOWN_FAILURES } else { n };
            let mut i: usize = 0;
            while i < k
                invariant
                    k == shown(n as nat),
                    n == report.failures@.len(),
                    errors == error_texts(report.failures@),
                    labels@.len() >= k,
                    i <= k,
                    lines_text(lines@) == seq![fg_text(31, bold_text("FAILURES"@))]
                        + failures_text(labels@, errors, i as nat),
                decreases k - i,
            {
                let mut more = Self::failure_lines(&labels[i], report.failures[i].error.as_str());
                let ghost before = lines@;
                let ghost added = more@;
                lines.append(&mut more);
                assert(errors[i as int] == report.failures@[i as int].error@);
                assert(lines_text(lines@) =~= lines_text(before) + lines_text(added));
                i = i + 1;
            }
            if n > SHOWN_FAILURES {
                let mut m = String::from_str("  ... and ");
                push_decimal(&mut m, (n - SHOWN_FAILURES) as u128);
                push_str(&mut m, " more errors.");
                proof {
                    reveal_strlit("  ... and ");
                    reveal_strlit(" more errors.");
                }
                lines.push(bright_black(m.as_str()));
            }
            lines.push(String::new());
        }
        let ghost head = lines@;
        lines.push(white(bold("Test Suites:").as_str()));
        let failed = if report.total_failed == 0 {
            proof {
                reveal_strlit("0 failed");
            }
            String::from_str("0 failed")
        } else {
            let mut f = String::new();
            push_decimal(&mut f, report.total_failed as u128);
            push_str(&mut f, " failed");
            proof {
                reveal_strlit(" failed");
            }
            red(bold(f.as_str()).as_str())
        };
        let mut passed = String::new();
        push_decimal(&mut passed, report.total_passed as u128);
        push_str(&mut passed, " passed");
        let mut totals = String::from_str("  ");
        push_str(&mut totals, failed.as_str());
        push_str(&mut totals, ", ");
        push_str(&mut totals, green(bold(passed.as_str()).as_str()).as_str());
        push_str(&mut totals, ", ");
        push_decimal(&mut totals, report.total_files as u128);
        push_str(&mut totals, " total");
        proof {
            reveal_strlit("  ");
            reveal_strlit(", ");
            reveal_strlit(" passed");
            reveal_strlit(" total");
        }
        lines.push(totals);
        lines.push(bright_black("Ran all test suites.\n"));
        assert(lines_text(head) =~= failure_section(labels@, errors));
        assert(lines_text(lines@) =~= summary_text(*report, labels@));
        lines
    }
}

} // verus!
