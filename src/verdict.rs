//! Per-test verdicts and score aggregation.
use vstd::prelude::*;
use crate::compare::{outputs_match, same_output, snippet};

verus! {

/// Longest stdout or stderr excerpt kept in a reported outcome.
pub const SNIPPET_LIMIT: usize = 1024;

/// Classification of one test run.
#[derive(Clone, Copy, Debug, PartialEq, Eq, Structural)]
pub enum TestStatus {
    Accepted,
    WrongAnswer,
    TimeLimitExceeded,
    RuntimeError,
}

/// What the execution sandbox observed while running the program on one test.
pub struct RunReport {
    /// The deadline elapsed before the program exited; it was killed.
    pub timed_out: bool,
    /// The test input was written to the program in full.
    pub input_delivered: bool,
    /// The program exited with status zero.
    pub exit_success: bool,
    /// Everything the program wrote to its standard output.
    pub stdout: Vec<u8>,
    /// Everything the program wrote to its standard error.
    pub stderr: Vec<u8>,
    /// Wall-clock time from spawn to exit, in milliseconds.
    pub elapsed_ms: u64,
    /// Peak resident memory in kilobytes; 0 means unknown.
    pub peak_memory_kb: u64,
}

pub struct RunReportView {
    pub timed_out: bool,
    pub input_delivered: bool,
    pub exit_success: bool,
    pub stdout: Seq<u8>,
    pub stderr: Seq<u8>,
    pub elapsed_ms: u64,
    pub peak_memory_kb: u64,
}

impl View for RunReport {
    type V = RunReportView;

    open spec fn view(&self) -> RunReportView {
        RunReportView {
            timed_out: self.timed_out,
            input_delivered: self.input_delivered,
            exit_success: self.exit_success,
            stdout: self.stdout@,
            stderr: self.stderr@,
            elapsed_ms: self.elapsed_ms,
            peak_memory_kb: self.peak_memory_kb,
        }
    }
}

/// The judged result of one test case.
pub struct TestOutcome {
    /// 1-based position of the test case in the problem.
    pub test_number: usize,
    pub status: TestStatus,
    pub passed: bool,
    pub elapsed_ms: u64,
    /// Peak resident memory in kilobytes; 0 means unknown.
    pub peak_memory_kb: u64,
    pub stdout_snippet: Vec<u8>,
    pub stderr_snippet: Vec<u8>,
}

pub struct TestOutcomeView {
    pub test_number: nat,
    pub status: TestStatus,
    pub passed: bool,
    pub elapsed_ms: u64,
    pub peak_memory_kb: u64,
    pub stdout_snippet: Seq<u8>,
    pub stderr_snippet: Seq<u8>,
}

impl View for TestOutcome {
    type V = TestOutcomeView;

    open spec fn view(&self) -> TestOutcomeView {
        TestOutcomeView {
            test_number: self.test_number as nat,
            status: self.status,
            passed: self.passed,
            elapsed_ms: self.elapsed_ms,
            peak_memory_kb: self.peak_memory_kb,
            stdout_snippet: self.stdout_snippet@,
            stderr_snippet: self.stderr_snippet@,
        }
    }
}

/// Status of a run, by precedence: the deadline, then a crash or an input that
/// could not be delivered, then the output comparison.
pub open spec fn status_for(run: RunReportView, expected: Seq<u8>) -> TestStatus {
    if run.timed_out {
        TestStatus::TimeLimitExceeded
    } else if !run.input_delivered || !run.exit_success {
        TestStatus::RuntimeError
    } else if same_output(run.stdout, expected) {
        TestStatus::Accepted
    } else {
        TestStatus::WrongAnswer
    }
}

/// At most the first `n` elements of `s`.
pub open spec fn prefix_upto(s: Seq<u8>, n: nat) -> Seq<u8> {
    if s.len() < n {
        s
    } else {
        s.take(n as int)
    }
}

/// The outcome owed for test number `number` whose run is `run`, judged
/// against `expected` under a deadline of `time_limit_ms`.
pub open spec fn outcome_for(
    number: nat,
    run: RunReportView,
    expected: Seq<u8>,
    time_limit_ms: u64,
) -> TestOutcomeView {
    let status = status_for(run, expected);
    TestOutcomeView {
        test_number: number,
        status,
        passed: status == TestStatus::Accepted,
        elapsed_ms: if run.timed_out { time_limit_ms } else { run.elapsed_ms },
        peak_memory_kb: run.peak_memory_kb,
        stdout_snippet: prefix_upto(run.stdout, SNIPPET_LIMIT as nat),
        stderr_snippet: prefix_upto(run.stderr, SNIPPET_LIMIT as nat),
    }
}

/// Classifies one run against the expected output.
pub fn classify(run: &RunReport, expected: &[u8]) -> (r: TestStatus)
    ensures
        r == status_for(run@, expected@),
{
    if run.timed_out {
        TestStatus::TimeLimitExceeded
    } else if !run.input_delivered || !run.exit_success {
        TestStatus::RuntimeError
    } else if outputs_match(run.stdout.as_slice(), expected) {
        TestStatus::Accepted
    } else {
        TestStatus::WrongAnswer
    }
}

/// Turns the sandbox's report for test `number` into its judged outcome.
pub fn evaluate_run(number: usize, run: &RunReport, expected: &[u8], time_limit_ms: u64) -> (r:
    TestOutcome)
    ensures
        r@ == outcome_for(number as nat, run@, expected@, time_limit_ms),
{
    let status = classify(run, expected);
    let out = snippet(run.stdout.as_slice(), SNIPPET_LIMIT);
    let err = snippet(run.stderr.as_slice(), SNIPPET_LIMIT);
    assert(run.stdout@.len() < SNIPPET_LIMIT ==> run.stdout@.take(run.stdout@.len() as int)
        =~= run.stdout@);
    assert(run.stderr@.len() < SNIPPET_LIMIT ==> run.stderr@.take(run.stderr@.len() as int)
        =~= run.stderr@);
    TestOutcome {
        test_number: number,
        status,
        passed: status == TestStatus::Accepted,
        elapsed_ms: if run.timed_out { time_limit_ms } else { run.elapsed_ms },
        peak_memory_kb: run.peak_memory_kb,
        stdout_snippet: out,
        stderr_snippet: err,
    }
}

/// `floor(100 * passed / total)`, and 0 when there are no tests.
pub open spec fn score_for(passed: nat, total: nat) -> nat {
    if total == 0 {
        0
    } else {
        (100 * passed) / total
    }
}

/// The score for `passed` accepted tests out of `total`.
pub fn compute_score(passed: usize, total: usize) -> (r: u32)
    requires
        passed <= total,
    ensures
        r as nat == score_for(passed as nat, total as nat),
        r <= 100,
{
    if total == 0 {
        return 0;
    }
    let p = passed as u128;
    let t = total as u128;
    let s = (100 * p) / t;
    proof {
        let (pi, ti) = (p as int, t as int);
        assert((100 * pi) / ti <= 100) by (nonlinear_arith)
            requires
                0 <= pi <= ti,
                ti > 0,
        {
            assert(100 * pi <= 100 * ti);
        }
    }
    s as u32
}

/// Number of accepted outcomes in `outs`.
pub open spec fn passed_count(outs: Seq<TestOutcomeView>) -> nat
    decreases outs.len(),
{
    if outs.len() == 0 {
        0
    } else {
        passed_count(outs.drop_last()) + if outs.last().passed {
            1nat
        } else {
            0nat
        }
    }
}

} // verus!
