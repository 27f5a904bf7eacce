//! The judging pipeline: admission, then compilation, then one run per test
//! case in catalog order, then aggregation into a submission result.
//!
//! Compiling and running are done by the caller; the pipeline decides what
//! comes next and what each observation means.
use vstd::prelude::*;
use vstd::utf8::encode_utf8;
use crate::catalog::{Problem, ProblemCatalog};
use crate::gate::{ConcurrencyGate, acquire_step};
use crate::verdict::{
    RunReport, RunReportView, TestOutcome, TestOutcomeView, TestStatus, compute_score,
    evaluate_run, outcome_for, passed_count, score_for,
};

verus! {

/// What the compiler stage produced.
pub struct CompileResult {
    pub success: bool,
    /// The compiler's standard error; empty on success.
    pub diagnostic_log: String,
    pub elapsed_ms: u64,
}

impl CompileResult {
    /// The compiler stage's result: success when the compiler was spawned and
    /// exited with status zero; its standard error is kept only on failure.
    pub fn from_compiler(exited_ok: bool, stderr: String, elapsed_ms: u64) -> (r: CompileResult)
        ensures
            r.success == exited_ok,
            exited_ok ==> r.diagnostic_log@.len() == 0,
            !exited_ok ==> r.diagnostic_log@ == stderr@,
            r.elapsed_ms == elapsed_ms,
    {
        CompileResult {
            success: exited_ok,
            diagnostic_log: if exited_ok {
                String::new()
            } else {
                stderr
            },
            elapsed_ms,
        }
    }
}

/// Verdict on a whole submission.
#[derive(Clone, Copy, Debug, PartialEq, Eq, Structural)]
pub enum OverallStatus {
    CompilationError,
    Accepted,
    Rejected { passed: usize, total: usize },
}

/// The final, immutable artifact of one judging run.
pub struct SubmissionResult {
    pub overall_status: OverallStatus,
    pub score: u32,
    pub test_outcomes: Vec<TestOutcome>,
    pub compile: CompileResult,
}

/// Why a submission was not judged.
#[derive(Debug, PartialEq, Eq)]
pub enum SubmitError {
    /// No problem has the requested id.
    InvalidProblem,
    /// Every admission unit is taken.
    ServerBusy,
    /// Spawning, the file system or resource accounting failed.
    Infrastructure(String),
}

/// What the caller does next for a submission being judged.
#[derive(Clone, Copy, Debug, PartialEq, Eq, Structural)]
pub enum Step {
    /// Run the compiled program on the test case at this 0-based index.
    RunTest { index: usize },
    /// Nothing is left to run; the result can be produced.
    Finished,
}

/// The bytes the program's output is compared with on test case `i`.
pub open spec fn expected_bytes(p: Problem, i: int) -> Seq<u8> {
    encode_utf8(p.test_cases@[i].expected_output@)
}

pub open spec fn outcome_views(s: Seq<TestOutcome>) -> Seq<TestOutcomeView> {
    Seq::new(s.len(), |i: int| s[i]@)
}

pub open spec fn run_views(s: Seq<RunReport>) -> Seq<RunReportView> {
    Seq::new(s.len(), |i: int| s[i]@)
}

/// The outcomes owed for the runs of the first `runs.len()` test cases of `p`.
pub open spec fn outcomes_for(p: Problem, runs: Seq<RunReportView>) -> Seq<TestOutcomeView> {
    Seq::new(
        runs.len(),
        |i: int| outcome_for((i + 1) as nat, runs[i], expected_bytes(p, i), p.time_limit_ms),
    )
}

/// Overall status: a compilation error, or accepted when every one of at least
/// one test passed, or rejected with the counts.
pub open spec fn overall_for(compiled: bool, passed: nat, total: nat) -> OverallStatus {
    if !compiled {
        OverallStatus::CompilationError
    } else if total > 0 && passed == total {
        OverallStatus::Accepted
    } else {
        OverallStatus::Rejected { passed: passed as usize, total: total as usize }
    }
}

/// `r` is the result owed for `p` when compilation gave `compile` and the
/// test runs gave `runs`: no outcome at all without a successful compilation.
pub open spec fn is_verdict(
    r: SubmissionResult,
    p: Problem,
    compile: CompileResult,
    runs: Seq<RunReportView>,
) -> bool {
    let outs = if compile.success {
        outcomes_for(p, runs)
    } else {
        Seq::empty()
    };
    &&& outcome_views(r.test_outcomes@) == outs
    &&& r.score as nat == score_for(passed_count(outs), outs.len())
    &&& r.overall_status == overall_for(compile.success, passed_count(outs), outs.len())
    &&& r.compile == compile
}

/// Lets a submission for `problem_id` in: an unknown id is turned away before
/// any capacity is consumed; otherwise one unit of `gate` is acquired, or the
/// submission is turned away as busy. On success the caller must release that
/// unit exactly once.
pub fn admit_submission<'a>(catalog: &'a ProblemCatalog, gate: &mut ConcurrencyGate, problem_id: &String) -> (r:
    Result<&'a Problem, SubmitError>)
    requires
        catalog.wf(),
        old(gate).wf(),
    ensures
        final(gate).wf(),
        !catalog.contains(problem_id@) ==> r matches Err(SubmitError::InvalidProblem),
        !catalog.contains(problem_id@) ==> final(gate)@ == old(gate)@,
        catalog.contains(problem_id@) ==> (final(gate)@, r is Ok) == acquire_step(old(gate)@),
        catalog.contains(problem_id@) && !(r is Ok) ==> r matches Err(SubmitError::ServerBusy),
        r matches Ok(p) ==> p.id@ == problem_id@ && p.wf() && exists|i: int|
            0 <= i < catalog.entries().len() && catalog.entries()[i] == *p,
{
    let problem = match catalog.get_problem(problem_id) {
        Some(p) => p,
        None => {
            return Err(SubmitError::InvalidProblem);
        },
    };
    if gate.try_acquire() {
        Ok(problem)
    } else {
        Err(SubmitError::ServerBusy)
    }
}

/// A submission being judged against one problem.
pub struct Judging {
    compile: CompileResult,
    outcomes: Vec<TestOutcome>,
    runs: Ghost<Seq<RunReportView>>,
}

impl Judging {
    pub closed spec fn compile_result(&self) -> CompileResult {
        self.compile
    }

    /// The reports recorded so far, one per test case in order.
    pub closed spec fn runs(&self) -> Seq<RunReportView> {
        self.runs@
    }

    /// The outcomes held are those owed for the runs recorded against `p`.
    pub closed spec fn inv(&self, p: Problem) -> bool {
        &&& self.compile.success ==> self.runs@.len() <= p.test_cases@.len()
        &&& !self.compile.success ==> self.runs@.len() == 0
        &&& self.outcomes@.len() == self.runs@.len()
        &&& outcome_views(self.outcomes@) == if self.compile.success {
            outcomes_for(p, self.runs@)
        } else {
            Seq::empty()
        }
    }

    /// The test case to run next: none once compilation failed or every test
    /// case has been run.
    pub open spec fn pending(&self, p: Problem) -> Option<nat> {
        if self.compile_result().success && self.runs().len() < p.test_cases@.len() {
            Some(self.runs().len())
        } else {
            None
        }
    }

    /// Starts judging once the compiler stage is done.
    pub fn start(problem: &Problem, compile: CompileResult) -> (r: Judging)
        ensures
            r.inv(*problem),
            r.compile_result() == compile,
            r.runs() == Seq::<RunReportView>::empty(),
    {
        let r = Judging { compile, outcomes: Vec::new(), runs: Ghost(Seq::empty()) };
        assert(outcome_views(r.outcomes@) =~= outcomes_for(*problem, Seq::empty()));
        assert(outcome_views(r.outcomes@) =~= Seq::empty());
        r
    }

    /// What the caller does next.
    pub fn next_step(&self, problem: &Problem) -> (r: Step)
        requires
            self.inv(*problem),
        ensures
            r == match self.pending(*problem) {
                Some(i) => Step::RunTest { index: i as usize },
                None => Step::Finished,
            },
    {
        if self.compile.success && self.outcomes.len() < problem.test_cases.len() {
            Step::RunTest { index: self.outcomes.len() }
        } else {
            Step::Finished
        }
    }

    /// Records the report of the pending test case.
    pub fn record_run(&mut self, problem: &Problem, run: &RunReport)
        requires
            old(self).inv(*problem),
            old(self).pending(*problem) is Some,
        ensures
            final(self).inv(*problem),
            final(self).compile_result() == old(self).compile_result(),
            final(self).runs() == old(self).runs().push(run@),
    {
        let ghost old_outs = outcome_views(self.outcomes@);
        let i = self.outcomes.len();
        let count = problem.test_count();
        assert(i < count);
        let expected = problem.test_cases[i].expected_output.as_str().as_bytes();
        let outcome = evaluate_run(i + 1, run, expected, problem.time_limit_ms);
        assert(expected@ == expected_bytes(*problem, i as int));
        self.outcomes.push(outcome);
        self.runs = Ghost(self.runs@.push(run@));
        assert forall|j: int| 0 <= j < self.outcomes@.len() implies outcome_views(self.outcomes@)[j]
            == outcomes_for(*problem, self.runs@)[j] by {
            if j < i {
                assert(outcome_views(self.outcomes@)[j] == old_outs[j]);
                assert(self.runs@[j] == old(self).runs@[j]);
            }
        }
        assert(outcome_views(self.outcomes@) =~= outcomes_for(*problem, self.runs@));
    }

    /// Aggregates the outcomes into the submission's result.
    pub fn finish(self, problem: &Problem) -> (r: SubmissionResult)
        requires
            self.inv(*problem),
            self.pending(*problem) is None,
        ensures
            is_verdict(r, *problem, self.compile_result(), self.runs()),
            !self.compile_result().success ==> r.test_outcomes@.len() == 0 && r.score == 0
                && r.overall_status == OverallStatus::CompilationError,
            self.compile_result().success ==> r.test_outcomes@.len()
                == problem.test_cases@.len(),
            forall|i: int|
                0 <= i < r.test_outcomes@.len() ==> #[trigger] r.test_outcomes@[i].test_number
                    == i + 1,
    {
        let ghost outs = outcome_views(self.outcomes@);
        let total = self.outcomes.len();
        let mut passed: usize = 0;
        let mut i: usize = 0;
        while i < total
            invariant
                i <= total,
                total == self.outcomes@.len(),
                outs == outcome_views(self.outcomes@),
                passed as nat == passed_count(outs.take(i as int)),
                passed <= i,
            decreases total - i,
        {
            assert(outs.take(i as int + 1).drop_last() =~= outs.take(i as int));
            if self.outcomes[i].passed {
                passed = passed + 1;
            }
            i += 1;
        }
        assert(outs.take(total as int) =~= outs);
        let score = compute_score(passed, total);
        let overall_status = if !self.compile.success {
            OverallStatus::CompilationError
        } else if total > 0 && passed == total {
            OverallStatus::Accepted
        } else {
            OverallStatus::Rejected { passed, total }
        };
        let r = SubmissionResult {
            overall_status,
            score,
            test_outcomes: self.outcomes,
            compile: self.compile,
        };
        assert forall|i: int| 0 <= i < r.test_outcomes@.len() implies #[trigger] r.test_outcomes@[
            i].test_number == i + 1 by {
            assert(outs[i] == r.test_outcomes@[i]@);
        }
        r
    }
}

/// Judges a submission whose compilation gave `compile` and whose test runs,
/// one per test case in order, gave `runs`.
pub fn judge(problem: &Problem, compile: CompileResult, runs: &Vec<RunReport>) -> (r:
    SubmissionResult)
    requires
        compile.success ==> runs@.len() == problem.test_cases@.len(),
    ensures
        is_verdict(
            r,
            *problem,
            compile,
            if compile.success {
                run_views(runs@)
            } else {
                Seq::empty()
            },
        ),
        !compile.success ==> r.test_outcomes@.len() == 0 && r.score == 0 && r.overall_status
            == OverallStatus::CompilationError,
        compile.success ==> r.test_outcomes@.len() == problem.test_cases@.len(),
        forall|i: int|
            0 <= i < r.test_outcomes@.len() ==> #[trigger] r.test_outcomes@[i].test_number == i
                + 1,
{
    let ghost compiled = compile.success;
    let mut judging = Judging::start(problem, compile);
    let mut k: usize = 0;
    while k < runs.len()
        invariant
            judging.inv(*problem),
            judging.compile_result() == compile,
            compile.success == compiled,
            compiled ==> runs@.len() == problem.test_cases@.len(),
            compiled ==> judging.runs() == run_views(runs@.take(k as int)),
            !compiled ==> judging.runs() == Seq::<RunReportView>::empty(),
            k <= runs@.len(),
        decreases runs@.len() - k,
    {
        if let Step::RunTest { index: _ } = judging.next_step(problem) {
            judging.record_run(problem, &runs[k]);
            assert(run_views(runs@.take(k as int + 1)) =~= run_views(runs@.take(k as int)).push(
                runs@[k as int]@,
            ));
        }
        k += 1;
    }
    proof {
        if compiled {
            assert(runs@.take(runs@.len() as int) =~= runs@);
        }
    }
    judging.finish(problem)
}

pub proof fn lemma_passed_count_pointwise(a: Seq<TestOutcomeView>, b: Seq<TestOutcomeView>)
    requires
        a.len() == b.len(),
        forall|i: int| 0 <= i < a.len() ==> a[i].passed == b[i].passed,
    ensures
        passed_count(a) == passed_count(b),
    decreases a.len(),
{
    if a.len() > 0 {
        lemma_passed_count_pointwise(a.drop_last(), b.drop_last());
    }
}

pub proof fn lemma_passed_count_none(a: Seq<TestOutcomeView>)
    requires
        forall|i: int| 0 <= i < a.len() ==> !a[i].passed,
    ensures
        passed_count(a) == 0,
    decreases a.len(),
{
    if a.len() > 0 {
        lemma_passed_count_none(a.drop_last());
    }
}

/// Two runs that behaved the same: same deadline outcome, same input
/// delivery, same exit, same output. Time and memory may differ.
pub open spec fn same_behaviour(a: RunReportView, b: RunReportView) -> bool {
    &&& a.timed_out == b.timed_out
    &&& a.input_delivered == b.input_delivered
    &&& a.exit_success == b.exit_success
    &&& a.stdout == b.stdout
}

/// Judging is deterministic: runs that behave the same test by test give the
/// same status and pass flag for every test, the same score and the same
/// overall status, whatever time and memory were measured.
pub proof fn lemma_verdict_depends_only_on_behaviour(
    p: Problem,
    compiled: bool,
    runs1: Seq<RunReportView>,
    runs2: Seq<RunReportView>,
)
    requires
        runs1.len() == runs2.len(),
        forall|i: int| 0 <= i < runs1.len() ==> same_behaviour(runs1[i], runs2[i]),
    ensures
        forall|i: int|
            0 <= i < runs1.len() ==> (#[trigger] outcomes_for(p, runs1)[i]).status
                == outcomes_for(p, runs2)[i].status && outcomes_for(p, runs1)[i].passed
                == outcomes_for(p, runs2)[i].passed,
        passed_count(outcomes_for(p, runs1)) == passed_count(outcomes_for(p, runs2)),
        score_for(passed_count(outcomes_for(p, runs1)), runs1.len()) == score_for(
            passed_count(outcomes_for(p, runs2)),
            runs2.len(),
        ),
        overall_for(compiled, passed_count(outcomes_for(p, runs1)), runs1.len()) == overall_for(
            compiled,
            passed_count(outcomes_for(p, runs2)),
            runs2.len(),
        ),
{
    lemma_passed_count_pointwise(outcomes_for(p, runs1), outcomes_for(p, runs2));
}

/// A program that never finishes within the deadline gets a time-limit verdict
/// on every test, reported at exactly the deadline, and scores nothing.
pub proof fn lemma_deadline_on_every_test(p: Problem, runs: Seq<RunReportView>)
    requires
        forall|i: int| 0 <= i < runs.len() ==> (#[trigger] runs[i]).timed_out,
    ensures
        forall|i: int|
            0 <= i < runs.len() ==> (#[trigger] outcomes_for(p, runs)[i]).status
                == TestStatus::TimeLimitExceeded && !outcomes_for(p, runs)[i].passed
                && outcomes_for(p, runs)[i].elapsed_ms == p.time_limit_ms,
        passed_count(outcomes_for(p, runs)) == 0,
        score_for(passed_count(outcomes_for(p, runs)), runs.len()) == 0,
{
    assert forall|i: int| 0 <= i < runs.len() implies !(#[trigger] outcomes_for(p, runs)[i]).passed by {
        assert(runs[i].timed_out);
    }
    lemma_passed_count_none(outcomes_for(p, runs));
}

} // verus!
