use grader::catalog::{CatalogError, Problem, ProblemCatalog, TestCase};
use grader::compare::{outputs_match, snippet, split_tokens};
use grader::gate::ConcurrencyGate;
use grader::pipeline::{
    admit_submission, judge, CompileResult, Judging, OverallStatus, Step, SubmitError,
};
use grader::sandbox::{next_wait_action, WaitAction};
use grader::verdict::{classify, compute_score, evaluate_run, RunReport, TestStatus, SNIPPET_LIMIT};

fn test_case(input: &str, expected: &str) -> TestCase {
    TestCase { input: input.to_string(), expected_output: expected.to_string() }
}

fn a_plus_b(cases: Vec<TestCase>) -> Problem {
    Problem {
        id: "1".to_string(),
        title: "1. A + B".to_string(),
        description: "Sum two numbers".to_string(),
        time_limit_ms: 1000,
        memory_limit_kb: 10 * 1024,
        test_cases: cases,
    }
}

fn three_tests() -> Problem {
    a_plus_b(vec![
        test_case("3 5\n", "8"),
        test_case("10 20\n", "30"),
        test_case("28282929 2828282\n", "31111211"),
    ])
}

fn catalog_with(p: Problem) -> ProblemCatalog {
    let mut c = ProblemCatalog::new();
    assert_eq!(c.add(p), Ok(()));
    c
}

fn exited(stdout: &str, elapsed_ms: u64) -> RunReport {
    RunReport {
        timed_out: false,
        input_delivered: true,
        exit_success: true,
        stdout: stdout.as_bytes().to_vec(),
        stderr: Vec::new(),
        elapsed_ms,
        peak_memory_kb: 1200,
    }
}

fn timed_out() -> RunReport {
    RunReport {
        timed_out: true,
        input_delivered: true,
        exit_success: false,
        stdout: Vec::new(),
        stderr: Vec::new(),
        elapsed_ms: 0,
        peak_memory_kb: 0,
    }
}

fn compiled() -> CompileResult {
    CompileResult::from_compiler(true, "warning: unused".to_string(), 250)
}

#[test]
fn unknown_problem_is_invalid_and_leaves_gate_alone() {
    let catalog = catalog_with(three_tests());
    let mut gate = ConcurrencyGate::with_default_capacity();
    assert!(gate.try_acquire());
    let r = admit_submission(&catalog, &mut gate, &"42".to_string());
    assert!(matches!(r, Err(SubmitError::InvalidProblem)));
    assert_eq!(gate.in_use(), 1);
    assert_eq!(gate.capacity(), 3);
}

#[test]
fn known_problem_takes_a_gate_unit() {
    let catalog = catalog_with(three_tests());
    let mut gate = ConcurrencyGate::with_default_capacity();
    let p = admit_submission(&catalog, &mut gate, &"1".to_string()).unwrap();
    assert_eq!(p.id, "1");
    assert_eq!(p.test_count(), 3);
    assert_eq!(gate.in_use(), 1);
}

#[test]
fn compilation_error_has_no_outcomes_and_zero_score() {
    let p = three_tests();
    let compile = CompileResult::from_compiler(false, "error: expected ';'".to_string(), 90);
    let r = judge(&p, compile, &Vec::new());
    assert_eq!(r.overall_status, OverallStatus::CompilationError);
    assert_eq!(r.score, 0);
    assert!(r.test_outcomes.is_empty());
    assert!(!r.compile.success);
    assert_eq!(r.compile.diagnostic_log, "error: expected ';'");
    assert_eq!(r.compile.elapsed_ms, 90);
}

#[test]
fn compilation_error_session_runs_nothing() {
    let p = three_tests();
    let judging =
        Judging::start(&p, CompileResult::from_compiler(false, "bad".to_string(), 5));
    assert_eq!(judging.next_step(&p), Step::Finished);
    let r = judging.finish(&p);
    assert!(r.test_outcomes.is_empty());
    assert_eq!(r.score, 0);
}

#[test]
fn successful_compile_clears_the_log() {
    let c = compiled();
    assert!(c.success);
    assert_eq!(c.diagnostic_log, "");
    assert_eq!(c.elapsed_ms, 250);
}

#[test]
fn one_outcome_per_test_in_order() {
    let p = three_tests();
    let runs = vec![exited("8\n", 3), exited("30\n", 4), exited("31111211\n", 5)];
    let r = judge(&p, compiled(), &runs);
    assert_eq!(r.test_outcomes.len(), 3);
    for (i, o) in r.test_outcomes.iter().enumerate() {
        assert_eq!(o.test_number, i + 1);
        assert_eq!(o.status, TestStatus::Accepted);
        assert!(o.passed);
        assert_eq!(o.elapsed_ms, 3 + i as u64);
        assert_eq!(o.peak_memory_kb, 1200);
    }
    assert_eq!(r.score, 100);
    assert_eq!(r.overall_status, OverallStatus::Accepted);
}

#[test]
fn session_steps_through_tests_in_order() {
    let p = three_tests();
    let mut judging = Judging::start(&p, compiled());
    let outputs = ["8", "31", "31111211"];
    for (i, out) in outputs.iter().enumerate() {
        assert_eq!(judging.next_step(&p), Step::RunTest { index: i });
        judging.record_run(&p, &exited(out, 1));
    }
    assert_eq!(judging.next_step(&p), Step::Finished);
    let r = judging.finish(&p);
    let statuses: Vec<TestStatus> = r.test_outcomes.iter().map(|o| o.status).collect();
    assert_eq!(
        statuses,
        vec![TestStatus::Accepted, TestStatus::WrongAnswer, TestStatus::Accepted]
    );
    assert_eq!(r.score, 66);
}

#[test]
fn same_behaviour_gives_same_verdicts() {
    let p = three_tests();
    let first = vec![exited("8", 3), exited("29", 4), timed_out()];
    let mut second = vec![exited("8", 70), exited("29", 1), timed_out()];
    second[0].peak_memory_kb = 0;
    let a = judge(&p, compiled(), &first);
    let b = judge(&p, compiled(), &second);
    let sa: Vec<(TestStatus, bool)> = a.test_outcomes.iter().map(|o| (o.status, o.passed)).collect();
    let sb: Vec<(TestStatus, bool)> = b.test_outcomes.iter().map(|o| (o.status, o.passed)).collect();
    assert_eq!(sa, sb);
    assert_eq!(a.score, b.score);
    assert_eq!(a.overall_status, b.overall_status);
}

#[test]
fn trailing_spaces_match_trailing_newline() {
    assert!(outputs_match(b"8   ", b"8\n"));
    assert_eq!(classify(&exited("8   ", 1), b"8\n"), TestStatus::Accepted);
}

#[test]
fn whitespace_runs_collapse_but_tokens_must_match() {
    assert!(outputs_match(b"  1\t2\r\n\n3 ", b"1 2 3"));
    assert!(!outputs_match(b"12 3", b"1 23"));
    assert!(!outputs_match(b"1 2", b"1 2 3"));
    assert!(outputs_match(b"", b" \n\t"));
    assert!(!outputs_match(b"", b"0"));
}

#[test]
fn tokens_split_on_whitespace_runs() {
    let t = split_tokens(b" ab  c\nd ");
    assert_eq!(t, vec![b"ab".to_vec(), b"c".to_vec(), b"d".to_vec()]);
    assert!(split_tokens(b"   ").is_empty());
}

#[test]
fn gate_refuses_beyond_capacity_until_release() {
    let mut gate = ConcurrencyGate::with_default_capacity();
    assert!(gate.try_acquire());
    assert!(gate.try_acquire());
    assert!(gate.try_acquire());
    assert!(!gate.try_acquire());
    assert_eq!(gate.in_use(), 3);
    assert!(gate.release());
    assert!(gate.try_acquire());
    assert!(!gate.try_acquire());
}

#[test]
fn fourth_submission_is_busy_then_succeeds_on_retry() {
    let catalog = catalog_with(three_tests());
    let mut gate = ConcurrencyGate::new(3);
    let id = "1".to_string();
    for _ in 0..3 {
        assert!(admit_submission(&catalog, &mut gate, &id).is_ok());
    }
    let busy = admit_submission(&catalog, &mut gate, &id);
    assert!(matches!(busy, Err(SubmitError::ServerBusy)));
    assert_eq!(gate.in_use(), 3);
    assert!(gate.release());
    assert!(admit_submission(&catalog, &mut gate, &id).is_ok());
}

#[test]
fn release_of_idle_gate_changes_nothing() {
    let mut gate = ConcurrencyGate::new(2);
    assert!(!gate.release());
    assert_eq!(gate.in_use(), 0);
}

#[test]
fn endless_program_times_out_on_every_test() {
    let mut p = three_tests();
    p.time_limit_ms = 500;
    let runs = vec![timed_out(), timed_out(), timed_out()];
    let r = judge(&p, compiled(), &runs);
    for o in r.test_outcomes.iter() {
        assert_eq!(o.status, TestStatus::TimeLimitExceeded);
        assert!(!o.passed);
        assert_eq!(o.elapsed_ms, 500);
    }
    assert_eq!(r.score, 0);
    assert_eq!(r.overall_status, OverallStatus::Rejected { passed: 0, total: 3 });
}

#[test]
fn wait_loop_terminates_at_deadline() {
    assert_eq!(next_wait_action(false, 500, 500), WaitAction::Terminate);
    assert_eq!(next_wait_action(false, 700, 500), WaitAction::Terminate);
    assert_eq!(next_wait_action(false, 0, 500), WaitAction::Sleep { ms: 10 });
    assert_eq!(next_wait_action(false, 497, 500), WaitAction::Sleep { ms: 3 });
    assert_eq!(next_wait_action(true, 900, 500), WaitAction::Collect);
}

#[test]
fn two_of_three_scores_sixty_six() {
    let p = three_tests();
    let runs = vec![exited("8", 1), exited("30", 1), exited("0", 1)];
    let r = judge(&p, compiled(), &runs);
    assert_eq!(r.score, 66);
    assert_eq!(r.overall_status, OverallStatus::Rejected { passed: 2, total: 3 });
    assert_eq!(r.test_outcomes[2].status, TestStatus::WrongAnswer);
}

#[test]
fn score_formula() {
    assert_eq!(compute_score(2, 3), 66);
    assert_eq!(compute_score(1, 3), 33);
    assert_eq!(compute_score(3, 3), 100);
    assert_eq!(compute_score(0, 0), 0);
    assert_eq!(compute_score(0, 7), 0);
    assert_eq!(compute_score(usize::MAX - 1, usize::MAX), 99);
}

#[test]
fn a_plus_b_end_to_end() {
    let catalog = catalog_with(a_plus_b(vec![test_case("3 5\n", "8")]));
    let mut gate = ConcurrencyGate::with_default_capacity();
    let p = admit_submission(&catalog, &mut gate, &"1".to_string()).unwrap();
    let r = judge(p, compiled(), &vec![exited("8\n", 2)]);
    assert_eq!(r.test_outcomes.len(), 1);
    assert_eq!(r.test_outcomes[0].status, TestStatus::Accepted);
    assert!(r.test_outcomes[0].passed);
    assert_eq!(r.score, 100);
    assert_eq!(r.overall_status, OverallStatus::Accepted);
    assert!(gate.release());
    assert_eq!(gate.in_use(), 0);
}

#[test]
fn crash_is_runtime_error_even_with_right_output() {
    let mut run = exited("8", 1);
    run.exit_success = false;
    assert_eq!(classify(&run, b"8"), TestStatus::RuntimeError);
    let mut undelivered = exited("8", 1);
    undelivered.input_delivered = false;
    assert_eq!(classify(&undelivered, b"8"), TestStatus::RuntimeError);
    let mut late = exited("8", 1);
    late.timed_out = true;
    assert_eq!(classify(&late, b"8"), TestStatus::TimeLimitExceeded);
}

#[test]
fn reported_output_is_truncated_but_compared_whole() {
    let long = "7".repeat(SNIPPET_LIMIT + 50);
    let mut run = exited(&long, 4);
    run.stderr = b"oops".to_vec();
    let o = evaluate_run(2, &run, long.as_bytes(), 1000);
    assert_eq!(o.test_number, 2);
    assert_eq!(o.status, TestStatus::Accepted);
    assert_eq!(o.stdout_snippet.len(), SNIPPET_LIMIT);
    assert_eq!(o.stderr_snippet, b"oops".to_vec());
    assert_eq!(snippet(b"abcdef", 3), b"abc".to_vec());
    assert_eq!(snippet(b"ab", 3), b"ab".to_vec());
}

#[test]
fn catalog_rejects_duplicates_and_zero_limits() {
    let mut c = ProblemCatalog::new();
    assert_eq!(c.add(three_tests()), Ok(()));
    assert_eq!(c.add(three_tests()), Err(CatalogError::DuplicateId));
    let mut zero = three_tests();
    zero.id = "2".to_string();
    zero.time_limit_ms = 0;
    assert_eq!(c.add(zero), Err(CatalogError::InvalidLimits));
    let mut no_memory = three_tests();
    no_memory.id = "3".to_string();
    no_memory.memory_limit_kb = 0;
    assert_eq!(c.add(no_memory), Err(CatalogError::InvalidLimits));
    assert_eq!(c.len(), 1);
    assert!(c.get_problem(&"1".to_string()).is_some());
    assert!(c.get_problem(&"2".to_string()).is_none());
}

#[test]
fn catalog_lists_problems_in_order() {
    let mut c = ProblemCatalog::new();
    let mut second = three_tests();
    second.id = "2".to_string();
    assert_eq!(c.add(three_tests()), Ok(()));
    assert_eq!(c.add(second), Ok(()));
    assert_eq!(c.problem_at(0).id, "1");
    assert_eq!(c.problem_at(1).id, "2");
    assert_eq!(c.get_problem(&"2".to_string()).unwrap().id, "2");
}
