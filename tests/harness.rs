use fuzz_harness::{
    Action, BugVerdict, ExecFault, ExecutionManager, Iteration, IterationEnd, Outcome, RunStatus,
    SettingProfile, SignatureMemo, classify, config_path, profile_record, profiling_enabled,
    push_decimal, DEFAULT_CONFIG_PATH,
};

fn failure(sig: &str) -> Outcome {
    Outcome::Failure(sig.as_bytes().to_vec())
}

fn status_of(r: &Result<BugVerdict, ExecFault>) -> RunStatus {
    match r {
        Ok(v) => RunStatus::Completed(*v),
        Err(_) => RunStatus::Faulted,
    }
}

/// Runs one iteration: `outcomes[i]` is what the backend produces under
/// setting `i`. Returns how it ended and the indices that were executed.
fn drive(
    mgr: &mut ExecutionManager,
    compiled: bool,
    run_all: bool,
    mut outcomes: Vec<Option<Result<Outcome, ExecFault>>>,
) -> (IterationEnd, Vec<usize>, Vec<RunStatus>) {
    if mgr.needs_backend() {
        mgr.backend_created();
    }
    let mut iter = Iteration::new(outcomes.len(), compiled, run_all);
    let mut executed = Vec::new();
    loop {
        match iter.next_action() {
            Action::Execute(i) => {
                executed.push(i);
                let run = outcomes[i].take().unwrap();
                let r = mgr.execute_and_classify(run);
                iter.record(status_of(&r));
            }
            Action::Finish(end) => return (end, executed, iter.statuses().clone()),
        }
    }
}

fn text(b: &[u8]) -> String {
    String::from_utf8(b.to_vec()).unwrap()
}

#[test]
fn success_is_never_a_finding() {
    let mut memo = SignatureMemo::new();
    assert_eq!(classify(&mut memo, &Outcome::Success), BugVerdict::NoFinding);
    assert_eq!(classify(&mut memo, &Outcome::Success), BugVerdict::NoFinding);
    assert_eq!(memo.len(), 0);
}

#[test]
fn same_signature_is_new_once_then_known() {
    let mut memo = SignatureMemo::new();
    assert_eq!(classify(&mut memo, &failure("abort 7")), BugVerdict::NewFinding);
    assert_eq!(classify(&mut memo, &failure("abort 7")), BugVerdict::KnownFinding);
    assert_eq!(classify(&mut memo, &failure("abort 7")), BugVerdict::KnownFinding);
    assert_eq!(classify(&mut memo, &failure("abort 8")), BugVerdict::NewFinding);
    assert_eq!(memo.len(), 2);
    assert!(memo.contains(b"abort 7"));
    assert!(!memo.contains(b"abort 9"));
}

#[test]
fn signatures_compare_exactly() {
    let mut memo = SignatureMemo::new();
    assert_eq!(classify(&mut memo, &failure("abc")), BugVerdict::NewFinding);
    assert_eq!(classify(&mut memo, &failure("ab")), BugVerdict::NewFinding);
    assert_eq!(classify(&mut memo, &failure("abcd")), BugVerdict::NewFinding);
    assert_eq!(classify(&mut memo, &failure("")), BugVerdict::NewFinding);
    assert_eq!(classify(&mut memo, &failure("")), BugVerdict::KnownFinding);
    assert_eq!(memo.len(), 4);
}

#[test]
fn manager_is_created_lazily_once() {
    let mut mgr = ExecutionManager::new();
    assert!(mgr.needs_backend());
    mgr.backend_created();
    assert!(!mgr.needs_backend());
    let r = mgr.execute_and_classify(Ok(Outcome::Success));
    assert_eq!(r.unwrap(), BugVerdict::NoFinding);
    assert!(!mgr.needs_backend());
}

#[test]
fn fault_leaves_memo_unchanged_and_retry_works() {
    let mut mgr = ExecutionManager::new();
    mgr.backend_created();
    assert_eq!(mgr.execute_and_classify(Ok(failure("x"))).unwrap(), BugVerdict::NewFinding);
    let r = mgr.execute_and_classify(Err(ExecFault { message: "out of memory".to_string() }));
    assert_eq!(r.unwrap_err().message, "out of memory");
    assert_eq!(mgr.known_count(), 1);
    assert!(mgr.has_seen(b"x"));
    assert_eq!(mgr.execute_and_classify(Ok(failure("y"))).unwrap(), BugVerdict::NewFinding);
    assert_eq!(mgr.known_count(), 2);
}

#[test]
fn compile_rejection_continues_without_execution() {
    let mut mgr = ExecutionManager::new();
    let outcomes = vec![Some(Ok(failure("never run"))), Some(Ok(Outcome::Success))];
    let (end, executed, statuses) = drive(&mut mgr, false, true, outcomes);
    assert_eq!(end, IterationEnd::Continue);
    assert!(executed.is_empty());
    assert_eq!(mgr.known_count(), 0);
    let record = profile_record(3, &Vec::new());
    assert!(statuses.is_empty());
    assert_eq!(text(&record), "move-smith-profile::time::generation::3ms\n");
}

#[test]
fn all_settings_succeed_and_continue() {
    let mut mgr = ExecutionManager::new();
    let outcomes = vec![Some(Ok(Outcome::Success)), Some(Ok(Outcome::Success))];
    let (end, executed, statuses) = drive(&mut mgr, true, true, outcomes);
    assert_eq!(end, IterationEnd::Continue);
    assert_eq!(executed, vec![0, 1]);
    let runs = vec![
        SettingProfile { label: b"v1".to_vec(), millis: 12, status: statuses[0] },
        SettingProfile { label: b"v2".to_vec(), millis: 0, status: statuses[1] },
    ];
    assert_eq!(
        text(&profile_record(45, &runs)),
        "move-smith-profile::time::generation::45ms\n\
         move-smith-profile::time::v1::12ms\n\
         move-smith-profile::status::v1::success\n\
         move-smith-profile::time::v2::0ms\n\
         move-smith-profile::status::v2::success\n"
    );
}

#[test]
fn new_failure_under_one_setting_is_a_finding() {
    let mut mgr = ExecutionManager::new();
    let outcomes = vec![
        Some(Ok(Outcome::Success)),
        Some(Ok(failure("invariant violated"))),
        Some(Ok(Outcome::Success)),
    ];
    let (end, executed, statuses) = drive(&mut mgr, true, true, outcomes);
    assert_eq!(end, IterationEnd::Finding);
    assert_eq!(executed, vec![0, 1, 2]);
    assert_eq!(statuses[1], RunStatus::Completed(BugVerdict::NewFinding));
    let runs = vec![SettingProfile { label: b"v2".to_vec(), millis: 5, status: statuses[1] }];
    assert_eq!(
        text(&profile_record(1, &runs)),
        "move-smith-profile::time::generation::1ms\n\
         move-smith-profile::time::v2::5ms\n\
         move-smith-profile::status::v2::error\n"
    );
}

#[test]
fn without_profiling_execution_stops_at_the_finding() {
    let mut mgr = ExecutionManager::new();
    let outcomes = vec![
        Some(Ok(failure("first"))),
        Some(Ok(failure("second"))),
    ];
    let (end, executed, _) = drive(&mut mgr, true, false, outcomes);
    assert_eq!(end, IterationEnd::Finding);
    assert_eq!(executed, vec![0]);
    assert!(!mgr.has_seen(b"second"));
}

#[test]
fn replayed_failure_is_known_and_continues() {
    let mut mgr = ExecutionManager::new();
    let first = drive(&mut mgr, true, false, vec![Some(Ok(failure("div by zero")))]);
    assert_eq!(first.0, IterationEnd::Finding);
    let again = drive(&mut mgr, true, false, vec![Some(Ok(failure("div by zero")))]);
    assert_eq!(again.0, IterationEnd::Continue);
    assert_eq!(again.2, vec![RunStatus::Completed(BugVerdict::KnownFinding)]);
}

#[test]
fn fault_ends_the_iteration() {
    let mut mgr = ExecutionManager::new();
    let outcomes = vec![
        Some(Ok(Outcome::Success)),
        Some(Err(ExecFault { message: "vm crashed".to_string() })),
        Some(Ok(failure("later"))),
    ];
    let (end, executed, _) = drive(&mut mgr, true, false, outcomes);
    assert_eq!(end, IterationEnd::Fault);
    assert_eq!(executed, vec![0, 1]);
    assert_eq!(mgr.known_count(), 0);
}

#[test]
fn fault_before_finding_decides_in_both_modes() {
    let make = || {
        vec![
            Some(Err(ExecFault { message: "vm crashed".to_string() })),
            Some(Ok(failure("bug"))),
        ]
    };
    let mut quiet = ExecutionManager::new();
    let mut profiled = ExecutionManager::new();
    assert_eq!(drive(&mut quiet, true, false, make()).0, IterationEnd::Fault);
    let (end, executed, _) = drive(&mut profiled, true, true, make());
    assert_eq!(end, IterationEnd::Fault);
    assert_eq!(executed, vec![0, 1]);
}

#[test]
fn repeat_of_clean_input_behaves_as_in_a_fresh_process() {
    let mut used = ExecutionManager::new();
    for sig in ["a", "b", "c"] {
        drive(&mut used, true, true, vec![Some(Ok(failure(sig))), Some(Ok(Outcome::Success))]);
    }
    drive(&mut used, true, true, vec![Some(Err(ExecFault { message: "x".to_string() }))]);
    let mut fresh = ExecutionManager::new();
    let clean = || vec![Some(Ok(Outcome::Success)), Some(Ok(Outcome::Success))];
    let a = drive(&mut used, true, true, clean());
    let b = drive(&mut fresh, true, true, clean());
    assert_eq!(a, b);
    assert_eq!(a.0, IterationEnd::Continue);
    assert_eq!(used.known_count(), 3);
}

#[test]
fn interleaved_iterations_report_each_signature_once() {
    let mut mgr = ExecutionManager::new();
    mgr.backend_created();
    let order = ["p", "q", "p", "r", "q", "p", "r"];
    let mut new_count = std::collections::HashMap::new();
    for sig in order {
        if mgr.execute_and_classify(Ok(failure(sig))).unwrap() == BugVerdict::NewFinding {
            *new_count.entry(sig).or_insert(0) += 1;
        }
    }
    assert_eq!(new_count.len(), 3);
    assert!(new_count.values().all(|&n| n == 1));
    assert_eq!(mgr.known_count(), 3);
}

#[test]
fn decimal_digits() {
    let cases: [(u64, &str); 6] = [
        (0, "0"),
        (7, "7"),
        (10, "10"),
        (1234, "1234"),
        (1000000, "1000000"),
        (u64::MAX, "18446744073709551615"),
    ];
    for (n, want) in cases {
        let mut out = b"t=".to_vec();
        push_decimal(&mut out, n);
        assert_eq!(text(&out), format!("t={}", want));
    }
}

#[test]
fn known_failure_is_reported_as_error_status() {
    let runs = vec![SettingProfile {
        label: b"base".to_vec(),
        millis: 100,
        status: RunStatus::Completed(BugVerdict::KnownFinding),
    }, SettingProfile { label: b"opt".to_vec(), millis: 2, status: RunStatus::Faulted }];
    assert_eq!(
        text(&profile_record(0, &runs)),
        "move-smith-profile::time::generation::0ms\n\
         move-smith-profile::time::base::100ms\n\
         move-smith-profile::status::base::error\n\
         move-smith-profile::time::opt::2ms\n\
         move-smith-profile::status::opt::error\n"
    );
}

#[test]
fn profiling_toggle() {
    assert!(profiling_enabled(Some("1")));
    assert!(!profiling_enabled(None));
    assert!(!profiling_enabled(Some("0")));
    assert!(!profiling_enabled(Some("")));
    assert!(!profiling_enabled(Some("11")));
    assert!(!profiling_enabled(Some("true")));
}

#[test]
fn config_path_defaults() {
    assert_eq!(config_path(None), DEFAULT_CONFIG_PATH);
    assert_eq!(config_path(None), "MoveSmith.toml");
    assert_eq!(config_path(Some("/etc/fuzz.toml".to_string())), "/etc/fuzz.toml");
}
