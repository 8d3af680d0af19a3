use aivisor::sandbox::Duration;
use aivisor::escape::{
    is_denied_or_unreachable, is_permission_denied, no_sibling, result_of_code, run_one, scenario_spec, scenarios,
    FailureKind, Outcome, Refusal, RunStage, RunStep, ScenarioResult, Tally,
};
use aivisor::id::SandboxId;

/// The failure with an error number, as the operating system tells of it.
fn failure(errno: i32) -> Refusal {
    let e = std::io::Error::from_raw_os_error(errno);
    let kind = match e.kind() {
        std::io::ErrorKind::PermissionDenied => FailureKind::PermissionDenied,
        std::io::ErrorKind::NetworkUnreachable => FailureKind::NetworkUnreachable,
        std::io::ErrorKind::HostUnreachable => FailureKind::HostUnreachable,
        std::io::ErrorKind::ConnectionRefused => FailureKind::ConnectionRefused,
        _ => FailureKind::Other,
    };
    Refusal { errno: e.raw_os_error(), kind }
}

#[test]
fn test_permission_denied_classification() {
    let e = failure(13); // EACCES
    assert!(is_permission_denied(&e));
    let e = failure(1); // EPERM
    assert!(is_permission_denied(&e));
    let e = failure(2); // ENOENT
    assert!(!is_permission_denied(&e));
}

#[test]
fn test_network_unreachable_counts_as_denied() {
    let e = failure(101); // ENETUNREACH
    assert!(is_denied_or_unreachable(&e));
    let e = failure(2); // ENOENT — not a network denial signal
    assert!(!is_denied_or_unreachable(&e));
}

#[test]
fn a_failure_without_a_number_goes_by_its_sort() {
    let of = |kind| Refusal { errno: None, kind };
    assert!(is_permission_denied(&of(FailureKind::PermissionDenied)));
    assert!(!is_permission_denied(&of(FailureKind::ConnectionRefused)));
    assert!(is_denied_or_unreachable(&of(FailureKind::ConnectionRefused)));
    assert!(is_denied_or_unreachable(&of(FailureKind::HostUnreachable)));
    assert!(!is_denied_or_unreachable(&of(FailureKind::Other)));
    for n in [libc::ENETUNREACH, libc::EHOSTUNREACH, libc::ECONNREFUSED, libc::EPERM, libc::EACCES] {
        assert!(is_denied_or_unreachable(&Refusal { errno: Some(n), kind: FailureKind::Other }));
    }
}

#[test]
fn only_a_denial_counts_as_blocked() {
    let m = || "m".to_string();
    assert!(matches!(Outcome::of_attempt(None), Outcome::Escaped));
    assert!(matches!(Outcome::of_attempt(Some((failure(13), m()))), Outcome::Blocked));
    assert!(matches!(Outcome::of_attempt(Some((failure(101), m()))), Outcome::Unverified(_)));
    assert!(matches!(Outcome::of_connect(Some((failure(101), m()))), Outcome::Blocked));
    assert!(matches!(Outcome::of_connect(Some((failure(2), m()))), Outcome::Unverified(_)));
    assert!(matches!(Outcome::of_connect(None), Outcome::Escaped));
}

#[test]
fn an_attempt_tells_its_outcome_by_its_code() {
    assert_eq!(Outcome::Blocked.report("s"), ("BLOCKED: s".to_string(), 0));
    assert_eq!(Outcome::Escaped.report("s"), ("ESCAPED: s".to_string(), 1));
    assert_eq!(Outcome::Unverified("d".into()).report("s"), ("UNVERIFIED: s (d)".to_string(), 2));
    assert!(matches!(result_of_code(0), ScenarioResult::Blocked));
    assert!(matches!(result_of_code(1), ScenarioResult::Escaped));
    assert!(matches!(result_of_code(2), ScenarioResult::Unverified));
    match result_of_code(-9) {
        ScenarioResult::HarnessError(m) => assert_eq!(m, "unexpected exit code -9"),
        other => panic!("{other:?}"),
    }
}

#[test]
fn an_attempt_is_staged_and_run_and_its_sandbox_destroyed() {
    let mut stage = RunStage::Create;
    let mut stages = vec![stage];
    let over = loop {
        match run_one(stage, Ok(0)) {
            RunStep::Next(s) => {
                stage = s;
                stages.push(s);
            }
            RunStep::Over { result, destroy } => break (result, destroy),
        }
    };
    assert_eq!(stages.len(), 8);
    assert_eq!(stages[7], RunStage::Execute);
    assert!(matches!(over, (ScenarioResult::Blocked, true)));
    for (s, lead) in [
        (RunStage::Create, "create: "),
        (RunStage::Workspace, "workspace_upper_dir: "),
        (RunStage::MakeDir, "mkdir workspace: "),
        (RunStage::FindProgram, ""),
        (RunStage::Copy, "stage scenario binary: "),
        (RunStage::ReadMode, "stat staged binary: "),
        (RunStage::SetMode, "chmod staged binary: "),
        (RunStage::Execute, "exec: "),
    ] {
        match run_one(s, Err("m".to_string())) {
            RunStep::Over { result: ScenarioResult::HarnessError(m), destroy } => {
                assert_eq!(m, format!("{lead}m"));
                assert_eq!(destroy, s != RunStage::Create);
            }
            other => panic!("{other:?}"),
        }
    }
}

#[test]
fn the_suite_tries_files_programs_connections_and_mounts() {
    let categories: Vec<&str> = scenarios().iter().map(|s| s.category).collect();
    assert_eq!(categories, vec!["fs", "exec", "net", "priv"]);
    let spec = scenario_spec(SandboxId::new());
    assert_eq!(spec.template, "base");
    assert_eq!(spec.timeout, Some(Duration { secs: 30, nanos: 0 }));
    assert!(spec.policy.is_none());
    assert!(no_sibling("/x/b", "b").starts_with("expected sibling binary at /x/b"));
}

#[test]
fn a_suite_fails_with_anything_that_is_not_blocked() {
    let mut t = Tally::new();
    assert_eq!(t.summary(), ("=== Escape suite: 0 passed, 0 failed, 0 xfail ===".to_string(), 0));
    assert_eq!(t.count(&ScenarioResult::Blocked, None), "BLOCKED (pass)");
    assert_eq!(
        t.count(&ScenarioResult::Escaped, Some(3)),
        "ESCAPED (XFAIL(phase3) — known, tracked gap)"
    );
    assert_eq!(t.summary().1, 0);
    assert_eq!(t.count(&ScenarioResult::Escaped, None), "ESCAPED — SECURITY CONTROL FAILED");
    assert!(t.count(&ScenarioResult::Unverified, Some(1)).starts_with("UNVERIFIED"));
    assert_eq!(t.count(&ScenarioResult::HarnessError("x".into()), None), "HARNESS ERROR: x");
    assert_eq!(t.summary(), ("=== Escape suite: 1 passed, 3 failed, 1 xfail ===".to_string(), 1));
}
