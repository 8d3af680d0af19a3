use aivisor::error::Error;
use aivisor::id::SandboxId;
use aivisor::snapshot::criu::CriuHandle;
use aivisor::snapshot::turn::TurnTracker;
use aivisor::snapshot::workspace::{SnapshotRef, WorkspaceSnapshot};

#[test]
fn test_turn_dirty_detection() {
    let mut tracker = TurnTracker::new();
    let sid = SandboxId::new();

    tracker.begin(&sid, "turn-1");
    assert!(!tracker.is_dirty(&sid));

    tracker.mark_dirty(&sid);
    assert!(tracker.is_dirty(&sid));
    assert!(tracker.end(&sid));
}

#[test]
fn test_clean_turn() {
    let mut tracker = TurnTracker::new();
    let sid = SandboxId::new();

    tracker.begin(&sid, "turn-1");
    assert!(!tracker.end(&sid)); // clean turn
}

#[test]
fn test_fail_closed_unknown_sandbox() {
    let tracker = TurnTracker::new();
    let sid = SandboxId::new();
    // end() for an unknown sandbox returns true (dirty) per fail-closed
    assert!(tracker.end(&sid));
    assert!(tracker.is_dirty(&sid));
}

#[test]
fn test_mark_dirty_unknown_sandbox_no_panic() {
    let mut tracker = TurnTracker::new();
    let sid = SandboxId::new();
    // mark_dirty on an unknown sandbox should not panic
    tracker.mark_dirty(&sid);
}

#[test]
fn test_multiple_sandboxes_independent() {
    let mut tracker = TurnTracker::new();
    let sid_a = SandboxId::new();
    let sid_b = SandboxId::new();

    tracker.begin(&sid_a, "turn-1");
    tracker.begin(&sid_b, "turn-1");

    tracker.mark_dirty(&sid_a);

    assert!(tracker.is_dirty(&sid_a));
    assert!(!tracker.is_dirty(&sid_b));

    assert!(tracker.end(&sid_a));
    assert!(!tracker.end(&sid_b));
}

#[test]
fn test_turn_id_independent_of_sandbox_id() {
    let mut tracker = TurnTracker::new();
    let sid = SandboxId::new();

    tracker.begin(&sid, "turn-alpha");
    tracker.mark_dirty(&sid);
    assert!(tracker.is_dirty(&sid));

    tracker.begin(&sid, "turn-beta");
    // New turn should reset dirty flag
    assert!(!tracker.is_dirty(&sid));
}

#[test]
fn test_is_dirty_after_end() {
    let mut tracker = TurnTracker::new();
    let sid = SandboxId::new();

    tracker.begin(&sid, "turn-1");
    tracker.mark_dirty(&sid);
    tracker.end(&sid);
    // After end, the turn state is still in the map until a new begin
    assert!(tracker.is_dirty(&sid));
}

#[test]
fn test_create_is_explicitly_unsupported_not_silently_ok() {
    let result = WorkspaceSnapshot::create("/tmp/does-not-matter");
    assert!(
        matches!(result, Err(Error::Unsupported(_))),
        "create() must fail closed, not hand back a placeholder snapshot ref"
    );
}

#[test]
fn test_restore_is_explicitly_unsupported_not_silently_ok() {
    let snap = SnapshotRef {
        id: "whatever".into(),
    };
    let result = WorkspaceSnapshot::restore(&snap, "/tmp/does-not-matter");
    assert!(
        matches!(result, Err(Error::Unsupported(_))),
        "restore() must fail closed, not report success without writing anything"
    );
}

#[test]
fn a_default_tracker_knows_of_no_turn() {
    assert!(TurnTracker::default().is_dirty(&SandboxId::new()));
}

#[test]
fn process_checkpoints_are_not_there_yet() {
    let criu = CriuHandle::new().unwrap();
    assert_eq!(criu.checkpoint(1, "/tmp").unwrap_err().to_string(), "not supported: CRIU checkpoint in Phase 4");
    assert_eq!(criu.restore("/tmp").unwrap_err().to_string(), "not supported: CRIU restore in Phase 4");
    assert!(!CriuHandle::check_available().unwrap());
}
