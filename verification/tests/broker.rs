use aivisor::broker::identity::SvidManager;
use aivisor::broker::proxy::{
    cgroup_id_from_proc_cgroup, cgroup_path_from_proc_cgroup, Broker, DEFAULT_BYTE_BUDGET,
};
use aivisor::id::{CgroupId, SandboxId};

#[test]
fn test_issue_revoke_session() {
    let mut broker = Broker::new();
    let sid = SandboxId::new();
    let token = broker.issue_session(sid).unwrap();
    assert!(token.starts_with("aiv-ses-"));
    broker.revoke_session(&token).unwrap();
}

#[test]
fn test_revoke_nonexistent_session() {
    let mut broker = Broker::new();
    assert!(broker.revoke_session("nonexistent").is_ok());
}

#[test]
fn test_stats_empty() {
    let broker = Broker::new();
    let stats = broker.stats();
    assert_eq!(stats.get("active_sessions"), Some(&0));
}

#[test]
fn test_stats_after_issue() {
    let mut broker = Broker::new();
    let sid = SandboxId::new();
    broker.issue_session(sid).unwrap();
    let stats = broker.stats();
    assert_eq!(stats.get("active_sessions"), Some(&1));
}

#[test]
fn test_multiple_sessions_unique_tokens() {
    let mut broker = Broker::new();
    let sid1 = SandboxId::new();
    let sid2 = SandboxId::new();
    let t1 = broker.issue_session(sid1).unwrap();
    let t2 = broker.issue_session(sid2).unwrap();
    assert_ne!(t1, t2);
}

#[test]
fn test_record_bytes_within_budget() {
    let mut broker = Broker::new();
    let token = broker.issue_session(SandboxId::new()).unwrap();
    broker.record_bytes(&token, 1024).unwrap();
    assert_eq!(
        broker.remaining_budget(&token),
        Some(DEFAULT_BYTE_BUDGET - 1024)
    );
}

#[test]
fn test_record_bytes_exceeding_budget_is_denied() {
    let mut broker = Broker::new();
    let token = broker.issue_session(SandboxId::new()).unwrap();
    let result = broker.record_bytes(&token, DEFAULT_BYTE_BUDGET + 1);
    assert!(result.is_err());
    // The denied call must not have partially applied — budget stays
    // untouched, not silently consumed up to the cap.
    assert_eq!(broker.remaining_budget(&token), Some(DEFAULT_BYTE_BUDGET));
}

#[test]
fn test_record_bytes_unknown_token_fails_closed() {
    let mut broker = Broker::new();
    assert!(broker.record_bytes("nonexistent", 1).is_err());
}

#[test]
fn test_verify_peer_cgroup_matches() {
    let mut broker = Broker::new();
    let cgid = CgroupId::new(42);
    let token = broker
        .issue_session_bound(SandboxId::new(), Some(cgid))
        .unwrap();
    assert!(broker.verify_peer_cgroup(&token, cgid).is_ok());
}

#[test]
fn test_verify_peer_cgroup_mismatch_fails_closed() {
    let mut broker = Broker::new();
    let token = broker
        .issue_session_bound(SandboxId::new(), Some(CgroupId::new(42)))
        .unwrap();
    assert!(broker
        .verify_peer_cgroup(&token, CgroupId::new(43))
        .is_err());
}

#[test]
fn test_verify_peer_cgroup_unbound_session_fails_closed() {
    // A session issued without a bound cgroup (the plain
    // issue_session() path) must not be treated as automatically
    // trusted by verify_peer_cgroup.
    let mut broker = Broker::new();
    let token = broker.issue_session(SandboxId::new()).unwrap();
    assert!(broker.verify_peer_cgroup(&token, CgroupId::new(1)).is_err());
}

#[test]
fn test_serve_is_explicitly_unsupported_not_silently_noop() {
    let broker = Broker::new();
    let result = broker.serve("127.0.0.1:3128");
    assert!(result.is_err());
}

#[test]
fn test_cgroup_id_from_proc_cgroup_v2_line() {
    let content = "0::/aivisor/some-sandbox-id\n";
    // The path does not exist, so there is no inode: a clear error, not a bogus id.
    let result = cgroup_id_from_proc_cgroup(content, 1234, Err("No such file or directory".to_string()));
    assert!(result.is_err());
}

#[test]
fn test_cgroup_id_from_proc_cgroup_missing_v2_line() {
    let content = "1:name=systemd:/\n2:cpu:/\n";
    let result = cgroup_id_from_proc_cgroup(content, 1234, Ok(1));
    assert!(result.is_err());
}

#[test]
fn the_inode_of_the_cgroup_is_its_id() {
    let content = "1:name=systemd:/\n0::/aivisor/some-sandbox-id\n";
    assert_eq!(cgroup_path_from_proc_cgroup(content, 1).unwrap(), "/sys/fs/cgroup/aivisor/some-sandbox-id");
    assert_eq!(cgroup_id_from_proc_cgroup(content, 1, Ok(77)).unwrap(), CgroupId::new(77));
    let e = cgroup_path_from_proc_cgroup("1:cpu:/", 1234).unwrap_err();
    assert!(e.to_string().contains("1234"), "{}", e.to_string());
}

#[test]
fn a_token_names_the_session_that_was_opened_with_it() {
    let mut broker = Broker::new();
    let id = SandboxId::new();
    broker.open_session("token", id, Some(CgroupId::new(5)));
    assert_eq!(broker.remaining_budget("token"), Some(DEFAULT_BYTE_BUDGET));
    assert_eq!(broker.remaining_budget("other"), None);
    assert!(broker.verify_peer_cgroup("token", CgroupId::new(5)).is_ok());
    broker.record_bytes("token", DEFAULT_BYTE_BUDGET).unwrap();
    assert_eq!(broker.remaining_budget("token"), Some(0));
    assert!(broker.record_bytes("token", 1).is_err());
    broker.record_bytes("token", 0).unwrap();
    broker.revoke_session("token").unwrap();
    assert_eq!(broker.remaining_budget("token"), None);
    assert!(broker.verify_peer_cgroup("token", CgroupId::new(5)).is_err());
}

#[test]
fn sessions_are_charged_apart() {
    let mut broker = Broker::new();
    broker.open_session("a", SandboxId::new(), None);
    broker.open_session("b", SandboxId::new(), None);
    broker.record_bytes("a", 10).unwrap();
    assert_eq!(broker.remaining_budget("a"), Some(DEFAULT_BYTE_BUDGET - 10));
    assert_eq!(broker.remaining_budget("b"), Some(DEFAULT_BYTE_BUDGET));
    // A count that would wrap is a count over the budget.
    assert!(broker.record_bytes("a", u64::MAX).is_err());
    assert_eq!(broker.remaining_budget("a"), Some(DEFAULT_BYTE_BUDGET - 10));
}

#[test]
fn a_token_holds_nothing_of_the_sandbox() {
    let mut broker = Broker::new();
    let id = SandboxId::new();
    let token = broker.issue_session(id).unwrap();
    let rest = token.strip_prefix("aiv-ses-").unwrap();
    assert_eq!(rest.len(), 36);
    assert_ne!(rest, id.to_string());
}

#[test]
fn a_sandbox_acts_under_its_own_identity() {
    let id = SandboxId::new();
    let svid = SvidManager::new().unwrap().request_svid(&id).unwrap();
    assert_eq!(svid, format!("spiffe://aivisor/agent/{}", id.to_string()));
}
