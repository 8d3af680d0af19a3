use aivisor::daemon::warmpool::{Provisioned, RefillStep, WarmPool, WarmSandbox, MAX_AGE_NS};
use aivisor::daemon::{Daemon, WARM_POOL_TARGET_DEPTH, WARM_POOL_TEMPLATE};
use aivisor::error::Error;
use aivisor::id::SandboxId;
use aivisor::sandbox::WorkspaceSpec;
use aivisor::sandbox::Duration;

#[test]
fn test_warm_sandbox_is_not_clone() {
    let id = SandboxId::new();
    let ws = WarmSandbox(id);
    assert_eq!(ws.into_id(), id);
}

/// Tops a pool up with sandboxes made at a time; the `failing`-th cannot be made.
fn refill(pool: &mut WarmPool, now: u64, failing: usize) -> (Vec<SandboxId>, Result<usize, Error>) {
    let mut ids = vec![];
    let mut r = pool.refill();
    let mut last = None;
    loop {
        match r.next(pool, last.take()) {
            RefillStep::Make(asked) => {
                assert_eq!(asked.template, pool.template);
                assert_eq!(asked.timeout, Some(Duration { secs: 1800, nanos: 0 }));
                assert!(matches!(asked.workspace, WorkspaceSpec::Tmpfs { size: 268435456 }));
                if ids.len() + 1 == failing {
                    last = Some(Provisioned::Refused(Error::Timeout));
                } else {
                    ids.push(asked.id);
                    last = Some(Provisioned::Made { id: asked.id, created_ns: now });
                }
            }
            RefillStep::Done(n) => return (ids, Ok(n)),
            RefillStep::Failed(e) => return (ids, Err(e)),
        }
    }
}

#[test]
fn a_pool_is_topped_up_and_serves_each_sandbox_once() {
    let mut pool = WarmPool::new("base", 3);
    assert!(pool.acquire(0).is_none());
    assert_eq!(pool.cold_fallback_count(), 1);
    let (ids, made) = refill(&mut pool, 10, 0);
    assert_eq!(made.unwrap(), 3);
    assert_eq!(pool.depth(), 3);
    // It is full now.
    assert_eq!(refill(&mut pool, 11, 0).1.unwrap(), 0);
    for want in ids.iter().rev() {
        let got = pool.acquire(20).unwrap();
        assert_eq!(got.id(), *want);
    }
    assert!(pool.acquire(20).is_none());
    assert_eq!(pool.cold_fallback_count(), 2);
}

#[test]
fn old_sandboxes_are_not_served() {
    let mut pool = WarmPool::new("base", 2);
    refill(&mut pool, 100, 0);
    assert!(pool.acquire(100 + MAX_AGE_NS - 1).is_some());
    assert!(pool.acquire(100 + MAX_AGE_NS).is_none());
    assert_eq!(pool.depth(), 0);
}

#[test]
fn a_refill_ends_at_the_first_sandbox_that_cannot_be_made() {
    let mut pool = WarmPool::new("base", 4);
    let (ids, made) = refill(&mut pool, 0, 3);
    assert!(matches!(made, Err(Error::Timeout)));
    assert_eq!(ids.len(), 2);
    assert_eq!(pool.depth(), 2);
}

#[test]
fn a_daemon_begins_with_an_empty_pool() {
    let d = Daemon::new();
    assert_eq!(d.warm_pool.template, WARM_POOL_TEMPLATE);
    assert_eq!(d.warm_pool.target_depth, WARM_POOL_TARGET_DEPTH);
    assert_eq!(d.warm_pool.depth(), 0);
}
