//! The warm pool.
use vstd::prelude::*;

use crate::error::Error;
use crate::id::SandboxId;
use crate::sandbox::Duration;
use crate::sandbox::ResourceLimits;
use crate::sandbox::SandboxSpec;
use crate::sandbox::WorkspaceSpec;

verus! {

/// How old a pooled sandbox may get, in nanoseconds.
pub const MAX_AGE_NS: u64 = 300_000_000_000;

/// The size of a pooled sandbox's workspace, in bytes.
pub const WORKSPACE_SIZE: u64 = 268_435_456;

/// How long a pooled sandbox may run, in seconds.
pub const TIMEOUT_SECS: u64 = 1800;

/// A sandbox that was taken from the pool. It can be used once: it cannot be copied, and its
/// identifier is had by giving it up.
#[derive(Debug)]
pub struct WarmSandbox(pub SandboxId);

impl WarmSandbox {
    /// The sandbox's identifier.
    pub fn id(&self) -> (r: SandboxId)
        ensures
            r == self.0,
    {
        self.0
    }

    /// The sandbox's identifier, for what is given up.
    pub fn into_id(self) -> (r: SandboxId)
        ensures
            r == self.0,
    {
        self.0
    }
}

/// A pooled sandbox, and when it was made, in nanoseconds on a clock that does not go back.
#[derive(Debug, Clone, Copy)]
pub struct PoolEntry {
    pub id: SandboxId,
    pub created_ns: u64,
}

/// Sandboxes that are made before they are asked for.
#[derive(Debug)]
pub struct WarmPool {
    pub template: String,
    pub target_depth: usize,
    pub max_age_ns: u64,
    pub entries: Vec<PoolEntry>,
    pub cold_fallback_count: u64,
}

/// How old an entry is.
pub open spec fn age(e: PoolEntry, now: u64) -> int {
    if e.created_ns > now {
        0
    } else {
        now - e.created_ns
    }
}

/// The entries that are not too old.
pub open spec fn fresh(entries: Seq<PoolEntry>, now: u64, max_age: u64) -> Seq<PoolEntry>
    decreases entries.len(),
{
    if entries.len() == 0 {
        Seq::empty()
    } else {
        let before = fresh(entries.drop_last(), now, max_age);
        if age(entries.last(), now) < max_age {
            before.push(entries.last())
        } else {
            before
        }
    }
}

/// Whether no sandbox is in the pool twice.
pub open spec fn each_once(entries: Seq<PoolEntry>) -> bool {
    forall|i: int, j: int| 0 <= i < j < entries.len() ==> (#[trigger] entries[i]).id.key() != (#[trigger] entries[j]).id.key()
}

/// Topping the pool up.
#[derive(Debug)]
pub struct Refill {
    pub wanted: usize,
    pub made: usize,
}

/// What topping up comes to.
#[derive(Debug)]
pub enum RefillStep {
    /// Make this sandbox, and say how that went.
    Make(SandboxSpec),
    /// So many sandboxes were made.
    Done(usize),
    Failed(Error),
}

/// What became of a sandbox that was to be made: when it was made, or why it was not.
#[derive(Debug)]
pub enum Provisioned {
    Made { id: SandboxId, created_ns: u64 },
    Refused(Error),
}

impl WarmPool {
    /// An empty pool.
    pub fn new(template: &str, target_depth: usize) -> (r: Self)
        ensures
            r.template@ == template@,
            r.target_depth == target_depth,
            r.max_age_ns == MAX_AGE_NS,
            r.entries@ == Seq::<PoolEntry>::empty(),
            r.cold_fallback_count == 0,
    {
        WarmPool {
            template: template.to_owned(),
            target_depth,
            max_age_ns: MAX_AGE_NS,
            entries: Vec::new(),
            cold_fallback_count: 0,
        }
    }

    /// Begins to top the pool up: as many sandboxes are wanted as the pool lacks now.
    pub fn refill(&self) -> (r: Refill)
        ensures
            r.made == 0,
            r.wanted == (if self.entries@.len() < self.target_depth {
                self.target_depth - self.entries@.len()
            } else {
                0
            }),
    {
        let have: usize = self.entries.len();
        Refill {
            wanted: if have < self.target_depth {
                self.target_depth - have
            } else {
                0
            },
            made: 0,
        }
    }

    /// A sandbox that is to go into the pool.
    fn fresh_spec(&self) -> (r: SandboxSpec)
        ensures
            r.template@ == self.template@,
            r.limits.cpu_max is None && r.limits.memory_high is None && r.limits.memory_max is None
                && r.limits.pids_max is None && r.limits.io_max@.len() == 0 && r.limits.swap_max == Some(0u64),
            r.workspace == (WorkspaceSpec::Tmpfs { size: WORKSPACE_SIZE }),
            r.env@.len() == 0,
            r.timeout == Some(Duration { secs: TIMEOUT_SECS, nanos: 0 }),
            r.wf(),
            r.policy is None,
    {
        SandboxSpec {
            id: SandboxId::new(),
            template: self.template.clone(),
            limits: ResourceLimits::default(),
            workspace: WorkspaceSpec::Tmpfs { size: WORKSPACE_SIZE },
            env: Vec::new(),
            timeout: Some(Duration::from_secs(TIMEOUT_SECS)),
            policy: None,
        }
    }

    /// Takes a sandbox from the pool: the one that was put in last. Those that are too old are
    /// dropped first. Where none is left, a sandbox has to be made the slow way.
    pub fn acquire(&mut self, now_ns: u64) -> (r: Option<WarmSandbox>)
        requires
            old(self).cold_fallback_count < u64::MAX,
        ensures
            final(self).template == old(self).template,
            final(self).target_depth == old(self).target_depth,
            final(self).max_age_ns == old(self).max_age_ns,
            ({
                let kept = fresh(old(self).entries@, now_ns, old(self).max_age_ns);
                if kept.len() == 0 {
                    r is None && final(self).entries@.len() == 0 && final(self).cold_fallback_count == old(
                        self,
                    ).cold_fallback_count + 1
                } else {
                    (r matches Some(w) && w.0 == kept.last().id) && final(self).entries@ == kept.drop_last()
                        && final(self).cold_fallback_count == old(self).cold_fallback_count
                }
            }),
    {
        let ghost all = self.entries@;
        let mut kept: Vec<PoolEntry> = Vec::new();
        let mut i: usize = 0;
        while i < self.entries.len()
            invariant
                i <= self.entries@.len(),
                all == self.entries@,
                all == old(self).entries@,
                self.max_age_ns == old(self).max_age_ns,
                self.template == old(self).template,
                self.target_depth == old(self).target_depth,
                self.cold_fallback_count == old(self).cold_fallback_count,
                kept@ == fresh(all.take(i as int), now_ns, self.max_age_ns),
            decreases self.entries@.len() - i,
        {
            let e = self.entries[i];
            proof {
                assert(all.take(i + 1).drop_last() =~= all.take(i as int));
                assert(all.take(i + 1).last() == e);
            }
            let old_by: u64 = if e.created_ns > now_ns {
                0
            } else {
                now_ns - e.created_ns
            };
            if old_by < self.max_age_ns {
                kept.push(e);
            }
            i = i + 1;
        }
        proof {
            assert(all.take(i as int) =~= all);
        }
        match kept.pop() {
            Some(e) => {
                self.entries = kept;
                Some(WarmSandbox(e.id))
            },
            None => {
                self.entries = kept;
                self.cold_fallback_count = self.cold_fallback_count + 1;
                None
            },
        }
    }

    /// How often the pool could not serve.
    pub fn cold_fallback_count(&self) -> (r: u64)
        ensures
            r == self.cold_fallback_count,
    {
        self.cold_fallback_count
    }

    /// How many sandboxes are in the pool.
    pub fn depth(&self) -> (r: usize)
        ensures
            r == self.entries@.len(),
    {
        self.entries.len()
    }
}

impl Refill {
    /// Takes what became of the last sandbox, puts it into the pool, and says what comes next. The
    /// first sandbox that cannot be made ends it; those made before stay in the pool.
    pub fn next(&mut self, pool: &mut WarmPool, last: Option<Provisioned>) -> (r: RefillStep)
        requires
            old(self).made < old(self).wanted || last !is Some,
        ensures
            final(self).wanted == old(self).wanted,
            final(pool).template == old(pool).template,
            final(pool).target_depth == old(pool).target_depth,
            final(pool).max_age_ns == old(pool).max_age_ns,
            final(pool).cold_fallback_count == old(pool).cold_fallback_count,
            match last {
                Some(Provisioned::Refused(e)) => {
                    &&& r matches RefillStep::Failed(f) && f == e
                    &&& final(pool).entries@ == old(pool).entries@
                    &&& final(self).made == old(self).made
                },
                Some(Provisioned::Made { id, created_ns }) => {
                    &&& final(pool).entries@ == old(pool).entries@.push(PoolEntry { id, created_ns })
                    &&& final(self).made == old(self).made + 1
                },
                None => final(pool).entries@ == old(pool).entries@ && final(self).made == old(self).made,
            },
            !(last matches Some(Provisioned::Refused(_))) ==> (if final(self).made < final(self).wanted {
                r matches RefillStep::Make(s) && s.template@ == old(pool).template@ && s.workspace == (
                WorkspaceSpec::Tmpfs { size: WORKSPACE_SIZE }) && s.wf() && s.timeout == Some(Duration { secs: TIMEOUT_SECS, nanos: 0 }) && s.policy is None
                    && s.env@.len() == 0 && s.limits.swap_max == Some(0u64) && s.limits.cpu_max is None
                    && s.limits.memory_high is None && s.limits.memory_max is None && s.limits.pids_max is None
                    && s.limits.io_max@.len() == 0
            } else {
                r == RefillStep::Done(final(self).made)
            }),
    {
        match last {
            Some(Provisioned::Refused(e)) => {
                return RefillStep::Failed(e);
            },
            Some(Provisioned::Made { id, created_ns }) => {
                pool.entries.push(PoolEntry { id, created_ns });
                self.made = self.made + 1;
            },
            None => {},
        }
        if self.made < self.wanted {
            RefillStep::Make(pool.fresh_spec())
        } else {
            RefillStep::Done(self.made)
        }
    }
}

proof fn fresh_is_part(entries: Seq<PoolEntry>, now: u64, max_age: u64, i: int) -> (k: int)
    requires
        0 <= i < fresh(entries, now, max_age).len(),
    ensures
        i <= k < entries.len(),
        fresh(entries, now, max_age)[i] == entries[k],
        age(entries[k], now) < max_age,
    decreases entries.len(),
{
    let before = fresh(entries.drop_last(), now, max_age);
    if i < before.len() {
        let k = fresh_is_part(entries.drop_last(), now, max_age, i);
        k
    } else {
        fresh_is_short(entries.drop_last(), now, max_age);
        entries.len() - 1
    }
}

proof fn fresh_is_short(entries: Seq<PoolEntry>, now: u64, max_age: u64)
    ensures
        fresh(entries, now, max_age).len() <= entries.len(),
    decreases entries.len(),
{
    if entries.len() > 0 {
        fresh_is_short(entries.drop_last(), now, max_age);
    }
}

proof fn fresh_keeps_each_once(entries: Seq<PoolEntry>, now: u64, max_age: u64)
    requires
        each_once(entries),
    ensures
        each_once(fresh(entries, now, max_age)),
    decreases entries.len(),
{
    if entries.len() > 0 {
        let front = entries.drop_last();
        assert(each_once(front)) by {
            assert forall|i: int, j: int| 0 <= i < j < front.len() implies (#[trigger] front[i]).id.key() != (
            #[trigger] front[j]).id.key() by {
                assert(entries[i].id.key() != entries[j].id.key());
            }
        }
        fresh_keeps_each_once(front, now, max_age);
        let before = fresh(front, now, max_age);
        let all = fresh(entries, now, max_age);
        assert forall|i: int, j: int| 0 <= i < j < all.len() implies (#[trigger] all[i]).id.key() != (#[trigger] all[j]).id.key() by {
            if j == before.len() {
                let k = fresh_is_part(front, now, max_age, i);
                assert(entries[k].id.key() != entries[entries.len() - 1].id.key());
            }
        }
    }
}

/// A sandbox that was taken from the pool is not in it any more: no second caller gets it. Nor does
/// a caller get one that is too old.
pub proof fn a_pooled_sandbox_serves_once(entries: Seq<PoolEntry>, now: u64, max_age: u64, i: int)
    requires
        each_once(entries),
        fresh(entries, now, max_age).len() > 0,
        0 <= i < fresh(entries, now, max_age).drop_last().len(),
    ensures
        each_once(fresh(entries, now, max_age).drop_last()),
        fresh(entries, now, max_age).drop_last()[i].id.key() != fresh(entries, now, max_age).last().id.key(),
        age(fresh(entries, now, max_age).last(), now) < max_age,
{
    fresh_keeps_each_once(entries, now, max_age);
    let kept = fresh(entries, now, max_age);
    let k = fresh_is_part(entries, now, max_age, kept.len() - 1);
    assert(kept.drop_last()[i] == kept[i]);
    assert(kept[i].id.key() != kept[kept.len() - 1].id.key());
    assert forall|a: int, b: int| 0 <= a < b < kept.drop_last().len() implies (#[trigger] kept.drop_last()[a]).id.key()
        != (#[trigger] kept.drop_last()[b]).id.key() by {
        assert(kept[a].id.key() != kept[b].id.key());
    }
}

} // verus!
