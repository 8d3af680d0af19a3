//! What a sandbox is to be.
use vstd::prelude::*;

use crate::bpf::loader;
use crate::id::SandboxId;
use crate::policy_ref::PolicyRef;
use crate::text;

verus! {

/// How much of the processors a sandbox may use: so many microseconds of every period.
#[derive(Debug, Clone, Copy, PartialEq, Eq, Structural)]
pub struct CpuQuota {
    pub quota_us: u64,
    pub period_us: u64,
}

impl CpuQuota {
    /// So many microseconds of every tenth of a second.
    pub fn from_quota(quota_us: u64) -> (r: Self)
        ensures
            r == (CpuQuota { quota_us, period_us: 100_000 }),
    {
        CpuQuota { quota_us, period_us: 100_000 }
    }
}

/// How much a sandbox may read from and write to a device in a second.
#[derive(Debug, Clone, Copy, PartialEq, Eq, Structural)]
pub struct IoLimit {
    pub major: u32,
    pub minor: u32,
    pub rbps: u64,
    pub wbps: u64,
}

/// The limits of a sandbox. What is not given is not limited.
#[derive(Debug, Clone)]
pub struct ResourceLimits {
    pub cpu_max: Option<CpuQuota>,
    pub memory_high: Option<u64>,
    pub memory_max: Option<u64>,
    pub pids_max: Option<u64>,
    pub io_max: Vec<IoLimit>,
    pub swap_max: Option<u64>,
}

impl Default for ResourceLimits {
    /// No limit but that nothing is swapped out.
    fn default() -> (r: Self)
        ensures
            r.cpu_max is None,
            r.memory_high is None,
            r.memory_max is None,
            r.pids_max is None,
            r.io_max@ == Seq::<IoLimit>::empty(),
            r.swap_max == Some(0u64),
    {
        ResourceLimits {
            cpu_max: None,
            memory_high: None,
            memory_max: None,
            pids_max: None,
            io_max: Vec::new(),
            swap_max: Some(0),
        }
    }
}

/// Where a sandbox keeps its work.
#[derive(Debug, Clone)]
pub enum WorkspaceSpec {
    Tmpfs { size: u64 },
    Dir { path: String },
}

/// A span of time: whole seconds, and the nanoseconds beyond them.
#[derive(Debug, Clone, Copy, PartialEq, Eq, Structural)]
pub struct Duration {
    pub secs: u64,
    pub nanos: u32,
}

impl Duration {
    /// Whether the nanoseconds make up less than a second.
    pub open spec fn wf(&self) -> bool {
        self.nanos < 1_000_000_000
    }

    /// So many seconds.
    pub fn from_secs(secs: u64) -> (r: Self)
        ensures
            r == (Duration { secs, nanos: 0 }),
            r.wf(),
    {
        Duration { secs, nanos: 0 }
    }
}

/// Whether the names of an environment stand in their order, each of them once.
pub open spec fn names_ascend(env: Seq<(Seq<char>, Seq<char>)>) -> bool {
    forall|i: int, j: int|
        0 <= i < j < env.len() ==> text::precedes((#[trigger] env[i]).0, (#[trigger] env[j]).0)
}

/// An environment in which the names stand in their order gives each name one value.
pub proof fn a_name_has_one_value(
    env: Seq<(Seq<char>, Seq<char>)>,
    name: Seq<char>,
    v: Seq<char>,
    w: Seq<char>,
)
    requires
        names_ascend(env),
        env.contains((name, v)),
        env.contains((name, w)),
    ensures
        v == w,
{
    let i = choose|i: int| 0 <= i < env.len() && env[i] == (name, v);
    let j = choose|j: int| 0 <= j < env.len() && env[j] == (name, w);
    text::precedes_is_strict(name, name);
    if i < j {
        assert(text::precedes(env[i].0, env[j].0));
    } else if j < i {
        assert(text::precedes(env[j].0, env[i].0));
    }
}

/// A sandbox as it is asked for.
#[derive(Debug)]
pub struct SandboxSpec {
    pub id: SandboxId,
    pub template: String,
    pub limits: ResourceLimits,
    pub workspace: WorkspaceSpec,
    /// The environment, in the order of the names.
    pub env: Vec<(String, String)>,
    pub timeout: Option<Duration>,
    pub policy: Option<PolicyRef>,
}

impl SandboxSpec {
    /// Whether every name stands once in the environment, in the order of the names, and the
    /// timeout is a span of time.
    pub open spec fn wf(&self) -> bool {
        &&& names_ascend(loader::pair_texts(self.env@))
        &&& self.timeout matches Some(d) ==> d.wf()
    }

    /// Gives a name of the environment a value, in place of any that it had.
    pub fn set_env(&mut self, name: String, value: String)
        requires
            old(self).wf(),
        ensures
            final(self).wf(),
            *final(self) == (SandboxSpec { env: final(self).env, ..*old(self) }),
            forall|n: Seq<char>, v: Seq<char>|
                #![trigger loader::pair_texts(final(self).env@).contains((n, v))]
                loader::pair_texts(final(self).env@).contains((n, v)) <==> if n == name@ {
                    v == value@
                } else {
                    loader::pair_texts(old(self).env@).contains((n, v))
                },
    {
        let ghost was = *self;
        let ghost before = loader::pair_texts(self.env@);
        let ghost pair = (name@, value@);
        let mut k: usize = 0;
        while k < self.env.len() && text::comes_before(self.env[k].0.as_str(), name.as_str())
            invariant
                k <= self.env@.len(),
                *self == was,
                before == loader::pair_texts(was.env@),
                forall|j: int| 0 <= j < k ==> text::precedes((#[trigger] before[j]).0, name@),
            decreases self.env@.len() - k,
        {
            k = k + 1;
        }
        proof {
            if k < before.len() {
                text::precedes_is_total(before[k as int].0, name@);
            }
        }
        if k < self.env.len() && text::same(self.env[k].0.as_str(), name.as_str()) {
            self.env.set(k, (name, value));
            proof {
                let after = loader::pair_texts(self.env@);
                assert(after =~= before.update(k as int, pair));
                replaced(before, k as int, pair);
            }
        } else {
            self.env.insert(k, (name, value));
            proof {
                let after = loader::pair_texts(self.env@);
                assert(after =~= before.insert(k as int, pair));
                put_in(before, k as int, pair);
            }
        }
    }
}

proof fn replaced(env: Seq<(Seq<char>, Seq<char>)>, k: int, pair: (Seq<char>, Seq<char>))
    requires
        names_ascend(env),
        0 <= k < env.len(),
        env[k].0 == pair.0,
    ensures
        names_ascend(env.update(k, pair)),
        forall|n: Seq<char>, v: Seq<char>|
            #![trigger env.update(k, pair).contains((n, v))]
            env.update(k, pair).contains((n, v)) <==> if n == pair.0 {
                v == pair.1
            } else {
                env.contains((n, v))
            },
{
    let after = env.update(k, pair);
    assert(names_ascend(after)) by {
        assert forall|i: int, j: int| 0 <= i < j < after.len() implies text::precedes(
            (#[trigger] after[i]).0,
            (#[trigger] after[j]).0,
        ) by {
            assert(text::precedes(env[i].0, env[j].0));
        }
    }
    assert(after[k] == pair);
    assert forall|n: Seq<char>, v: Seq<char>| #![trigger after.contains((n, v))] after.contains((n, v)) <==> if n
        == pair.0 {
        v == pair.1
    } else {
        env.contains((n, v))
    } by {
        if n == pair.0 && after.contains((n, v)) {
            a_name_has_one_value(after, n, v, pair.1);
        }
        if n != pair.0 && after.contains((n, v)) {
            let i = choose|i: int| 0 <= i < after.len() && after[i] == (n, v);
            assert(env[i] == (n, v));
        }
        if n != pair.0 && env.contains((n, v)) {
            let i = choose|i: int| 0 <= i < env.len() && env[i] == (n, v);
            assert(after[i] == (n, v));
        }
    }
}

proof fn put_in(env: Seq<(Seq<char>, Seq<char>)>, k: int, pair: (Seq<char>, Seq<char>))
    requires
        names_ascend(env),
        0 <= k <= env.len(),
        forall|j: int| 0 <= j < k ==> text::precedes((#[trigger] env[j]).0, pair.0),
        k < env.len() ==> text::precedes(pair.0, env[k].0),
    ensures
        names_ascend(env.insert(k, pair)),
        forall|n: Seq<char>, v: Seq<char>|
            #![trigger env.insert(k, pair).contains((n, v))]
            env.insert(k, pair).contains((n, v)) <==> if n == pair.0 {
                v == pair.1
            } else {
                env.contains((n, v))
            },
{
    let after = env.insert(k, pair);
    assert(names_ascend(after)) by {
        assert forall|i: int, j: int| 0 <= i < j < after.len() implies text::precedes(
            (#[trigger] after[i]).0,
            (#[trigger] after[j]).0,
        ) by {
            if i < k && j < k {
                assert(text::precedes(env[i].0, env[j].0));
            } else if i < k && j == k {
                assert(text::precedes(env[i].0, pair.0));
            } else if i < k {
                assert(text::precedes(env[i].0, env[j - 1].0));
            } else if i == k {
                if j - 1 > k {
                    assert(text::precedes(env[k].0, env[j - 1].0));
                    text::precedes_is_transitive(pair.0, env[k].0, env[j - 1].0);
                }
            } else {
                assert(text::precedes(env[i - 1].0, env[j - 1].0));
            }
        }
    }
    assert(after[k] == pair);
    assert forall|n: Seq<char>, v: Seq<char>| #![trigger after.contains((n, v))] after.contains((n, v)) <==> if n
        == pair.0 {
        v == pair.1
    } else {
        env.contains((n, v))
    } by {
        if n == pair.0 && after.contains((n, v)) {
            a_name_has_one_value(after, n, v, pair.1);
        }
        if n != pair.0 && after.contains((n, v)) {
            let i = choose|i: int| 0 <= i < after.len() && after[i] == (n, v);
            if i < k {
                assert(env[i] == (n, v));
            } else {
                assert(env[i - 1] == (n, v));
            }
        }
        if n != pair.0 && env.contains((n, v)) {
            let i = choose|i: int| 0 <= i < env.len() && env[i] == (n, v);
            if i < k {
                assert(after[i] == (n, v));
            } else {
                assert(after[i + 1] == (n, v));
            }
        }
    }
}

} // verus!
