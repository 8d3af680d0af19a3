//! The cgroup of a sandbox.
use vstd::prelude::*;

use crate::error::Error;
use crate::error::ErrorModel;
use crate::id::CgroupId;
use crate::id::SandboxId;
use crate::number;
use crate::paths;
use crate::policy::compile;
use crate::runtime::plan::Act;
use crate::runtime::plan::ActModel;
use crate::runtime::plan::Blame;
use crate::runtime::plan::Step;
use crate::runtime::plan::StepModel;
use crate::sandbox::IoLimit;
use crate::sandbox::ResourceLimits;
use crate::text;

verus! {

/// How long a dying cgroup is waited for, in milliseconds.
pub const EMPTY_TIMEOUT_MS: u64 = 2000;

/// A cgroup: its directory, and the number that the kernel knows it by.
#[derive(Debug)]
pub struct Cgroup {
    pub path: String,
    pub id: CgroupId,
}

#[verifier::ext_equal]
pub struct CgroupModel {
    pub path: Seq<char>,
    pub id: CgroupId,
}

impl View for Cgroup {
    type V = CgroupModel;

    open spec fn view(&self) -> CgroupModel {
        CgroupModel { path: self.path@, id: self.id }
    }
}

/// What a cgroup uses at the moment.
#[derive(Debug)]
pub struct CgroupStats {
    pub memory_current: Option<u64>,
    pub pids_current: Option<u64>,
    pub cpu_stat: Option<String>,
}

/// What a cgroup had to wait for.
#[derive(Debug)]
pub struct Psi {
    pub cpu_pressure: Option<String>,
    pub memory_pressure: Option<String>,
}

/// What happened to a cgroup.
#[derive(Debug, Clone, Copy, PartialEq, Eq, Structural)]
pub struct EventStream {
    pub oom_kill: bool,
}

/// A step that a failed cgroup setup is blamed on.
pub open spec fn cgroup_step(act: ActModel, lead: Seq<char>) -> StepModel {
    StepModel { act, blame: Blame::Cgroup, lead, invalid_ok: false }
}

/// Hands controllers down to the cgroups of the sandboxes. Those that keep a sandbox from
/// exhausting the host have to be handed down; the one for devices only where it is there.
pub open spec fn delegate_steps(subtree: Seq<char>) -> Seq<StepModel> {
    seq![
        cgroup_step(
            ActModel::Find(subtree),
            "cgroup.subtree_control missing under aivisor cgroup root — cgroup v2 delegation not available"@,
        ),
        cgroup_step(ActModel::WriteFile { path: subtree, contents: "+cpu"@ }, "delegate controller +cpu: "@),
        cgroup_step(ActModel::WriteFile { path: subtree, contents: "+memory"@ }, "delegate controller +memory: "@),
        cgroup_step(ActModel::WriteFile { path: subtree, contents: "+pids"@ }, "delegate controller +pids: "@),
        StepModel {
            act: ActModel::WriteFile { path: subtree, contents: "+io"@ },
            blame: Blame::Nobody,
            lead: ""@,
            invalid_ok: false,
        },
    ]
}

/// The cgroup that holds those of the sandboxes.
pub open spec fn parent_of_all(root: Seq<char>) -> Seq<char> {
    paths::joined(root, "aivisor"@)
}

/// The cgroup of a sandbox.
pub open spec fn path_for(root: Seq<char>, id: Seq<char>) -> Seq<char> {
    paths::joined(parent_of_all(root), id)
}

/// Makes the cgroup of a sandbox, and learns its number.
pub open spec fn create_steps(root: Seq<char>, id: Seq<char>) -> Seq<StepModel> {
    let path = path_for(root, id);
    seq![
        cgroup_step(ActModel::MakeDirs(parent_of_all(root)), "failed to create aivisor cgroup root: "@),
    ] + delegate_steps(paths::joined(parent_of_all(root), "cgroup.subtree_control"@)) + seq![
        cgroup_step(ActModel::MakeDir(path), "failed to create sandbox cgroup: "@),
        cgroup_step(ActModel::OpenDir(path), "failed to open cgroup dir fd: "@),
        cgroup_step(ActModel::ReadInode(path), "stat cgroup dir: "@),
    ]
}

/// A limit: the file it is written to, and what is written.
pub open spec fn limit(name: Seq<char>, value: Seq<char>) -> Seq<(Seq<char>, Seq<char>)> {
    seq![(name, value)]
}

/// A limit that is a number, where it is given.
pub open spec fn number_limit(name: Seq<char>, value: Option<u64>) -> Seq<(Seq<char>, Seq<char>)> {
    match value {
        Some(n) => limit(name, number::decimal(n as nat)),
        None => Seq::empty(),
    }
}

/// Nine tenths of a limit, for a limit whose ninefold is a number of the machine.
pub open spec fn nine_tenths(max: u64) -> u64 {
    if max * 9 <= u64::MAX {
        (max * 9 / 10) as u64
    } else {
        u64::MAX / 10
    }
}

/// Where reclaim begins: where it is said, else at nine tenths of the hard limit.
pub open spec fn memory_high(l: ResourceLimits) -> Option<u64> {
    match l.memory_high {
        Some(h) => Some(h),
        None => match l.memory_max {
            Some(m) => Some(nine_tenths(m)),
            None => None,
        },
    }
}

/// What is written for a limit on a device.
pub open spec fn io_text(io: IoLimit) -> Seq<char> {
    number::decimal(io.major as nat) + ":"@ + number::decimal(io.minor as nat) + " rbps="@ + number::decimal(
        io.rbps as nat,
    ) + " wbps="@ + number::decimal(io.wbps as nat)
}

/// The limits in the order in which they are written.
pub open spec fn limit_writes(l: ResourceLimits) -> Seq<(Seq<char>, Seq<char>)> {
    (match l.cpu_max {
        Some(q) => limit(
            "cpu.max"@,
            number::decimal(q.quota_us as nat) + " "@ + number::decimal(q.period_us as nat),
        ),
        None => Seq::empty(),
    }) + number_limit("memory.high"@, memory_high(l)) + number_limit("memory.max"@, l.memory_max) + number_limit(
        "pids.max"@,
        l.pids_max,
    ) + number_limit("memory.swap.max"@, l.swap_max) + Seq::new(
        l.io_max@.len(),
        |i: int| ("io.max"@, io_text(l.io_max@[i])),
    )
}

/// Writes a limit of a cgroup.
pub open spec fn limit_step(path: Seq<char>, w: (Seq<char>, Seq<char>)) -> StepModel {
    StepModel {
        act: ActModel::WriteFile { path: paths::joined(path, w.0), contents: w.1 },
        blame: Blame::Io,
        lead: ""@,
        invalid_ok: false,
    }
}

/// Writes the limits of a cgroup.
pub open spec fn apply_steps(path: Seq<char>, l: ResourceLimits) -> Seq<StepModel> {
    limit_writes(l).map_values(|w: (Seq<char>, Seq<char>)| limit_step(path, w))
}

fn push_cgroup(out: &mut Vec<Step>, act: Act, lead: &str)
    ensures
        compile::views(final(out)@) == compile::views(old(out)@).push(cgroup_step(act@, lead@)),
{
    let ghost done = compile::views(out@);
    out.push(Step::new(act, Blame::Cgroup, lead));
    proof {
        assert(compile::views(out@) =~= done.push(cgroup_step(act@, lead@)));
    }
}

fn push_limit(out: &mut Vec<Step>, path: &str, name: &str, value: &str)
    ensures
        compile::views(final(out)@) == compile::views(old(out)@) + limit(name@, value@).map_values(
            |w: (Seq<char>, Seq<char>)| limit_step(path@, w),
        ),
{
    let ghost done = compile::views(out@);
    out.push(
        Step::new(
            Act::WriteFile { path: paths::join(path, name), contents: value.to_owned() },
            Blame::Io,
            "",
        ),
    );
    proof {
        let own = limit(name@, value@).map_values(|w: (Seq<char>, Seq<char>)| limit_step(path@, w));
        assert(own =~= seq![limit_step(path@, (name@, value@))]);
        assert(compile::views(out@) =~= done + own);
    }
}

fn push_number(out: &mut Vec<Step>, path: &str, name: &str, value: Option<u64>)
    ensures
        compile::views(final(out)@) == compile::views(old(out)@) + number_limit(name@, value).map_values(
            |w: (Seq<char>, Seq<char>)| limit_step(path@, w),
        ),
{
    match value {
        Some(n) => {
            push_limit(out, path, name, number::format_u64(n).as_str());
        },
        None => {
            proof {
                let own = number_limit(name@, value).map_values(|w: (Seq<char>, Seq<char>)| limit_step(path@, w));
                assert(own =~= Seq::<StepModel>::empty());
                assert(compile::views(out@) + own =~= compile::views(out@));
            }
        },
    }
}

/// How to hand controllers down to the cgroups of the sandboxes.
fn delegate_controllers(subtree: &str) -> (r: Vec<Step>)
    ensures
        compile::views(r@) == delegate_steps(subtree@),
{
    let mut v: Vec<Step> = Vec::new();
    push_cgroup(
        &mut v,
        Act::Find(subtree.to_owned()),
        "cgroup.subtree_control missing under aivisor cgroup root — cgroup v2 delegation not available",
    );
    push_cgroup(
        &mut v,
        Act::WriteFile { path: subtree.to_owned(), contents: "+cpu".to_owned() },
        "delegate controller +cpu: ",
    );
    push_cgroup(
        &mut v,
        Act::WriteFile { path: subtree.to_owned(), contents: "+memory".to_owned() },
        "delegate controller +memory: ",
    );
    push_cgroup(
        &mut v,
        Act::WriteFile { path: subtree.to_owned(), contents: "+pids".to_owned() },
        "delegate controller +pids: ",
    );
    let ghost done = compile::views(v@);
    v.push(Step::new(Act::WriteFile { path: subtree.to_owned(), contents: "+io".to_owned() }, Blame::Nobody, ""));
    proof {
        assert(compile::views(v@) =~= done.push(delegate_steps(subtree@)[4]));
        assert(compile::views(v@) =~= delegate_steps(subtree@));
    }
    v
}

/// The number that a file of one number holds.
pub open spec fn number_in(contents: Option<Seq<char>>) -> Option<u64> {
    match contents {
        Some(s) => match number::parsed(text::trimmed(s), u64::MAX as nat) {
            Some(n) => Some(n as u64),
            None => None,
        },
        None => None,
    }
}

fn read_u64(contents: &Option<String>) -> (r: Option<u64>)
    ensures
        r == number_in(text::opt(*contents)),
{
    match contents {
        Some(s) => number::parse_u64(text::trim(s.as_str()).as_str()),
        None => None,
    }
}

/// Whether a line tells of processes that were killed for want of memory.
pub open spec fn tells_of_kills(line: Seq<char>) -> bool {
    let words = text::words_of(line);
    words.len() > 1 && (match number::parsed(words[1], u64::MAX as nat) {
        Some(n) => n > 0,
        None => false,
    })
}

/// What the last line on kills says; nothing was killed where there is none.
pub open spec fn kills_in(lines: Seq<Seq<char>>) -> bool
    decreases lines.len(),
{
    if lines.len() == 0 {
        false
    } else if "oom_kill"@.is_prefix_of(lines.last()) {
        tells_of_kills(lines.last())
    } else {
        kills_in(lines.drop_last())
    }
}

/// Whether one of the lines says that processes are left.
pub open spec fn populated(lines: Seq<Seq<char>>) -> bool {
    exists|i: int|
        0 <= i < lines.len() && "populated "@.is_prefix_of(#[trigger] lines[i]) && "1"@.is_suffix_of(lines[i])
}

/// The processes to kill before the first line that is no number, and whether there is such a
/// line. A number that names no single process is passed over.
pub open spec fn pids_in(lines: Seq<Seq<char>>) -> (Seq<int>, bool)
    decreases lines.len(),
{
    if lines.len() == 0 {
        (Seq::empty(), true)
    } else {
        let (before, well) = pids_in(lines.drop_last());
        if !well {
            (before, false)
        } else {
            match number::parsed_i32(text::trimmed(lines.last())) {
                Some(pid) => if pid > 0 {
                    (before.push(pid), true)
                } else {
                    (before, true)
                },
                None => (before, false),
            }
        }
    }
}

/// The numbers of a list.
pub open spec fn as_ints(v: Seq<i32>) -> Seq<int> {
    Seq::new(v.len(), |i: int| v[i] as int)
}

/// The processes to kill before the first line that is no number, and whether there is no such
/// line.
fn listed_pids(procs: &str) -> (r: (Vec<i32>, bool))
    ensures
        (as_ints(r.0@), r.1) == pids_in(text::lines_of(procs@)),
{
    let lines = text::lines(procs);
    let ghost all = text::texts(lines@);
    let mut pids: Vec<i32> = Vec::new();
    let mut i: usize = 0;
    proof {
        assert(as_ints(pids@) =~= Seq::<int>::empty());
        assert(all.take(0) =~= Seq::<Seq<char>>::empty());
    }
    while i < lines.len()
        invariant
            i <= lines@.len(),
            all == text::texts(lines@),
            all == text::lines_of(procs@),
            pids_in(all.take(i as int)) == (as_ints(pids@), true),
        decreases lines@.len() - i,
    {
        let ghost done = as_ints(pids@);
        proof {
            assert(all.take(i + 1).drop_last() =~= all.take(i as int));
            assert(all.take(i + 1).last() == lines@[i as int]@);
        }
        match number::parse_i32(text::trim(lines[i].as_str()).as_str()) {
            Some(pid) => {
                if pid > 0 {
                    pids.push(pid);
                    proof {
                        assert(as_ints(pids@) =~= done.push(pid as int));
                    }
                }
            },
            None => {
                proof {
                    pids_in_stuck(all, i as int);
                }
                return (pids, false);
            },
        }
        i = i + 1;
    }
    proof {
        assert(all.take(i as int) =~= all);
    }
    (pids, true)
}

/// Whether a line says that processes are left.
fn says_populated(events: &str) -> (r: bool)
    ensures
        r == populated(text::lines_of(events@)),
{
    let lines = text::lines(events);
    let ghost all = text::texts(lines@);
    let mut i: usize = 0;
    while i < lines.len()
        invariant
            i <= lines@.len(),
            all == text::texts(lines@),
            all == text::lines_of(events@),
            forall|k: int|
                0 <= k < i ==> !("populated "@.is_prefix_of(#[trigger] all[k]) && "1"@.is_suffix_of(all[k])),
        decreases lines@.len() - i,
    {
        proof {
            assert(all[i as int] == lines@[i as int]@);
        }
        if text::starts_with(lines[i].as_str(), "populated ") && text::ends_with(lines[i].as_str(), "1") {
            return true;
        }
        i = i + 1;
    }
    false
}

/// How the processes of a cgroup are killed.
#[derive(Debug)]
pub enum Killing {
    /// All at once, by this step.
    Whole(Step),
    /// One by one; the error comes once these are killed.
    Each { pids: Vec<i32>, then: Result<(), Error> },
}

/// What waiting for a cgroup to empty came to.
#[derive(Debug)]
pub enum EmptyWait {
    Again,
    Empty,
    Failed(Error),
}

impl Cgroup {
    /// The directory of a sandbox's cgroup, and how to make it. The last step gives its number.
    pub fn create(root: &str, id: &SandboxId) -> (r: (String, Vec<Step>))
        ensures
            r.0@ == path_for(root@, id.shown()),
            compile::views(r.1@) == create_steps(root@, id.shown()),
    {
        let above = paths::join(root, "aivisor");
        let path = paths::join(above.as_str(), id.to_string().as_str());
        let subtree = paths::join(above.as_str(), "cgroup.subtree_control");
        let mut v: Vec<Step> = Vec::new();
        push_cgroup(&mut v, Act::MakeDirs(above), "failed to create aivisor cgroup root: ");
        let ghost done = compile::views(v@);
        let mut more = delegate_controllers(subtree.as_str());
        let ghost extra = compile::views(more@);
        v.append(&mut more);
        proof {
            assert(compile::views(v@) =~= done + extra);
        }
        push_cgroup(&mut v, Act::MakeDir(path.clone()), "failed to create sandbox cgroup: ");
        push_cgroup(&mut v, Act::OpenDir(path.clone()), "failed to open cgroup dir fd: ");
        push_cgroup(&mut v, Act::ReadInode(path.clone()), "stat cgroup dir: ");
        proof {
            assert(compile::views(v@) =~= create_steps(root@, id.shown()));
        }
        (path, v)
    }

    /// How to put the cgroup under limits.
    pub fn apply(&self, limits: &ResourceLimits) -> (r: Vec<Step>)
        ensures
            compile::views(r@) == apply_steps(self.path@, *limits),
    {
        let mut v: Vec<Step> = Vec::new();
        let ghost steps = |w: (Seq<char>, Seq<char>)| limit_step(self.path@, w);
        let ghost mut writes = Seq::<(Seq<char>, Seq<char>)>::empty();
        if let Some(cpu) = &limits.cpu_max {
            let q = number::format_u64(cpu.quota_us);
            let p = number::format_u64(cpu.period_us);
            let value = text::cat3(q.as_str(), " ", p.as_str());
            push_limit(&mut v, self.path.as_str(), "cpu.max", value.as_str());
            proof {
                writes = limit("cpu.max"@, value@);
            }
        }
        proof {
            assert(compile::views(v@) =~= writes.map_values(steps));
        }
        let high: Option<u64> = match limits.memory_high {
            Some(h) => Some(h),
            None => match limits.memory_max {
                Some(m) => Some(
                    match m.checked_mul(9) {
                        Some(n) => n / 10,
                        None => u64::MAX / 10,
                    },
                ),
                None => None,
            },
        };
        proof {
            assert(high == memory_high(*limits));
        }
        push_number(&mut v, self.path.as_str(), "memory.high", high);
        push_number(&mut v, self.path.as_str(), "memory.max", limits.memory_max);
        push_number(&mut v, self.path.as_str(), "pids.max", limits.pids_max);
        push_number(&mut v, self.path.as_str(), "memory.swap.max", limits.swap_max);
        let ghost all = limit_writes(*limits);
        let ghost lead = all.len() - limits.io_max@.len();
        proof {
            assert(compile::views(v@) =~= all.take(lead).map_values(steps));
        }
        let mut i: usize = 0;
        while i < limits.io_max.len()
            invariant
                i <= limits.io_max@.len(),
                all == limit_writes(*limits),
                lead == all.len() - limits.io_max@.len(),
                steps == (|w: (Seq<char>, Seq<char>)| limit_step(self.path@, w)),
                compile::views(v@) == all.take(lead + i).map_values(steps),
            decreases limits.io_max@.len() - i,
        {
            let io = limits.io_max[i];
            let major = number::format_u64(io.major as u64);
            let minor = number::format_u64(io.minor as u64);
            let rbps = number::format_u64(io.rbps);
            let wbps = number::format_u64(io.wbps);
            let mut value = text::cat5(major.as_str(), ":", minor.as_str(), " rbps=", rbps.as_str());
            value.append(" wbps=");
            value.append(wbps.as_str());
            let ghost done = compile::views(v@);
            push_limit(&mut v, self.path.as_str(), "io.max", value.as_str());
            proof {
                assert(all[lead + i] == ("io.max"@, io_text(io)));
                assert(compile::views(v@) =~= all.take(lead + i + 1).map_values(steps));
            }
            i = i + 1;
        }
        proof {
            assert(all.take(lead + i) =~= all);
        }
        v
    }

    /// How to stop the cgroup's processes.
    pub fn freeze(&self) -> (r: Step)
        ensures
            r@ == cgroup_step(
                ActModel::WriteFile { path: paths::joined(self.path@, "cgroup.freeze"@), contents: "1"@ },
                "freeze failed: "@,
            ),
    {
        Step::new(
            Act::WriteFile { path: paths::join(self.path.as_str(), "cgroup.freeze"), contents: "1".to_owned() },
            Blame::Cgroup,
            "freeze failed: ",
        )
    }

    /// How to let the cgroup's processes go on.
    pub fn thaw(&self) -> (r: Step)
        ensures
            r@ == cgroup_step(
                ActModel::WriteFile { path: paths::joined(self.path@, "cgroup.freeze"@), contents: "0"@ },
                "thaw failed: "@,
            ),
    {
        Step::new(
            Act::WriteFile { path: paths::join(self.path.as_str(), "cgroup.freeze"), contents: "0".to_owned() },
            Blame::Cgroup,
            "thaw failed: ",
        )
    }

    /// How to kill the cgroup's processes: all at once where the kernel can, else one by one from
    /// the list of them.
    pub fn kill_all(&self, has_kill: bool, procs: &Result<String, String>) -> (r: Result<Killing, Error>)
        ensures
            has_kill ==> (r matches Ok(Killing::Whole(s)) && s@ == cgroup_step(
                ActModel::WriteFile { path: paths::joined(self.path@, "cgroup.kill"@), contents: "1"@ },
                "cgroup.kill failed: "@,
            )),
            !has_kill ==> match *procs {
                Err(m) => r matches Err(e) && e@ == ErrorModel::CgroupSetup("read cgroup.procs failed: "@ + m@),
                Ok(s) => {
                    let (pids, well) = pids_in(text::lines_of(s@));
                    r matches Ok(Killing::Each { pids: got, then }) && as_ints(got@) == pids && (if well {
                        then is Ok
                    } else {
                        then matches Err(e) && e@ == ErrorModel::CgroupSetup("invalid pid in cgroup.procs"@)
                    })
                },
            },
    {
        if has_kill {
            return Ok(
                Killing::Whole(
                    Step::new(
                        Act::WriteFile { path: paths::join(self.path.as_str(), "cgroup.kill"), contents: "1".to_owned() },
                        Blame::Cgroup,
                        "cgroup.kill failed: ",
                    ),
                ),
            );
        }
        match procs {
            Err(m) => {
                let mut t = "read cgroup.procs failed: ".to_owned();
                t.append(m.as_str());
                Err(Error::CgroupSetup(t))
            },
            Ok(s) => {
                let (pids, well) = listed_pids(s.as_str());
                if well {
                    Ok(Killing::Each { pids, then: Ok(()) })
                } else {
                    Ok(
                        Killing::Each {
                            pids,
                            then: Err(Error::CgroupSetup("invalid pid in cgroup.procs".to_owned())),
                        },
                    )
                }
            },
        }
    }

    /// What the cgroup uses, from the files that could be read.
    pub fn stats(
        memory_current: &Option<String>,
        pids_current: &Option<String>,
        cpu_stat: Option<String>,
    ) -> (r: Result<CgroupStats, Error>)
        ensures
            r matches Ok(s) && s.memory_current == number_in(text::opt(*memory_current)) && s.pids_current
                == number_in(text::opt(*pids_current)) && s.cpu_stat == cpu_stat,
    {
        Ok(
            CgroupStats {
                memory_current: read_u64(memory_current),
                pids_current: read_u64(pids_current),
                cpu_stat,
            },
        )
    }

    /// What the cgroup had to wait for, from the files that could be read.
    pub fn pressure(cpu: Option<String>, memory: Option<String>) -> (r: Result<Psi, Error>)
        ensures
            r matches Ok(p) && p.cpu_pressure == cpu && p.memory_pressure == memory,
    {
        Ok(Psi { cpu_pressure: cpu, memory_pressure: memory })
    }

    /// What happened to the cgroup, from its `memory.events`.
    pub fn events(contents: &Result<String, String>) -> (r: Result<EventStream, Error>)
        ensures
            match *contents {
                Ok(s) => r matches Ok(e) && e.oom_kill == kills_in(text::lines_of(s@)),
                Err(m) => r matches Err(e) && e@ == ErrorModel::CgroupSetup("read memory.events: "@ + m@),
            },
    {
        match contents {
            Err(m) => {
                let mut t = "read memory.events: ".to_owned();
                t.append(m.as_str());
                Err(Error::CgroupSetup(t))
            },
            Ok(s) => {
                let lines = text::lines(s.as_str());
                let ghost all = text::texts(lines@);
                let mut oom_kill: bool = false;
                let mut i: usize = 0;
                while i < lines.len()
                    invariant
                        i <= lines@.len(),
                        all == text::texts(lines@),
                        oom_kill == kills_in(all.take(i as int)),
                    decreases lines@.len() - i,
                {
                    proof {
                        assert(all.take(i + 1).drop_last() =~= all.take(i as int));
                        assert(all.take(i + 1).last() == lines@[i as int]@);
                    }
                    if text::starts_with(lines[i].as_str(), "oom_kill") {
                        let words = text::split_whitespace(lines[i].as_str());
                        let mut value: u64 = 0;
                        if words.len() > 1 {
                            proof {
                                assert(text::texts(words@)[1] == words@[1]@);
                            }
                            if let Some(n) = number::parse_u64(words[1].as_str()) {
                                value = n;
                            }
                        }
                        oom_kill = value > 0;
                    }
                    i = i + 1;
                }
                proof {
                    assert(all.take(i as int) =~= all);
                }
                Ok(EventStream { oom_kill })
            },
        }
    }

    /// How to remove the cgroup: kill what is in it, wait until it is empty, remove it.
    pub fn destroy(&self) -> (r: Vec<Step>)
        ensures
            compile::views(r@) == destroy_steps(self.path@),
    {
        let mut v: Vec<Step> = Vec::new();
        push_cgroup(&mut v, Act::KillCgroup(self.path.clone()), "");
        push_cgroup(&mut v, Act::AwaitEmpty(paths::join(self.path.as_str(), "cgroup.events")), "");
        push_cgroup(&mut v, Act::RemoveDir(self.path.clone()), "rmdir cgroup: ");
        proof {
            assert(compile::views(v@) =~= destroy_steps(self.path@));
        }
        v
    }
}

/// Kills what is in a cgroup, waits until it is empty, and removes it.
pub open spec fn destroy_steps(path: Seq<char>) -> Seq<StepModel> {
    seq![
        cgroup_step(ActModel::KillCgroup(path), ""@),
        cgroup_step(ActModel::AwaitEmpty(paths::joined(path, "cgroup.events"@)), ""@),
        cgroup_step(ActModel::RemoveDir(path), "rmdir cgroup: "@),
    ]
}

proof fn pids_in_stuck(lines: Seq<Seq<char>>, i: int)
    requires
        0 <= i < lines.len(),
        !pids_in(lines.take(i + 1)).1,
    ensures
        pids_in(lines) == pids_in(lines.take(i + 1)),
    decreases lines.len(),
{
    if i + 1 < lines.len() {
        assert(lines.drop_last().take(i + 1) =~= lines.take(i + 1));
        pids_in_stuck(lines.drop_last(), i);
    } else {
        assert(lines.take(i + 1) =~= lines);
    }
}

/// Whether a cgroup is empty yet, from the time waited so far and its `cgroup.events`. Once the
/// time is over, what the file says does not matter.
pub fn wait_for_empty(elapsed_ms: u64, timeout_ms: u64, events: &Result<String, String>) -> (r: EmptyWait)
    ensures
        elapsed_ms > timeout_ms ==> (r matches EmptyWait::Failed(e) && e@ == ErrorModel::CgroupSetup(
            "timeout waiting for cgroup to become empty"@,
        )),
        elapsed_ms <= timeout_ms ==> match *events {
            Err(m) => r matches EmptyWait::Failed(e) && e@ == ErrorModel::CgroupSetup("read cgroup.events: "@ + m@),
            Ok(s) => if populated(text::lines_of(s@)) {
                r is Again
            } else {
                r is Empty
            },
        },
{
    if elapsed_ms > timeout_ms {
        return EmptyWait::Failed(Error::CgroupSetup("timeout waiting for cgroup to become empty".to_owned()));
    }
    match events {
        Err(m) => {
            let mut t = "read cgroup.events: ".to_owned();
            t.append(m.as_str());
            EmptyWait::Failed(Error::CgroupSetup(t))
        },
        Ok(s) => {
            if says_populated(s.as_str()) {
                EmptyWait::Again
            } else {
                EmptyWait::Empty
            }
        },
    }
}

/// A sandbox with a hard memory limit has a soft one no higher, unless it is given one.
pub proof fn soft_limit_below_hard(l: ResourceLimits)
    requires
        l.memory_max is Some,
        l.memory_high is None,
    ensures
        memory_high(l) is Some,
        memory_high(l)->0 <= l.memory_max->0,
{
}

} // verus!
