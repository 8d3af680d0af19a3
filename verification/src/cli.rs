//! The command line: what its arguments mean, and what it prints.
use vstd::prelude::*;

use crate::error;
use crate::error::Error;
use crate::id::SandboxId;
use crate::number;
use crate::policy::compile::Policy;
use crate::policy_ref::PolicyRef;
use crate::runtime::manager::SandboxSummary;
use crate::runtime::probe::KernelCaps;
use crate::sandbox::CpuQuota;
use crate::sandbox::Duration;
use crate::sandbox::ResourceLimits;
use crate::sandbox::SandboxSpec;
use crate::sandbox::WorkspaceSpec;
use crate::state::SandboxState;
use crate::text;

verus! {

/// The name under which a policy given on the command line is registered.
pub const CLI_POLICY_NAME: &'static str = "cli-policy";

/// The size of a workspace for which none is given, in bytes.
pub const DEFAULT_WORKSPACE: u64 = 1073741824;

/// The directory of the runtime's state.
pub const STATE_DIR: &'static str = "/run/aivisor";

/// The seconds in the unit that a duration ends with, and the number before it.
pub open spec fn duration_parts(s: Seq<char>) -> Option<(Seq<char>, nat)> {
    if s.len() == 0 {
        None
    } else if s.last() == 's' {
        Some((s.drop_last(), 1))
    } else if s.last() == 'm' {
        Some((s.drop_last(), 60))
    } else if s.last() == 'h' {
        Some((s.drop_last(), 3600))
    } else {
        None
    }
}

/// The seconds that a duration writes: a number and its unit, with white space around them.
pub open spec fn duration_of(s: Seq<char>) -> Option<nat> {
    match duration_parts(text::trimmed(s)) {
        Some((digits, unit)) => match number::parsed(digits, u64::MAX as nat) {
            Some(n) => Some(n * unit),
            None => None,
        },
        None => None,
    }
}

/// Whether a duration is none, or one that can be counted in seconds.
pub open spec fn duration_fits(s: Seq<char>) -> bool {
    match duration_of(s) {
        Some(n) => n <= u64::MAX,
        None => true,
    }
}

fn duration_number(s: &str) -> (r: Option<(u64, u64)>)
    ensures
        r is Some <==> duration_of(s@) is Some,
        r matches Some(p) ==> p.0 * p.1 == duration_of(s@)->0 && 1 <= p.1 <= 3600,
{
    let t = text::trim(s);
    let chars = text::chars_of(t.as_str());
    let n: usize = chars.len();
    if n == 0 {
        return None;
    }
    let last: char = chars[n - 1];
    let unit: u64 = if last == 's' {
        1
    } else if last == 'm' {
        60
    } else if last == 'h' {
        3600
    } else {
        return None;
    };
    let digits = text::text_of(&chars, 0, n - 1);
    proof {
        assert(digits@ =~= text::trimmed(s@).drop_last());
    }
    match number::parse_u64(digits.as_str()) {
        Some(v) => Some((v, unit)),
        None => None,
    }
}

/// Whether a duration is none, or one that can be counted in seconds.
pub fn fits_duration(s: &str) -> (r: bool)
    ensures
        r == duration_fits(s@),
{
    match duration_number(s) {
        Some((n, unit)) => n.checked_mul(unit).is_some(),
        None => true,
    }
}

/// The span of time that a duration writes.
pub fn parse_duration(s: &str) -> (r: Result<Duration, String>)
    requires
        duration_fits(s@),
    ensures
        match duration_of(s@) {
            Some(n) => r matches Ok(v) && v == (Duration { secs: n as u64, nanos: 0 }),
            None => r matches Err(m) && m@ == "invalid duration: "@ + text::trimmed(s@),
        },
{
    match duration_number(s) {
        Some((n, unit)) => Ok(Duration::from_secs(n * unit)),
        None => {
            let mut m = "invalid duration: ".to_owned();
            m.append(text::trim(s).as_str());
            Err(m)
        },
    }
}

/// A size without white space around it: the number, and the bytes in its unit.
pub open spec fn size_parts(s: Seq<char>) -> (Seq<char>, u64) {
    let t = text::trimmed(s);
    if "Gi"@.is_suffix_of(t) {
        (t.take(t.len() - 2), 1073741824)
    } else if "Mi"@.is_suffix_of(t) {
        (t.take(t.len() - 2), 1048576)
    } else if "Ki"@.is_suffix_of(t) {
        (t.take(t.len() - 2), 1024)
    } else if "G"@.is_suffix_of(t) {
        (t.take(t.len() - 1), 1000000000)
    } else if "M"@.is_suffix_of(t) {
        (t.take(t.len() - 1), 1000000)
    } else if "K"@.is_suffix_of(t) {
        (t.take(t.len() - 1), 1000)
    } else {
        (t, 1)
    }
}

/// The number of a size, and the bytes in its unit.
pub fn split_size(s: &str) -> (r: (String, u64))
    ensures
        (r.0@, r.1) == size_parts(s@),
{
    let t = text::trim(s);
    let chars = text::chars_of(t.as_str());
    let n: usize = chars.len();
    proof {
        reveal_strlit("Gi");
        reveal_strlit("Mi");
        reveal_strlit("Ki");
        reveal_strlit("G");
        reveal_strlit("M");
        reveal_strlit("K");
    }
    let (cut, unit): (usize, u64) = if text::ends_with(t.as_str(), "Gi") {
        (2, 1073741824)
    } else if text::ends_with(t.as_str(), "Mi") {
        (2, 1048576)
    } else if text::ends_with(t.as_str(), "Ki") {
        (2, 1024)
    } else if text::ends_with(t.as_str(), "G") {
        (1, 1000000000)
    } else if text::ends_with(t.as_str(), "M") {
        (1, 1000000)
    } else if text::ends_with(t.as_str(), "K") {
        (1, 1000)
    } else {
        (0, 1)
    };
    let digits = text::text_of(&chars, 0, n - cut);
    proof {
        assert(digits@ =~= t@.take(t@.len() - cut));
        assert(t@.take(t@.len() as int) =~= t@);
    }
    (digits, unit)
}

/// The sentence for a size that is none.
pub fn invalid_size(s: &str) -> (r: String)
    ensures
        r@ == "invalid size: "@ + text::trimmed(s@),
{
    let mut m = "invalid size: ".to_owned();
    m.append(text::trim(s).as_str());
    m
}

/// The directories of a sandbox in which a program is looked for by its name, in their order.
pub open spec fn program_dirs() -> Seq<Seq<char>> {
    seq![
        "/usr/local/sbin"@,
        "/usr/local/bin"@,
        "/usr/sbin"@,
        "/usr/bin"@,
        "/sbin"@,
        "/bin"@,
    ]
}

/// The paths at which a program of a name is looked for, in their order.
pub open spec fn candidates(name: Seq<char>) -> Seq<Seq<char>> {
    program_dirs().map_values(|dir: Seq<char>| dir + "/"@ + name)
}

/// Whether a text is the name of a program, without a path.
pub open spec fn is_bare(cmd: Seq<char>) -> bool {
    cmd.len() > 0 && !cmd.contains('/')
}

/// Whether a command is a path from the root on.
pub open spec fn is_full_path(cmd: Seq<char>) -> bool {
    cmd.len() > 0 && cmd[0] == '/'
}

/// The first path from `i` on that was found.
pub open spec fn first_found(paths: Seq<Seq<char>>, found: Seq<bool>, i: int) -> Option<Seq<char>>
    decreases paths.len() - i,
{
    if i < 0 || i >= paths.len() {
        None
    } else if i < found.len() && found[i] {
        Some(paths[i])
    } else {
        first_found(paths, found, i + 1)
    }
}

/// What a command that is neither a full path nor a name is answered.
pub open spec fn malformed_command() -> Seq<char> {
    "cmd must be an absolute path inside the sandbox (e.g. /usr/bin/python3) or the name of a program (e.g. python3)"@
}

/// What the name of a program that is not there is answered.
pub open spec fn no_program(name: Seq<char>) -> Seq<char> {
    "program "@ + text::quoted(name)
        + " is in none of /usr/local/sbin, /usr/local/bin, /usr/sbin, /usr/bin, /sbin, /bin inside the sandbox"@
}

/// The path of a command inside the sandbox: itself where it is a full path, and for a name the
/// first of its candidates that was found.
pub open spec fn resolved(cmd: Seq<char>, found: Seq<bool>) -> Result<Seq<char>, Seq<char>> {
    if is_full_path(cmd) {
        Ok(cmd)
    } else if !is_bare(cmd) {
        Err(malformed_command())
    } else {
        match first_found(candidates(cmd), found, 0) {
            Some(path) => Ok(path),
            None => Err(no_program(cmd)),
        }
    }
}

/// The paths at which a program of a name is looked for, in their order.
pub fn command_candidates(name: &str) -> (r: Vec<String>)
    ensures
        text::texts(r@) == candidates(name@),
{
    let v: Vec<String> = vec![
        text::cat3("/usr/local/sbin", "/", name),
        text::cat3("/usr/local/bin", "/", name),
        text::cat3("/usr/sbin", "/", name),
        text::cat3("/usr/bin", "/", name),
        text::cat3("/sbin", "/", name),
        text::cat3("/bin", "/", name),
    ];
    proof {
        assert(text::texts(v@) =~= candidates(name@));
    }
    v
}

/// Whether a text is the name of a program, without a path.
fn bare(cmd: &str) -> (r: bool)
    ensures
        r == is_bare(cmd@),
{
    let chars = text::chars_of(cmd);
    let mut i: usize = 0;
    while i < chars.len()
        invariant
            i <= chars@.len(),
            chars@ == cmd@,
            forall|j: int| 0 <= j < i ==> chars@[j] != '/',
        decreases chars@.len() - i,
    {
        if chars[i] == '/' {
            proof {
                assert(cmd@[i as int] == '/');
            }
            return false;
        }
        i = i + 1;
    }
    chars.len() > 0
}

/// Whether a command is a path from the root on.
fn full_path(cmd: &str) -> (r: bool)
    ensures
        r == is_full_path(cmd@),
{
    let chars = text::chars_of(cmd);
    chars.len() > 0 && chars[0] == '/'
}

/// Finds a command inside the sandbox. A full path is taken as it is given; for a name it counts
/// which of its candidates was found.
pub fn resolve_command(cmd: &str, found: &Vec<bool>) -> (r: Result<String, String>)
    ensures
        match (r, resolved(cmd@, found@)) {
            (Ok(p), Ok(want)) => p@ == want,
            (Err(m), Err(want)) => m@ == want,
            _ => false,
        },
{
    if full_path(cmd) {
        return Ok(cmd.to_owned());
    }
    if !bare(cmd) {
        return Err(
            "cmd must be an absolute path inside the sandbox (e.g. /usr/bin/python3) or the name of a program (e.g. python3)".to_owned(),
        );
    }
    let paths = command_candidates(cmd);
    let ghost all = candidates(cmd@);
    let mut i: usize = 0;
    while i < paths.len()
        invariant
            i <= paths@.len(),
            all == text::texts(paths@),
            all == candidates(cmd@),
            is_bare(cmd@),
            !is_full_path(cmd@),
            first_found(all, found@, 0) == first_found(all, found@, i as int),
        decreases paths@.len() - i,
    {
        if i < found.len() && found[i] {
            proof {
                assert(all[i as int] == paths@[i as int]@);
            }
            return Ok(paths[i].clone());
        }
        i = i + 1;
    }
    Err(
        text::cat3(
            "program ",
            text::quote(cmd).as_str(),
            " is in none of /usr/local/sbin, /usr/local/bin, /usr/sbin, /usr/bin, /sbin, /bin inside the sandbox",
        ),
    )
}

/// Whether a command has the form of one that can be run: its path in full, or its name.
pub fn check_command(cmd: &Vec<String>) -> (r: Result<(), String>)
    ensures
        r is Ok <==> cmd@.len() > 0 && (is_full_path(cmd@[0]@) || is_bare(cmd@[0]@)),
        r matches Err(m) ==> m@ == malformed_command(),
{
    if cmd.len() > 0 && (full_path(cmd[0].as_str()) || bare(cmd[0].as_str())) {
        return Ok(());
    }
    Err(
        "cmd must be an absolute path inside the sandbox (e.g. /usr/bin/python3) or the name of a program (e.g. python3)".to_owned(),
    )
}

/// Whatever command is taken up, its path inside the sandbox is a full one.
pub proof fn a_resolved_command_is_a_full_path(cmd: Seq<char>, found: Seq<bool>)
    ensures
        resolved(cmd, found) matches Ok(path) ==> is_full_path(path),
{
    reveal_strlit("/usr/local/sbin");
    reveal_strlit("/usr/local/bin");
    reveal_strlit("/usr/sbin");
    reveal_strlit("/usr/bin");
    reveal_strlit("/sbin");
    reveal_strlit("/bin");
    if !is_full_path(cmd) && is_bare(cmd) {
        let all = candidates(cmd);
        assert forall|i: int| 0 <= i < all.len() implies is_full_path(#[trigger] all[i]) by {
            assert(all[i] == program_dirs()[i] + "/"@ + cmd);
            assert(program_dirs()[i][0] == '/');
        }
        found_is_one_of(all, found, 0);
    }
}

proof fn found_is_one_of(paths: Seq<Seq<char>>, found: Seq<bool>, i: int)
    requires
        0 <= i <= paths.len(),
    ensures
        first_found(paths, found, i) matches Some(p) ==> exists|k: int| i <= k < paths.len() && #[trigger] paths[k] == p,
    decreases paths.len() - i,
{
    if i < paths.len() && !(i < found.len() && found[i]) {
        found_is_one_of(paths, found, i + 1);
    }
}

/// A program's name is taken up wherever the program is: where the candidate at `i` was found and
/// none before it, that is the path.
pub proof fn a_name_finds_its_program(name: Seq<char>, found: Seq<bool>, i: int)
    requires
        is_bare(name),
        0 <= i < candidates(name).len(),
        i < found.len(),
        found[i],
        forall|j: int| 0 <= j < i ==> !#[trigger] found[j],
    ensures
        resolved(name, found) == Ok::<Seq<char>, Seq<char>>(candidates(name)[i]),
{
    assert(!is_full_path(name)) by {
        if is_full_path(name) {
            assert(name.contains('/'));
        }
    }
    finds_from(candidates(name), found, 0, i);
}

proof fn finds_from(paths: Seq<Seq<char>>, found: Seq<bool>, k: int, i: int)
    requires
        0 <= k <= i < paths.len(),
        i < found.len(),
        found[i],
        forall|j: int| 0 <= j < i ==> !#[trigger] found[j],
    ensures
        first_found(paths, found, k) == Some(paths[i]),
    decreases i - k,
{
    if k < i {
        assert(!found[k]);
        finds_from(paths, found, k + 1, i);
    }
}

/// The limits that a run is given: with a limit on memory, reclaim begins at nine tenths of it.
pub fn run_limits(cpu: Option<CpuQuota>, memory: Option<u64>, pids: Option<u64>) -> (r: ResourceLimits)
    requires
        memory matches Some(m) ==> m * 9 <= u64::MAX,
    ensures
        r.cpu_max == cpu,
        r.memory_max == memory,
        r.memory_high == (match memory {
            Some(m) => Some((m * 9 / 10) as u64),
            None => None,
        }),
        r.pids_max == pids,
        r.io_max@.len() == 0,
        r.swap_max == Some(0u64),
{
    let mut limits = ResourceLimits::default();
    limits.cpu_max = cpu;
    if let Some(m) = memory {
        limits.memory_max = Some(m);
        limits.memory_high = Some(m * 9 / 10);
    }
    limits.pids_max = pids;
    limits
}

/// The sandbox that a run asks for. A timeout that is no duration counts as none.
pub fn run_spec(
    id: SandboxId,
    template: String,
    limits: ResourceLimits,
    workspace_size: Option<u64>,
    timeout: &Option<String>,
    has_policy: bool,
) -> (r: SandboxSpec)
    requires
        timeout matches Some(t) ==> duration_fits(t@),
    ensures
        r.id == id,
        r.template == template,
        r.limits == limits,
        r.workspace == (WorkspaceSpec::Tmpfs {
            size: match workspace_size {
                Some(n) => n,
                None => DEFAULT_WORKSPACE,
            },
        }),
        r.env@.len() == 0,
        r.wf(),
        r.timeout == (match *timeout {
            Some(t) => match duration_of(t@) {
                Some(n) => Some(Duration { secs: n as u64, nanos: 0 }),
                None => None,
            },
            None => None,
        }),
        r.policy is Some <==> has_policy,
        r.policy matches Some(p) ==> p.name@ == CLI_POLICY_NAME@ && p.overrides is None,
{
    let size: u64 = match workspace_size {
        Some(n) => n,
        None => DEFAULT_WORKSPACE,
    };
    let span: Option<Duration> = match timeout {
        Some(t) => match parse_duration(t.as_str()) {
            Ok(n) => Some(n),
            Err(_) => None,
        },
        None => None,
    };
    SandboxSpec {
        id,
        template,
        limits,
        workspace: WorkspaceSpec::Tmpfs { size },
        env: Vec::new(),
        timeout: span,
        policy: if has_policy {
            Some(PolicyRef { name: CLI_POLICY_NAME.to_owned(), overrides: None })
        } else {
            None
        },
    }
}

/// What a run is given on the command line, with its numbers and its policy read.
#[derive(Debug)]
pub struct RunArgs {
    pub template: String,
    pub cpu: Option<Result<CpuQuota, String>>,
    pub memory: Option<Result<u64, String>>,
    pub pids: Option<u64>,
    pub workspace_size: Option<Result<u64, String>>,
    pub timeout: Option<String>,
    /// The path of a policy, and what reading it came to.
    pub policy: Option<(String, Result<Policy, Error>)>,
    pub cmd: Vec<String>,
    /// Which of the candidates for the command are programs inside the sandbox, in their order.
    pub found: Vec<bool>,
}

/// What a run does: it makes a sandbox, under a policy where one is given, and runs a command in it.
#[derive(Debug)]
pub struct RunPlan {
    pub asked: SandboxSpec,
    pub policy: Option<Policy>,
    pub cmd: String,
    pub args: Vec<String>,
}

/// Why a run is refused; nothing where it is taken up. A workspace size that is none does not count.
pub open spec fn run_refusal(a: RunArgs) -> Option<Seq<char>> {
    if a.cmd@.len() == 0 {
        Some(malformed_command())
    } else {
        match (resolved(a.cmd@[0]@, a.found@), a.policy, a.cpu, a.memory) {
            (Err(m), _, _, _) => Some(m),
            (_, Some((path, Err(e))), _, _) => Some("policy "@ + path@ + ": "@ + error::described(e@)),
            (_, _, Some(Err(m)), _) => Some(m@),
            (_, _, _, Some(Err(m))) => Some(m@),
            _ => None,
        }
    }
}

/// The value of an option that was given and read.
pub open spec fn read_or_none<T>(o: Option<Result<T, String>>) -> Option<T> {
    match o {
        Some(Ok(t)) => Some(t),
        _ => None,
    }
}

/// Takes up a run: everything that is given is looked at in its order, and the first thing wrong is
/// what the run is refused for.
pub fn cmd_run(id: SandboxId, a: RunArgs) -> (r: Result<RunPlan, String>)
    requires
        a.memory matches Some(Ok(m)) ==> m * 9 <= u64::MAX,
        a.timeout matches Some(t) ==> duration_fits(t@),
    ensures
        match run_refusal(a) {
            Some(m) => r matches Err(t) && t@ == m,
            None => r matches Ok(p) && {
                &&& resolved(a.cmd@[0]@, a.found@) == Ok::<Seq<char>, Seq<char>>(p.cmd@)
                &&& text::texts(p.args@) == text::texts(a.cmd@).skip(1)
                &&& p.policy == (match a.policy {
                    Some((_, Ok(policy))) => Some(policy),
                    _ => None,
                })
                &&& p.asked.id == id
                &&& p.asked.template == a.template
                &&& p.asked.limits.cpu_max == read_or_none(a.cpu)
                &&& p.asked.limits.memory_max == read_or_none(a.memory)
                &&& p.asked.limits.memory_high == (match read_or_none(a.memory) {
                    Some(m) => Some((m * 9 / 10) as u64),
                    None => None,
                })
                &&& p.asked.limits.pids_max == a.pids
                &&& p.asked.limits.io_max@.len() == 0
                &&& p.asked.limits.swap_max == Some(0u64)
                &&& p.asked.workspace == (WorkspaceSpec::Tmpfs {
                    size: match read_or_none(a.workspace_size) {
                        Some(n) => n,
                        None => DEFAULT_WORKSPACE,
                    },
                })
                &&& p.asked.env@.len() == 0
                &&& p.asked.wf()
                &&& p.asked.timeout == (match a.timeout {
                    Some(t) => match duration_of(t@) {
                        Some(n) => Some(Duration { secs: n as u64, nanos: 0 }),
                        None => None,
                    },
                    None => None,
                })
                &&& p.asked.policy is Some <==> a.policy is Some
                &&& p.asked.policy matches Some(q) ==> q.name@ == CLI_POLICY_NAME@ && q.overrides is None
            },
        },
{
    if let Err(m) = check_command(&a.cmd) {
        return Err(m);
    }
    let cmd = match resolve_command(a.cmd[0].as_str(), &a.found) {
        Ok(path) => path,
        Err(m) => {
            return Err(m);
        },
    };
    let policy: Option<Policy> = match a.policy {
        Some((path, Err(e))) => {
            let mut m = text::cat3("policy ", path.as_str(), ": ");
            m.append(e.to_string().as_str());
            return Err(m);
        },
        Some((_, Ok(p))) => Some(p),
        None => None,
    };
    let cpu: Option<CpuQuota> = match a.cpu {
        Some(Err(m)) => {
            return Err(m);
        },
        Some(Ok(q)) => Some(q),
        None => None,
    };
    let memory: Option<u64> = match a.memory {
        Some(Err(m)) => {
            return Err(m);
        },
        Some(Ok(n)) => Some(n),
        None => None,
    };
    let size: Option<u64> = match a.workspace_size {
        Some(Ok(n)) => Some(n),
        _ => None,
    };
    let limits = run_limits(cpu, memory, a.pids);
    let asked = run_spec(id, a.template, limits, size, &a.timeout, policy.is_some());
    let mut args: Vec<String> = Vec::new();
    let ghost all = text::texts(a.cmd@);
    let mut i: usize = 1;
    proof {
        assert(text::texts(args@) =~= all.skip(1).take(0));
    }
    while i < a.cmd.len()
        invariant
            1 <= i <= a.cmd@.len(),
            all == text::texts(a.cmd@),
            text::texts(args@) == all.skip(1).take(i - 1),
        decreases a.cmd@.len() - i,
    {
        let ghost done = text::texts(args@);
        args.push(a.cmd[i].clone());
        proof {
            assert(all.skip(1)[i - 1] == a.cmd@[i as int]@);
            assert(text::texts(args@) =~= done.push(all.skip(1)[i - 1]));
            assert(all.skip(1).take(i as int) =~= all.skip(1).take(i - 1).push(all.skip(1)[i - 1]));
        }
        i = i + 1;
    }
    proof {
        assert(all.skip(1).take(i - 1) =~= all.skip(1));
    }
    Ok(RunPlan { asked, policy, cmd, args })
}

/// The exit code of a run: the payload's own, and -1 where it did not come to run.
pub fn run_exit_code(ran: &Result<i32, Error>) -> (r: i32)
    ensures
        r == (match *ran {
            Ok(code) => code,
            Err(_) => -1i32,
        }),
{
    match ran {
        Ok(code) => *code,
        Err(_) => -1,
    }
}

/// A tick or a cross.
pub open spec fn mark(v: bool) -> Seq<char> {
    if v {
        "✓"@
    } else {
        "✗"@
    }
}

/// A tick or a cross.
pub fn bool_emoji(v: bool) -> (r: &'static str)
    ensures
        r@ == mark(v),
{
    if v {
        "✓"
    } else {
        "✗"
    }
}

/// Texts in quotes.
pub open spec fn all_quoted(v: Seq<Seq<char>>) -> Seq<Seq<char>> {
    v.map_values(|s: Seq<char>| text::quoted(s))
}

/// A list of texts, as it is printed.
fn listed(v: &Vec<String>) -> (r: String)
    ensures
        r@ == "["@ + text::joined(all_quoted(text::texts(v@)), ", "@) + "]"@,
{
    let mut q: Vec<String> = Vec::new();
    let ghost all = all_quoted(text::texts(v@));
    let mut i: usize = 0;
    while i < v.len()
        invariant
            i <= v@.len(),
            all == all_quoted(text::texts(v@)),
            text::texts(q@) == all.take(i as int),
        decreases v@.len() - i,
    {
        let ghost done = text::texts(q@);
        q.push(text::quote(v[i].as_str()));
        proof {
            assert(text::texts(q@) =~= done.push(all[i as int]));
            assert(all.take(i + 1) =~= all.take(i as int).push(all[i as int]));
        }
        i = i + 1;
    }
    proof {
        assert(all.take(i as int) =~= all);
    }
    text::cat3("[", text::join(&q, ", ").as_str(), "]")
}

/// The report on what the kernel can do, line by line.
pub open spec fn report_lines(caps: KernelCaps) -> Seq<Seq<char>> {
    seq![
        "AIVisor Kernel Capability Report"@,
        "================================"@,
        ""@,
        "Kernel: "@ + number::decimal(caps.kernel.0 as nat) + "."@ + number::decimal(caps.kernel.1 as nat),
        "cgroup v2:              "@ + mark(caps.cgroup_v2),
        "clone3:                 "@ + mark(caps.clone3),
        "CLONE_INTO_CGROUP:      "@ + mark(caps.clone_into_cgroup),
        "cgroup.kill:            "@ + mark(caps.cgroup_kill),
        "overlayfs:              "@ + mark(caps.overlayfs),
        "overlayfs in userns:    "@ + mark(caps.overlayfs_in_userns),
        "unprivileged userns:    "@ + mark(caps.unprivileged_userns),
        "Controllers:            "@ + ("["@ + text::joined(all_quoted(text::texts(caps.controllers@)), ", "@) + "]"@),
    ]
}

fn marked(lead: &str, v: bool) -> (r: String)
    ensures
        r@ == lead@ + mark(v),
{
    let mut s = lead.to_owned();
    s.append(bool_emoji(v));
    s
}

/// The report on what the kernel can do.
pub fn doctor_report(caps: &KernelCaps) -> (r: Vec<String>)
    ensures
        text::texts(r@) == report_lines(*caps),
{
    let mut v: Vec<String> = Vec::new();
    v.push("AIVisor Kernel Capability Report".to_owned());
    v.push("================================".to_owned());
    v.push("".to_owned());
    let major = number::format_u64(caps.kernel.0 as u64);
    let minor = number::format_u64(caps.kernel.1 as u64);
    let mut kernel = text::cat3("Kernel: ", major.as_str(), ".");
    kernel.append(minor.as_str());
    v.push(kernel);
    v.push(marked("cgroup v2:              ", caps.cgroup_v2));
    v.push(marked("clone3:                 ", caps.clone3));
    v.push(marked("CLONE_INTO_CGROUP:      ", caps.clone_into_cgroup));
    v.push(marked("cgroup.kill:            ", caps.cgroup_kill));
    v.push(marked("overlayfs:              ", caps.overlayfs));
    v.push(marked("overlayfs in userns:    ", caps.overlayfs_in_userns));
    v.push(marked("unprivileged userns:    ", caps.unprivileged_userns));
    let mut controllers = "Controllers:            ".to_owned();
    controllers.append(listed(&caps.controllers).as_str());
    v.push(controllers);
    proof {
        assert(text::texts(v@) =~= report_lines(*caps));
    }
    v
}

/// The name of a state.
pub open spec fn state_text(s: SandboxState) -> Seq<char> {
    match s {
        SandboxState::Provisioning => "Provisioning"@,
        SandboxState::Ready => "Ready"@,
        SandboxState::Running => "Running"@,
        SandboxState::Paused => "Paused"@,
        SandboxState::Checkpointing => "Checkpointing"@,
        SandboxState::Restoring => "Restoring"@,
        SandboxState::Terminating => "Terminating"@,
        SandboxState::Terminated => "Terminated"@,
    }
}

/// The name of a state.
pub fn state_name(s: SandboxState) -> (r: &'static str)
    ensures
        r@ == state_text(s),
{
    match s {
        SandboxState::Provisioning => "Provisioning",
        SandboxState::Ready => "Ready",
        SandboxState::Running => "Running",
        SandboxState::Paused => "Paused",
        SandboxState::Checkpointing => "Checkpointing",
        SandboxState::Restoring => "Restoring",
        SandboxState::Terminating => "Terminating",
        SandboxState::Terminated => "Terminated",
    }
}

/// A sandbox as it is listed: its identifier, its state and its template.
pub open spec fn row(s: SandboxSummary) -> Seq<char> {
    s.id.shown() + " "@ + state_text(s.state) + " "@ + s.template@
}

/// The list of sandboxes, line by line.
pub open spec fn table(list: Seq<SandboxSummary>) -> Seq<Seq<char>> {
    if list.len() == 0 {
        seq!["No running sandboxes"@]
    } else {
        seq![
            "ID                                       STATE           TEMPLATE"@,
            "---------------------------------------------------------------------------"@,
        ] + Seq::new(list.len(), |i: int| row(list[i]))
    }
}

/// The list of sandboxes.
pub fn ps_lines(list: &Vec<SandboxSummary>) -> (r: Vec<String>)
    ensures
        text::texts(r@) == table(list@),
{
    let mut v: Vec<String> = Vec::new();
    if list.len() == 0 {
        v.push("No running sandboxes".to_owned());
        proof {
            assert(text::texts(v@) =~= table(list@));
        }
        return v;
    }
    v.push("ID                                       STATE           TEMPLATE".to_owned());
    v.push("---------------------------------------------------------------------------".to_owned());
    let ghost all = table(list@);
    let mut i: usize = 0;
    proof {
        assert(text::texts(v@) =~= all.take(2));
    }
    while i < list.len()
        invariant
            i <= list@.len(),
            list@.len() > 0,
            all == table(list@),
            text::texts(v@) == all.take(2 + i),
        decreases list@.len() - i,
    {
        let ghost done = text::texts(v@);
        let s = &list[i];
        v.push(text::cat5(s.id.to_string().as_str(), " ", state_name(s.state), " ", s.template.as_str()));
        proof {
            assert(all[2 + i] == row(list@[i as int]));
            assert(text::texts(v@) =~= done.push(all[2 + i]));
            assert(all.take(2 + i + 1) =~= all.take(2 + i).push(all[2 + i]));
        }
        i = i + 1;
    }
    proof {
        assert(all.take(2 + i) =~= all);
    }
    v
}

/// What is printed of one sandbox.
pub open spec fn inspected(s: SandboxSummary) -> Seq<Seq<char>> {
    seq!["ID:       "@ + s.id.shown(), "State:    "@ + state_text(s.state), "Template: "@ + s.template@]
}

fn headed(lead: &str, rest: &str) -> (r: String)
    ensures
        r@ == lead@ + rest@,
{
    let mut s = lead.to_owned();
    s.append(rest);
    s
}

/// What is printed of a sandbox; nothing where it is not in the list.
pub fn inspect_lines(list: &Vec<SandboxSummary>, id: &SandboxId) -> (r: Option<Vec<String>>)
    ensures
        r is None <==> forall|i: int| 0 <= i < list@.len() ==> (#[trigger] list@[i]).id.key() != id.key(),
        r matches Some(v) ==> exists|i: int|
            0 <= i < list@.len() && (#[trigger] list@[i]).id.key() == id.key() && text::texts(v@) == inspected(list@[i])
                && forall|j: int| 0 <= j < i ==> (#[trigger] list@[j]).id.key() != id.key(),
{
    let mut i: usize = 0;
    while i < list.len()
        invariant
            i <= list@.len(),
            forall|j: int| 0 <= j < i ==> (#[trigger] list@[j]).id.key() != id.key(),
        decreases list@.len() - i,
    {
        let s = &list[i];
        if s.id.is(id) {
            let mut v: Vec<String> = Vec::new();
            v.push(headed("ID:       ", s.id.to_string().as_str()));
            v.push(headed("State:    ", state_name(s.state)));
            v.push(headed("Template: ", s.template.as_str()));
            proof {
                assert(text::texts(v@) =~= inspected(list@[i as int]));
            }
            return Some(v);
        }
        i = i + 1;
    }
    None
}

} // verus!
