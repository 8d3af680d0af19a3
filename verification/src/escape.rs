//! The escape suite: attempts to get out of a sandbox, and what they prove.
use vstd::prelude::*;

use crate::id::SandboxId;
use crate::number;
use crate::sandbox::Duration;
use crate::sandbox::ResourceLimits;
use crate::sandbox::SandboxSpec;
use crate::sandbox::WorkspaceSpec;
use crate::text;

verus! {

/// What an attempt came to.
#[derive(Debug)]
pub enum Outcome {
    /// A security control denied it.
    Blocked,
    /// It succeeded.
    Escaped,
    /// Neither: the attempt could not be made, so it proves nothing.
    Unverified(String),
}

/// What sort of failure the operating system speaks of.
#[derive(Debug, Clone, Copy, PartialEq, Eq, Structural)]
pub enum FailureKind {
    PermissionDenied,
    NetworkUnreachable,
    HostUnreachable,
    ConnectionRefused,
    Other,
}

/// A failure of an attempt: its error number, where it has one, and its sort.
#[derive(Debug, Clone, Copy, PartialEq, Eq, Structural)]
pub struct Refusal {
    pub errno: Option<i32>,
    pub kind: FailureKind,
}

/// Whether a failure is a denial: `EPERM`, `EACCES`, or what counts as them.
pub open spec fn denies(e: Refusal) -> bool {
    e.errno == Some(1i32) || e.errno == Some(13i32) || e.kind == FailureKind::PermissionDenied
}

/// Whether a failure says that there is no way there: `ENETUNREACH`, `EHOSTUNREACH`,
/// `ECONNREFUSED`, or what counts as them.
pub open spec fn leads_nowhere(e: Refusal) -> bool {
    ||| e.errno == Some(101i32) || e.errno == Some(113i32) || e.errno == Some(111i32)
    ||| e.kind == FailureKind::NetworkUnreachable || e.kind == FailureKind::HostUnreachable || e.kind
        == FailureKind::ConnectionRefused
}

/// Whether a failure is a denial.
pub fn is_permission_denied(e: &Refusal) -> (r: bool)
    ensures
        r == denies(*e),
{
    (match e.errno {
        Some(n) => n == 1 || n == 13,
        None => false,
    }) || e.kind == FailureKind::PermissionDenied
}

/// Whether a failure is a denial, or says that there is no way there. A sandbox without a grant has
/// no route at all.
pub fn is_denied_or_unreachable(e: &Refusal) -> (r: bool)
    ensures
        r == (denies(*e) || leads_nowhere(*e)),
{
    if is_permission_denied(e) {
        return true;
    }
    (match e.errno {
        Some(n) => n == 101 || n == 113 || n == 111,
        None => false,
    }) || e.kind == FailureKind::NetworkUnreachable || e.kind == FailureKind::HostUnreachable || e.kind
        == FailureKind::ConnectionRefused
}

/// What an attempt is printed as.
pub open spec fn outcome_line(o: Outcome, scenario: Seq<char>) -> Seq<char> {
    match o {
        Outcome::Blocked => "BLOCKED: "@ + scenario,
        Outcome::Escaped => "ESCAPED: "@ + scenario,
        Outcome::Unverified(detail) => "UNVERIFIED: "@ + scenario + " ("@ + detail@ + ")"@,
    }
}

/// The exit code of an attempt.
pub open spec fn outcome_code(o: Outcome) -> i32 {
    match o {
        Outcome::Blocked => 0,
        Outcome::Escaped => 1,
        Outcome::Unverified(_) => 2,
    }
}

impl Outcome {
    /// What is printed of an attempt, and the exit code.
    pub fn report(&self, scenario: &str) -> (r: (String, i32))
        ensures
            r.0@ == outcome_line(*self, scenario@),
            r.1 == outcome_code(*self),
    {
        match self {
            Outcome::Blocked => {
                let mut s = "BLOCKED: ".to_owned();
                s.append(scenario);
                (s, 0)
            },
            Outcome::Escaped => {
                let mut s = "ESCAPED: ".to_owned();
                s.append(scenario);
                (s, 1)
            },
            Outcome::Unverified(detail) => (
                text::cat5("UNVERIFIED: ", scenario, " (", detail.as_str(), ")"),
                2,
            ),
        }
    }

    /// What an attempt came to that a denial should have stopped.
    pub fn of_attempt(failed: Option<(Refusal, String)>) -> (r: Outcome)
        ensures
            match failed {
                None => r is Escaped,
                Some((e, m)) => if denies(e) {
                    r is Blocked
                } else {
                    r == Outcome::Unverified(m)
                },
            },
    {
        match failed {
            None => Outcome::Escaped,
            Some((e, m)) => if is_permission_denied(&e) {
                Outcome::Blocked
            } else {
                Outcome::Unverified(m)
            },
        }
    }

    /// What an attempt to connect came to.
    pub fn of_connect(failed: Option<(Refusal, String)>) -> (r: Outcome)
        ensures
            match failed {
                None => r is Escaped,
                Some((e, m)) => if denies(e) || leads_nowhere(e) {
                    r is Blocked
                } else {
                    r == Outcome::Unverified(m)
                },
            },
    {
        match failed {
            None => Outcome::Escaped,
            Some((e, m)) => if is_denied_or_unreachable(&e) {
                Outcome::Blocked
            } else {
                Outcome::Unverified(m)
            },
        }
    }
}

/// An attempt of the suite.
#[derive(Debug, Clone, Copy)]
pub struct Scenario {
    pub category: &'static str,
    pub name: &'static str,
    pub bin_name: &'static str,
    /// Where it is known that the attempt succeeds: the phase that is to mend it.
    pub xfail_phase: Option<u32>,
}

/// The attempts of the suite.
pub fn scenarios() -> (r: Vec<Scenario>)
    ensures
        r@.len() == 4,
        r@[0].category@ == "fs"@ && r@[0].name@ == "read_shadow"@ && r@[0].bin_name@
            == "aivisor-escape-fs-read-shadow"@,
        r@[1].category@ == "exec"@ && r@[1].name@ == "exec_denied"@ && r@[1].bin_name@
            == "aivisor-escape-exec-denied"@,
        r@[2].category@ == "net"@ && r@[2].name@ == "connect_denied"@ && r@[2].bin_name@
            == "aivisor-escape-net-connect-denied"@,
        r@[3].category@ == "priv"@ && r@[3].name@ == "mount_inside"@ && r@[3].bin_name@
            == "aivisor-escape-priv-mount-inside"@,
        forall|i: int| 0 <= i < 4 ==> (#[trigger] r@[i]).xfail_phase is None,
{
    let mut v: Vec<Scenario> = Vec::new();
    v.push(
        Scenario {
            category: "fs",
            name: "read_shadow",
            bin_name: "aivisor-escape-fs-read-shadow",
            xfail_phase: None,
        },
    );
    v.push(
        Scenario { category: "exec", name: "exec_denied", bin_name: "aivisor-escape-exec-denied", xfail_phase: None },
    );
    v.push(
        Scenario {
            category: "net",
            name: "connect_denied",
            bin_name: "aivisor-escape-net-connect-denied",
            xfail_phase: None,
        },
    );
    v.push(
        Scenario {
            category: "priv",
            name: "mount_inside",
            bin_name: "aivisor-escape-priv-mount-inside",
            xfail_phase: None,
        },
    );
    v
}

/// What running an attempt in a sandbox came to.
#[derive(Debug)]
pub enum ScenarioResult {
    Blocked,
    Escaped,
    Unverified,
    /// The attempt could not be run at all.
    HarnessError(String),
}

/// What the exit code of an attempt says.
pub fn result_of_code(code: i32) -> (r: ScenarioResult)
    ensures
        match code {
            0 => r is Blocked,
            1 => r is Escaped,
            2 => r is Unverified,
            _ => r matches ScenarioResult::HarnessError(m) && m@ == "unexpected exit code "@ + number::signed_decimal(
                code as int,
            ),
        },
{
    if code == 0 {
        ScenarioResult::Blocked
    } else if code == 1 {
        ScenarioResult::Escaped
    } else if code == 2 {
        ScenarioResult::Unverified
    } else {
        let mut m = "unexpected exit code ".to_owned();
        m.append(number::format_i64(code as i64).as_str());
        ScenarioResult::HarnessError(m)
    }
}

/// What is done for an attempt, in this order.
#[derive(Debug, Clone, Copy, PartialEq, Eq, Structural)]
pub enum RunStage {
    /// A sandbox is made.
    Create,
    /// The host's path of its workspace is looked up.
    Workspace,
    /// That directory is made.
    MakeDir,
    /// The attempt's program is found on the host.
    FindProgram,
    /// It is copied into the workspace.
    Copy,
    /// Its permissions are read.
    ReadMode,
    /// It is made executable.
    SetMode,
    /// It is run in the sandbox.
    Execute,
}

/// What follows a stage.
#[derive(Debug)]
pub enum RunStep {
    Next(RunStage),
    /// The attempt is over. Where a sandbox was made it is destroyed.
    Over { result: ScenarioResult, destroy: bool },
}

/// The stage behind another; nothing behind the last.
pub open spec fn stage_after(stage: RunStage) -> Option<RunStage> {
    match stage {
        RunStage::Create => Some(RunStage::Workspace),
        RunStage::Workspace => Some(RunStage::MakeDir),
        RunStage::MakeDir => Some(RunStage::FindProgram),
        RunStage::FindProgram => Some(RunStage::Copy),
        RunStage::Copy => Some(RunStage::ReadMode),
        RunStage::ReadMode => Some(RunStage::SetMode),
        RunStage::SetMode => Some(RunStage::Execute),
        RunStage::Execute => None,
    }
}

/// What stands before the reason in the report of a stage that failed.
pub open spec fn stage_lead(stage: RunStage) -> Seq<char> {
    match stage {
        RunStage::Create => "create: "@,
        RunStage::Workspace => "workspace_upper_dir: "@,
        RunStage::MakeDir => "mkdir workspace: "@,
        RunStage::FindProgram => ""@,
        RunStage::Copy => "stage scenario binary: "@,
        RunStage::ReadMode => "stat staged binary: "@,
        RunStage::SetMode => "chmod staged binary: "@,
        RunStage::Execute => "exec: "@,
    }
}

/// The sandbox in which an attempt is made. It has no policy of its own: the default one is what
/// the suite tries.
pub fn scenario_spec(id: SandboxId) -> (r: SandboxSpec)
    ensures
        r.id == id,
        r.template@ == "base"@,
        r.limits.cpu_max is None && r.limits.memory_high is None && r.limits.memory_max is None
            && r.limits.pids_max is None && r.limits.io_max@.len() == 0 && r.limits.swap_max == Some(0u64),
        r.workspace == (WorkspaceSpec::Tmpfs { size: 268_435_456 }),
        r.env@.len() == 0,
        r.timeout == Some(Duration { secs: 30, nanos: 0 }),
        r.wf(),
        r.policy is None,
{
    SandboxSpec {
        id,
        template: "base".to_owned(),
        limits: ResourceLimits::default(),
        workspace: WorkspaceSpec::Tmpfs { size: 268_435_456 },
        env: Vec::new(),
        timeout: Some(Duration::from_secs(30)),
        policy: None,
    }
}

/// What follows a stage of an attempt: the next one, or the end with what the attempt's exit code
/// says, or with the reason why it could not be run. Only the last stage brings an exit code.
pub fn run_one(stage: RunStage, outcome: Result<i32, String>) -> (r: RunStep)
    ensures
        match outcome {
            Err(m) => r matches RunStep::Over { result, destroy } && destroy == (stage != RunStage::Create) && (
            result matches ScenarioResult::HarnessError(t) && t@ == stage_lead(stage) + m@),
            Ok(code) => match stage_after(stage) {
                Some(next) => r == RunStep::Next(next),
                None => r matches RunStep::Over { result, destroy } && destroy && match code {
                    0 => result is Blocked,
                    1 => result is Escaped,
                    2 => result is Unverified,
                    _ => result matches ScenarioResult::HarnessError(t) && t@ == "unexpected exit code "@
                        + number::signed_decimal(code as int),
                },
            },
        },
{
    match outcome {
        Err(m) => {
            let mut t = match stage {
                RunStage::Create => "create: ".to_owned(),
                RunStage::Workspace => "workspace_upper_dir: ".to_owned(),
                RunStage::MakeDir => "mkdir workspace: ".to_owned(),
                RunStage::FindProgram => "".to_owned(),
                RunStage::Copy => "stage scenario binary: ".to_owned(),
                RunStage::ReadMode => "stat staged binary: ".to_owned(),
                RunStage::SetMode => "chmod staged binary: ".to_owned(),
                RunStage::Execute => "exec: ".to_owned(),
            };
            t.append(m.as_str());
            RunStep::Over { result: ScenarioResult::HarnessError(t), destroy: stage != RunStage::Create }
        },
        Ok(code) => match stage {
            RunStage::Create => RunStep::Next(RunStage::Workspace),
            RunStage::Workspace => RunStep::Next(RunStage::MakeDir),
            RunStage::MakeDir => RunStep::Next(RunStage::FindProgram),
            RunStage::FindProgram => RunStep::Next(RunStage::Copy),
            RunStage::Copy => RunStep::Next(RunStage::ReadMode),
            RunStage::ReadMode => RunStep::Next(RunStage::SetMode),
            RunStage::SetMode => RunStep::Next(RunStage::Execute),
            RunStage::Execute => RunStep::Over { result: result_of_code(code), destroy: true },
        },
    }
}

/// The sentence for an attempt's program that is not where it should be.
pub fn no_sibling(candidate: &str, bin_name: &str) -> (r: String)
    ensures
        r@ == "expected sibling binary at "@ + candidate@ + " — was `cargo build --bin "@ + bin_name@
            + "` run? (escape-harness does not build it on demand)"@,
{
    text::cat5(
        "expected sibling binary at ",
        candidate,
        " — was `cargo build --bin ",
        bin_name,
        "` run? (escape-harness does not build it on demand)",
    )
}

/// How a suite has gone so far.
#[derive(Debug, Clone, Copy, PartialEq, Eq, Structural)]
pub struct Tally {
    pub passed: u32,
    pub failed: u32,
    pub xfail: u32,
}

/// Whether an attempt counts against the suite: all do but one that was blocked, and one whose
/// success is known.
pub open spec fn counts_against(result: ScenarioResult, xfail_phase: Option<u32>) -> bool {
    match result {
        ScenarioResult::Blocked => false,
        ScenarioResult::Escaped => xfail_phase is None,
        ScenarioResult::Unverified => true,
        ScenarioResult::HarnessError(_) => true,
    }
}

/// What is said of an attempt.
pub open spec fn verdict_text(result: ScenarioResult, xfail_phase: Option<u32>) -> Seq<char> {
    match result {
        ScenarioResult::Blocked => "BLOCKED (pass)"@,
        ScenarioResult::Escaped => match xfail_phase {
            Some(p) => "ESCAPED (XFAIL(phase"@ + number::decimal(p as nat) + ") — known, tracked gap)"@,
            None => "ESCAPED — SECURITY CONTROL FAILED"@,
        },
        ScenarioResult::Unverified =>
            "UNVERIFIED — scenario did not prove anything (counts as failure, not a pass)"@,
        ScenarioResult::HarnessError(reason) => "HARNESS ERROR: "@ + reason@,
    }
}

impl Tally {
    /// A suite that has not begun.
    pub fn new() -> (r: Self)
        ensures
            r == (Tally { passed: 0, failed: 0, xfail: 0 }),
    {
        Tally { passed: 0, failed: 0, xfail: 0 }
    }

    /// Counts an attempt, and gives what is said of it.
    pub fn count(&mut self, result: &ScenarioResult, xfail_phase: Option<u32>) -> (r: String)
        requires
            old(self).passed < u32::MAX && old(self).failed < u32::MAX && old(self).xfail < u32::MAX,
        ensures
            r@ == verdict_text(*result, xfail_phase),
            final(self).failed == old(self).failed + (if counts_against(*result, xfail_phase) {
                1int
            } else {
                0
            }),
            final(self).passed == old(self).passed + (if result is Blocked {
                1int
            } else {
                0
            }),
            final(self).xfail == old(self).xfail + (if result is Escaped && xfail_phase is Some {
                1int
            } else {
                0
            }),
    {
        match result {
            ScenarioResult::Blocked => {
                self.passed = self.passed + 1;
                "BLOCKED (pass)".to_owned()
            },
            ScenarioResult::Escaped => match xfail_phase {
                Some(p) => {
                    self.xfail = self.xfail + 1;
                    text::cat3(
                        "ESCAPED (XFAIL(phase",
                        number::format_u64(p as u64).as_str(),
                        ") — known, tracked gap)",
                    )
                },
                None => {
                    self.failed = self.failed + 1;
                    "ESCAPED — SECURITY CONTROL FAILED".to_owned()
                },
            },
            ScenarioResult::Unverified => {
                self.failed = self.failed + 1;
                "UNVERIFIED — scenario did not prove anything (counts as failure, not a pass)".to_owned()
            },
            ScenarioResult::HarnessError(reason) => {
                self.failed = self.failed + 1;
                let mut m = "HARNESS ERROR: ".to_owned();
                m.append(reason.as_str());
                m
            },
        }
    }

    /// What is said of the suite, and its exit code: 1 where anything counts against it.
    pub fn summary(&self) -> (r: (String, i32))
        ensures
            r.0@ == "=== Escape suite: "@ + number::decimal(self.passed as nat) + " passed, "@ + number::decimal(
                self.failed as nat,
            ) + " failed, "@ + number::decimal(self.xfail as nat) + " xfail ==="@,
            r.1 == (if self.failed > 0 {
                1i32
            } else {
                0
            }),
    {
        let p = number::format_u64(self.passed as u64);
        let f = number::format_u64(self.failed as u64);
        let x = number::format_u64(self.xfail as u64);
        let mut s = text::cat5("=== Escape suite: ", p.as_str(), " passed, ", f.as_str(), " failed, ");
        s.append(x.as_str());
        s.append(" xfail ===");
        (
            s,
            if self.failed > 0 {
                1
            } else {
                0
            },
        )
    }
}

/// The suite passes an attempt on the strength of its exit code only where the attempt itself saw a
/// denial; an attempt that proved nothing never passes.
pub proof fn only_a_denial_passes(failed: Option<(Refusal, String)>, o: Outcome, result: ScenarioResult)
    requires
        match failed {
            None => o is Escaped,
            Some((e, m)) => if denies(e) || leads_nowhere(e) {
                o is Blocked
            } else {
                o == Outcome::Unverified(m)
            },
        },
        match outcome_code(o) {
            0 => result is Blocked,
            1 => result is Escaped,
            2 => result is Unverified,
            _ => result is HarnessError,
        },
    ensures
        result is Blocked <==> (failed matches Some((e, _)) && (denies(e) || leads_nowhere(e))),
        failed is None ==> counts_against(result, None),
{
}

} // verus!
