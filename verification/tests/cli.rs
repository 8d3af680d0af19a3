use aivisor::cli::{
    bool_emoji, check_command, cmd_run, command_candidates, doctor_report, fits_duration, inspect_lines, invalid_size,
    parse_duration, ps_lines, resolve_command, run_exit_code, run_limits, run_spec, split_size, state_name, RunArgs, CLI_POLICY_NAME,
};
use aivisor::error::Error;
use aivisor::id::SandboxId;
use aivisor::runtime::defaults::default_policy;
use aivisor::runtime::manager::SandboxSummary;
use aivisor::runtime::probe::KernelCaps;
use aivisor::sandbox::{CpuQuota, Duration, ResourceLimits, WorkspaceSpec};
use aivisor::state::SandboxState;

fn args(cmd: &[&str]) -> RunArgs {
    RunArgs {
        template: "base".into(),
        cpu: None,
        memory: None,
        pids: None,
        workspace_size: None,
        timeout: None,
        policy: None,
        cmd: cmd.iter().map(|c| c.to_string()).collect(),
        found: vec![],
    }
}

#[test]
fn durations_have_a_unit() {
    assert_eq!(parse_duration("90s"), Ok(Duration::from_secs(90)));
    assert_eq!(parse_duration(" 30m "), Ok(Duration { secs: 1800, nanos: 0 }));
    assert_eq!(parse_duration("2h"), Ok(Duration::from_secs(7200)));
    for s in ["", "5", "s", "-1s", "5ms", "1d", "m5"] {
        assert_eq!(parse_duration(s), Err(format!("invalid duration: {s}")));
    }
    assert!(fits_duration("18446744073709551615s"));
    assert!(!fits_duration("18446744073709551615m"));
}

#[test]
fn sizes_have_binary_and_decimal_units() {
    assert_eq!(split_size("1.5Gi"), ("1.5".to_string(), 1 << 30));
    assert_eq!(split_size(" 512Mi "), ("512".to_string(), 1 << 20));
    assert_eq!(split_size("4Ki"), ("4".to_string(), 1024));
    assert_eq!(split_size("1G"), ("1".to_string(), 1_000_000_000));
    assert_eq!(split_size("1M"), ("1".to_string(), 1_000_000));
    assert_eq!(split_size("1K"), ("1".to_string(), 1000));
    assert_eq!(split_size("77"), ("77".to_string(), 1));
    assert_eq!(invalid_size(" x "), "invalid size: x");
}

#[test]
fn a_command_is_named_by_its_path_or_its_name() {
    let v = |c: &[&str]| c.iter().map(|s| s.to_string()).collect::<Vec<String>>();
    assert!(check_command(&v(&["/bin/sh", "-c"])).is_ok());
    assert!(check_command(&v(&["sh"])).is_ok());
    for bad in [&[][..], &[""][..], &["./sh"][..], &["bin/sh"][..]] {
        assert!(check_command(&v(bad)).unwrap_err().contains("absolute path"));
    }
}

#[test]
fn a_name_is_looked_for_in_the_usual_directories() {
    let paths = command_candidates("sh");
    assert_eq!(
        paths,
        vec!["/usr/local/sbin/sh", "/usr/local/bin/sh", "/usr/sbin/sh", "/usr/bin/sh", "/sbin/sh", "/bin/sh"]
    );
    assert_eq!(resolve_command("sh", &vec![false, false, false, true, false, true]).unwrap(), "/usr/bin/sh");
    assert_eq!(resolve_command("sh", &vec![false, false, false, false, false, true]).unwrap(), "/bin/sh");
    assert_eq!(
        resolve_command("sh", &vec![false; 6]).unwrap_err(),
        "program \"sh\" is in none of /usr/local/sbin, /usr/local/bin, /usr/sbin, /usr/bin, /sbin, /bin inside the sandbox"
    );
    assert!(resolve_command("sh", &vec![]).is_err());
    // A path is taken as it is given, found or not.
    assert_eq!(resolve_command("/opt/x", &vec![true; 6]).unwrap(), "/opt/x");
    assert!(resolve_command("./x", &vec![true; 6]).unwrap_err().contains("absolute path"));
}

#[test]
fn a_run_takes_a_program_by_its_name() {
    let id = SandboxId::new();
    let mut a = args(&["python3", "-c", "print(2+2)"]);
    a.cpu = Some(Ok(CpuQuota::from_quota(200_000)));
    a.memory = Some(Ok(2_147_483_648));
    a.pids = Some(512);
    a.found = vec![false, false, false, true, false, true];
    let plan = cmd_run(id, a).unwrap();
    assert_eq!(plan.cmd, "/usr/bin/python3");
    assert_eq!(plan.args, vec!["-c", "print(2+2)"]);
    let cpu = plan.asked.limits.cpu_max.unwrap();
    assert_eq!((cpu.quota_us, cpu.period_us), (200_000, 100_000));
    assert_eq!(plan.asked.limits.memory_max, Some(2_147_483_648));
    assert_eq!(plan.asked.limits.pids_max, Some(512));
}

#[test]
fn a_run_asks_for_what_its_arguments_say() {
    let id = SandboxId::new();
    let mut a = args(&["/bin/sh", "-c", "id"]);
    a.cpu = Some(Ok(CpuQuota::from_quota(150_000)));
    a.memory = Some(Ok(1000));
    a.pids = Some(64);
    a.workspace_size = Some(Ok(4096));
    a.timeout = Some("30m".into());
    a.policy = Some(("p.yaml".into(), Ok(default_policy())));
    let plan = cmd_run(id, a).unwrap();
    assert_eq!(plan.cmd, "/bin/sh");
    assert_eq!(plan.args, vec!["-c", "id"]);
    assert!(plan.policy.is_some());
    assert_eq!(plan.asked.policy.unwrap().name, CLI_POLICY_NAME);
    assert_eq!(plan.asked.limits.memory_max, Some(1000));
    assert_eq!(plan.asked.limits.memory_high, Some(900));
    assert_eq!(plan.asked.limits.cpu_max.unwrap().quota_us, 150_000);
    assert_eq!(plan.asked.timeout, Some(Duration { secs: 1800, nanos: 0 }));
    assert!(matches!(plan.asked.workspace, WorkspaceSpec::Tmpfs { size: 4096 }));

    let plan = cmd_run(id, args(&["/bin/true"])).unwrap();
    assert!(matches!(plan.asked.workspace, WorkspaceSpec::Tmpfs { size: 1073741824 }));
    assert!(plan.asked.policy.is_none());
    assert_eq!(plan.asked.timeout, None);
}

#[test]
fn a_run_is_refused_for_the_first_thing_wrong() {
    let id = SandboxId::new();
    let wrong = |a: RunArgs| cmd_run(id, a).unwrap_err();
    assert!(wrong(args(&[])).contains("absolute path"));
    assert!(wrong(args(&["./sh"])).contains("absolute path"));
    assert!(wrong(args(&["sh"])).contains("is in none of"));
    let bad_policy = || Some(("p.yaml".to_string(), Err(Error::PolicyInvalid("x".into()))));
    let mut a = args(&["/bin/sh"]);
    a.policy = bad_policy();
    a.cpu = Some(Err("cpu?".into()));
    assert_eq!(wrong(a), "policy p.yaml: invalid policy: x");
    let mut a = args(&["/bin/sh"]);
    a.cpu = Some(Err("cpu?".into()));
    a.memory = Some(Err("memory?".into()));
    assert_eq!(wrong(a), "cpu?");
    let mut a = args(&["/bin/sh"]);
    a.memory = Some(Err("memory?".into()));
    assert_eq!(wrong(a), "memory?");
    // Neither a workspace size nor a timeout that is none refuses a run.
    let mut a = args(&["/bin/sh"]);
    a.workspace_size = Some(Err("size?".into()));
    a.timeout = Some("soon".into());
    let plan = cmd_run(id, a).unwrap();
    assert!(matches!(plan.asked.workspace, WorkspaceSpec::Tmpfs { size: 1073741824 }));
    assert_eq!(plan.asked.timeout, None);
}

#[test]
fn limits_and_the_sandbox_follow_from_their_parts() {
    let l = run_limits(None, Some(10), None);
    assert_eq!((l.memory_max, l.memory_high, l.swap_max), (Some(10), Some(9), Some(0)));
    let s = run_spec(SandboxId::new(), "t".into(), ResourceLimits::default(), None, &Some("1h".into()), true);
    assert_eq!(s.timeout, Some(Duration { secs: 3600, nanos: 0 }));
    assert_eq!(s.policy.unwrap().name, "cli-policy");
}

#[test]
fn a_run_ends_with_the_payloads_code() {
    assert_eq!(run_exit_code(&Ok(3)), 3);
    assert_eq!(run_exit_code(&Err(Error::Timeout)), -1);
}

#[test]
fn the_doctor_reports_line_by_line() {
    let caps = KernelCaps {
        kernel: (6, 1),
        cgroup_v2: true,
        clone3: true,
        clone_into_cgroup: true,
        cgroup_kill: false,
        overlayfs: true,
        overlayfs_in_userns: true,
        unprivileged_userns: true,
        controllers: vec!["cpu".into(), "mem\"ory".into()],
    };
    let lines = doctor_report(&caps);
    assert_eq!(lines[0], "AIVisor Kernel Capability Report");
    assert_eq!(lines[3], "Kernel: 6.1");
    assert_eq!(lines[4], "cgroup v2:              \u{2713}");
    assert_eq!(lines[7], "cgroup.kill:            \u{2717}");
    assert_eq!(lines[11], format!("Controllers:            {:?}", caps.controllers));
    assert_eq!(lines.len(), 12);
    assert_eq!(bool_emoji(true), "\u{2713}");
}

fn summary(state: SandboxState) -> SandboxSummary {
    SandboxSummary { id: SandboxId::new(), state, template: "base".into() }
}

#[test]
fn sandboxes_are_listed_in_a_table() {
    assert_eq!(ps_lines(&vec![]), vec!["No running sandboxes"]);
    let list = vec![summary(SandboxState::Ready), summary(SandboxState::Paused)];
    let lines = ps_lines(&list);
    assert_eq!(lines[0], format!("{:<40} {:<15} {}", "ID", "STATE", "TEMPLATE"));
    assert_eq!(lines[1], "-".repeat(75));
    assert_eq!(lines[2], format!("{} Ready base", list[0].id.to_string()));
    assert_eq!(lines[3], format!("{} Paused base", list[1].id.to_string()));
}

#[test]
fn one_sandbox_is_shown() {
    let list = vec![summary(SandboxState::Ready), summary(SandboxState::Running)];
    let lines = inspect_lines(&list, &list[1].id).unwrap();
    assert_eq!(lines[0], format!("ID:       {}", list[1].id.to_string()));
    assert_eq!(lines[1], "State:    Running");
    assert_eq!(lines[2], "Template: base");
    assert!(inspect_lines(&list, &SandboxId::new()).is_none());
}

#[test]
fn states_are_named_as_they_are_written() {
    for s in [
        SandboxState::Provisioning,
        SandboxState::Ready,
        SandboxState::Running,
        SandboxState::Paused,
        SandboxState::Checkpointing,
        SandboxState::Restoring,
        SandboxState::Terminating,
        SandboxState::Terminated,
    ] {
        assert_eq!(state_name(s), format!("{s:?}"));
    }
}
