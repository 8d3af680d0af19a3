use aivisor::bpf::maps::BpfManager;
use aivisor::error::Error;
use aivisor::id::{CgroupId, SandboxId};
use aivisor::policy::compile::{AccessDefault, ExecPolicy, ExecRule, Policy, RuntimeOpts};
use aivisor::policy::landlock_bits;
use aivisor::policy_ref::PolicyRef;
use aivisor::runtime::bpf::enforcement;
use aivisor::runtime::cgroup::Cgroup;
use aivisor::runtime::child::Supervisor;
use aivisor::runtime::defaults::default_policy;
use aivisor::runtime::manager::SandboxManager;
use aivisor::runtime::plan::{Act, Blame};
use aivisor::runtime::probe::KernelCaps;
use aivisor::sandbox::{Duration, ResourceLimits, SandboxSpec, WorkspaceSpec};
use aivisor::state::SandboxState;

fn kernel() -> KernelCaps {
    KernelCaps {
        kernel: (6, 1),
        cgroup_v2: true,
        clone3: true,
        clone_into_cgroup: true,
        cgroup_kill: true,
        overlayfs: true,
        overlayfs_in_userns: true,
        unprivileged_userns: true,
        controllers: vec!["cpu".into(), "memory".into()],
    }
}

fn manager() -> SandboxManager {
    let caps = kernel();
    let abi = SandboxManager::check_kernel(&caps, 3).unwrap();
    SandboxManager::new(caps, abi, enforcement(&Ok(()))).unwrap_or_else(|e| panic!("{}", e.to_string()))
}

fn asked(id: SandboxId, policy: Option<&str>) -> SandboxSpec {
    SandboxSpec {
        id,
        template: "base".into(),
        limits: ResourceLimits::default(),
        workspace: WorkspaceSpec::Tmpfs { size: 268435456 },
        env: vec![("A".to_string(), "1".to_string())],
        timeout: Some(Duration { secs: 60, nanos: 500_000_000 }),
        policy: policy.map(|name| PolicyRef { name: name.to_string(), overrides: None }),
    }
}

/// Makes a sandbox as though everything that it needs came about.
fn made(m: &mut SandboxManager, bpf: &mut BpfManager, spec: SandboxSpec, cgid: u64) -> SandboxId {
    let creation = m.create(&spec);
    bpf.register_sandbox(CgroupId::new(cgid)).unwrap();
    bpf.finish_register(CgroupId::new(cgid), Ok(())).unwrap();
    let cgroup = Cgroup { path: creation.cgroup_path, id: CgroupId::new(cgid) };
    match m.finish_create(bpf, spec, cgroup, Ok(creation.rootfs)) {
        Ok(id) => id,
        Err((e, _)) => panic!("{}", e.to_string()),
    }
}

#[test]
fn test_default_policy_is_deny_by_default_everywhere() {
    let policy = default_policy();
    assert_eq!(
        policy.filesystem.as_ref().unwrap().default,
        AccessDefault::Deny
    );
    assert_eq!(
        policy.network.as_ref().unwrap().default,
        AccessDefault::Deny
    );
    assert!(policy.network.as_ref().unwrap().block_metadata);
    assert!(
        policy.exec_policy.is_none(),
        "exec left None so the dynamic per-call rule applies"
    );
}

#[test]
fn test_manager_create_list_destroy() {
    let mut manager = manager();
    let mut bpf = BpfManager::new();
    let spec = asked(SandboxId::new(), None);

    let id = made(&mut manager, &mut bpf, spec, 7);
    let list = manager.list();
    assert_eq!(list.len(), 1);

    assert!(manager.destroy(&id).is_some());
    let list = manager.list();
    assert_eq!(list.len(), 0);
}

#[test]
fn test_destroy_idempotent() {
    let mut manager = manager();
    let id = SandboxId::new();
    // There is nothing to do, and nothing to fail.
    assert!(manager.destroy(&id).is_none());
}

#[test]
fn the_default_policy_confines_writes_to_the_workspace() {
    let plan = default_policy().compile_landlock(3);
    for path in ["/workspace/a", "/tmp/a"] {
        assert!(plan.permits(path, landlock_bits::WRITE_FILE));
    }
    for path in ["/usr/bin/a", "/etc/ssl/certs/a", "/", "/workspaces", "/home"] {
        assert!(!plan.permits(path, landlock_bits::WRITE_FILE));
    }
    assert!(plan.permits("/usr/bin/a", landlock_bits::EXECUTE));
    assert!(!plan.permits("/workspace/a", landlock_bits::EXECUTE));
}

#[test]
fn a_kernel_without_enforcement_runs_nothing() {
    let e = enforcement(&Err("no BTF".to_string())).unwrap_err();
    assert_eq!(
        e.to_string(),
        "launch failed: BPF LSM enforcement unavailable: no BTF — the sandbox would run without in-kernel policy, so the launch is refused"
    );
    match SandboxManager::new(kernel(), 3, Err(e)) {
        Err(Error::LaunchFailed(m)) => assert!(m.contains("no BTF")),
        _ => panic!("nothing is enforced"),
    }
    assert_eq!(SandboxManager::check_kernel(&kernel(), 5).unwrap(), 5);
    assert!(SandboxManager::check_kernel(&kernel(), 0).is_err());
    assert!(SandboxManager::check_kernel(&kernel(), -38).is_err());
    let old = KernelCaps { overlayfs: false, ..kernel() };
    assert_eq!(
        SandboxManager::check_kernel(&old, 5).unwrap_err().to_string(),
        "kernel feature missing: hardware requirements (min kernel: 6.1)"
    );
}

#[test]
fn a_sandbox_is_made_under_its_own_identifier() {
    let m = manager();
    let id = SandboxId::new();
    let c = m.create(&asked(id, None));
    let shown = id.to_string();
    assert_eq!(c.cgroup_path, format!("/sys/fs/cgroup/aivisor/{shown}"));
    assert_eq!(c.rootfs.lower, "/var/lib/aivisor/templates/base");
    assert_eq!(c.rootfs.upper, format!("/run/aivisor/sandboxes/{shown}/upper"));
    assert_eq!(c.cgroup_steps.len(), 9);
    assert_eq!(c.rootfs_steps.len(), 4);
}

#[test]
fn a_sandbox_that_could_not_be_made_leaves_nothing_registered() {
    let mut m = manager();
    let mut bpf = BpfManager::new();
    bpf.finish_register(CgroupId::new(7), Ok(())).unwrap();
    let cgroup = Cgroup { path: "/cg".into(), id: CgroupId::new(7) };
    let made = m.finish_create(&mut bpf, asked(SandboxId::new(), None), cgroup, Err(Error::MountSetup("x".into())));
    match made {
        Err((e, Some(deletes))) => {
            assert_eq!(e.to_string(), "mount setup failed: x");
            assert_eq!(deletes.len(), 1);
        }
        _ => panic!("the sandbox was not made"),
    }
    assert!(!bpf.registered.contains_key(&7));
    assert!(m.list().is_empty());
}

#[test]
fn one_payload_runs_at_a_time() {
    let mut m = manager();
    let mut bpf = BpfManager::new();
    let id = made(&mut m, &mut bpf, asked(SandboxId::new(), None), 7);
    let l = m.exec_payload(&id, "/bin/sh").unwrap();
    assert_eq!(l.env, vec![("A".to_string(), "1".to_string())]);
    assert_eq!(l.cgid, CgroupId::new(7));
    // The default policy says nothing of programs: the one that is launched is the only one.
    assert_eq!(l.policy.exec_paths, vec!["/bin/sh"]);
    assert!(l.policy.landlock.permits("/bin/sh", landlock_bits::EXECUTE | landlock_bits::READ_FILE));
    assert!(!l.policy.landlock.permits("/bin/ls", landlock_bits::EXECUTE));
    assert_eq!(l.policy.seccomp_profile, "aivisor-default");
    assert!(!l.bpf_plan.exec_policy_present);
    assert_eq!(m.list()[0].state, SandboxState::Running);
    let e = m.exec_payload(&id, "/bin/sh").unwrap_err();
    assert!(e.to_string().contains("already running a command"), "{}", e.to_string());
    m.finish_exec(&id);
    assert_eq!(m.list()[0].state, SandboxState::Ready);
    assert!(m.exec_payload(&id, "/bin/sh").is_ok());
}

#[test]
fn launches_are_refused_for_what_is_wrong_with_them() {
    let mut m = manager();
    let mut bpf = BpfManager::new();
    let id = made(&mut m, &mut bpf, asked(SandboxId::new(), Some("missing")), 7);
    let said = |r: Result<aivisor::runtime::manager::ExecLaunch, Error>| r.unwrap_err().to_string();
    assert_eq!(
        said(m.exec_payload(&id, "sh")),
        "launch failed: cmd must be an absolute path inside the sandbox, got \"sh\" — aivisor does not perform PATH lookup"
    );
    assert_eq!(said(m.exec_payload(&SandboxId::new(), "/bin/sh")), "launch failed: sandbox not found");
    assert_eq!(
        said(m.exec_payload(&id, "/bin/sh")),
        "invalid policy: sandbox references policy \"missing\", which is not registered"
    );
    assert_eq!(m.list()[0].state, SandboxState::Ready);
    m.registry[0].asked.policy = None;
    m.registry[0].rootfs = None;
    assert_eq!(said(m.exec_payload(&id, "/bin/sh")), "launch failed: no rootfs");
    assert_eq!(
        m.workspace_upper_dir(&id).unwrap_err().to_string(),
        "launch failed: no rootfs"
    );
    m.registry[0].cgroup = None;
    m.registry[0].state = SandboxState::Ready;
    assert_eq!(said(m.exec_payload(&id, "/bin/sh")), "launch failed: no cgroup");
    assert_eq!(SandboxManager::dup_refused("x").to_string(), "launch failed: dup cgroup fd: x");
}

#[test]
fn a_registered_policy_decides_what_may_run() {
    let mut m = manager();
    let mut bpf = BpfManager::new();
    let policy = Policy {
        exec_policy: Some(ExecPolicy {
            default: AccessDefault::Deny,
            allow: vec![
                ExecRule::Path { path: "/usr/bin/python3".into(), pin: None },
                ExecRule::Prefix("/usr/lib/".into()),
            ],
        }),
        runtime: Some(RuntimeOpts {
            seccomp_profile: Some("aivisor-strict".into()),
            landlock_abi_min: None,
            timeout: None,
            max_idle: None,
        }),
        ..default_policy()
    };
    m.register_policy("p".to_string(), policy);
    let id = made(&mut m, &mut bpf, asked(SandboxId::new(), Some("p")), 7);
    let l = m.exec_payload(&id, "/bin/sh").unwrap();
    assert_eq!(l.policy.exec_paths, vec!["/usr/bin/python3"]);
    assert_eq!(l.policy.exec_prefixes, vec!["/usr/lib/"]);
    assert_eq!(l.policy.seccomp_profile, "aivisor-strict");
    assert!(!l.policy.landlock.permits("/bin/sh", landlock_bits::EXECUTE));
    assert!(l.bpf_plan.exec_policy_present);
}

#[test]
fn a_sandbox_is_stopped_and_goes_on() {
    let mut m = manager();
    let mut bpf = BpfManager::new();
    let id = made(&mut m, &mut bpf, asked(SandboxId::new(), None), 7);
    let step = m.pause(&id).unwrap().unwrap();
    assert!(matches!(&step.act, Act::WriteFile { path, contents }
        if path.ends_with("/cgroup.freeze") && contents == "1"));
    m.paused(&id);
    assert_eq!(m.list()[0].state, SandboxState::Paused);
    let step = m.resume(&id).unwrap().unwrap();
    assert!(matches!(&step.act, Act::WriteFile { contents, .. } if contents == "0"));
    m.resumed(&id);
    assert_eq!(m.list()[0].state, SandboxState::Running);
    let other = SandboxId::new();
    assert!(matches!(m.pause(&other), Err(Error::AlreadyTerminated)));
    assert!(matches!(m.resume(&other), Err(Error::AlreadyTerminated)));
}

#[test]
fn a_sandbox_is_taken_down_with_its_enforcement_last() {
    let mut m = manager();
    let mut bpf = BpfManager::new();
    let a = made(&mut m, &mut bpf, asked(SandboxId::new(), None), 7);
    let b = made(&mut m, &mut bpf, asked(SandboxId::new(), None), 8);
    m.registry[0].supervisor = Some(Supervisor { pid: 9 });
    let steps = m.destroy(&a).unwrap();
    assert!(matches!(steps[0].act, Act::KillPayload));
    assert!(matches!(steps[1].act, Act::KillCgroup(_)));
    assert!(matches!(steps[2].act, Act::AwaitEmpty(_)));
    assert!(matches!(steps[3].act, Act::RemoveDir(_)));
    assert!(matches!(steps[4].act, Act::DetachHooks));
    assert!(matches!(&steps[5].act, Act::RemoveTree(p) if *p == format!("/run/aivisor/sandboxes/{}", a.to_string())));
    assert!(matches!(steps[6].act, Act::Deregister(7)));
    assert_eq!(steps[0].blame, Blame::Nobody);
    assert_eq!(steps[1].blame, Blame::Cgroup);
    assert!(m.destroy(&a).is_none());
    assert_eq!(m.list().len(), 1);
    assert!(m.list()[0].id.is(&b));
    assert_eq!(m.workspace_upper_dir(&b).unwrap(), format!("/run/aivisor/sandboxes/{}/upper/workspace", b.to_string()));
    assert_eq!(m.workspace_upper_dir(&a).unwrap_err().to_string(), "launch failed: sandbox not found");
}

#[test]
fn only_old_empty_cgroups_of_sandboxes_are_orphans() {
    let name = SandboxId::new().to_string();
    assert!(SandboxManager::is_orphan(&name, true, Some(30), " \n"));
    assert!(!SandboxManager::is_orphan(&name, true, Some(29), ""));
    assert!(!SandboxManager::is_orphan(&name, true, None, ""));
    assert!(!SandboxManager::is_orphan(&name, false, Some(60), ""));
    assert!(!SandboxManager::is_orphan(&name, true, Some(60), "12\n"));
    assert!(!SandboxManager::is_orphan("system.slice", true, Some(60), ""));
    assert!(!SandboxManager::is_orphan(&"x".repeat(36), true, Some(60), ""));
}

#[test]
fn a_sandbox_runs_with_its_names_in_order_each_once() {
    let mut m = manager();
    let mut bpf = BpfManager::new();
    let mut spec = asked(SandboxId::new(), None);
    for (name, value) in [("PATH", "/bin"), ("B", "2"), ("\u{e9}", "3"), ("", "0"), ("A", "9"), ("AB", "4"), ("a", "5"), ("B", "7")] {
        spec.set_env(name.to_string(), value.to_string());
    }
    let ordered: Vec<(String, String)> = [
        ("", "0"),
        ("A", "9"),
        ("AB", "4"),
        ("B", "7"),
        ("PATH", "/bin"),
        ("a", "5"),
        ("\u{e9}", "3"),
    ]
    .iter()
    .map(|(n, v)| (n.to_string(), v.to_string()))
    .collect();
    assert_eq!(spec.env, ordered);
    let sorted: std::collections::BTreeMap<String, String> = ordered.iter().cloned().collect();
    assert_eq!(spec.env, sorted.into_iter().collect::<Vec<_>>());
    assert_eq!(spec.timeout, Some(Duration { secs: 60, nanos: 500_000_000 }));

    let id = made(&mut m, &mut bpf, spec, 11);
    let l = m.exec_payload(&id, "/bin/true").unwrap_or_else(|e| panic!("{}", e.to_string()));
    assert_eq!(l.env, ordered);
}
