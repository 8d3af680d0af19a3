use aivisor::id::{CgroupId, SandboxId};
use aivisor::runtime::cgroup::{wait_for_empty, Cgroup, EmptyWait, Killing, EMPTY_TIMEOUT_MS};
use aivisor::runtime::plan::{Act, Blame, Step};
use aivisor::runtime::probe::{
    check_hard_requirements, probe_all, probe_clone3, probe_clone_into_cgroup, probe_controllers, probe_kernel_version,
    probe_overlayfs, probe_overlayfs_in_userns, probe_unprivileged_userns, sysctl_path, KernelCaps, Observed, ENOSYS,
};
use aivisor::runtime::rootfs::{Rootfs, Visit, Visited, WalkStep};
use aivisor::sandbox::{CpuQuota, IoLimit, ResourceLimits, WorkspaceSpec};

fn observed() -> Observed {
    Observed {
        release: Some("6.8.0-45-generic\n".to_string()),
        cgroup_v2: true,
        clone3_errno: Some(libc::EINVAL),
        cgroup_kill: true,
        overlayfs: true,
        userns_switch: Some("1\n".to_string()),
        controllers: Some("cpuset cpu io memory pids\n".to_string()),
    }
}

#[test]
fn test_probe_does_not_panic() {
    let caps = probe_all(&observed());
    println!("kernel: {}.{}", caps.kernel.0, caps.kernel.1);
    println!("cgroup_v2: {}", caps.cgroup_v2);
    println!("overlayfs: {}", caps.overlayfs);
    println!("controllers: {:?}", caps.controllers);
    let nothing = Observed {
        release: None,
        cgroup_v2: false,
        clone3_errno: None,
        cgroup_kill: false,
        overlayfs: false,
        userns_switch: None,
        controllers: None,
    };
    let caps = probe_all(&nothing);
    assert_eq!(caps.kernel, (0, 0));
}

#[test]
fn what_was_seen_tells_what_the_kernel_can_do() {
    let caps = probe_all(&observed());
    assert_eq!(caps.kernel, (6, 8));
    assert!(caps.clone3 && caps.clone_into_cgroup && caps.overlayfs_in_userns && caps.unprivileged_userns);
    assert_eq!(caps.controllers, vec!["cpuset", "cpu", "io", "memory", "pids"]);
    assert!(check_hard_requirements(&caps).is_ok());
    assert_eq!(probe_kernel_version(&Some("5.15".to_string())), (5, 15));
    assert_eq!(probe_kernel_version(&Some("5.x".to_string())), (5, 0));
    assert_eq!(probe_kernel_version(&Some("5".to_string())), (0, 0));
    assert!(!probe_clone3(Some(ENOSYS)));
    assert_eq!(ENOSYS, libc::ENOSYS);
    assert!(probe_clone3(Some(libc::EFAULT)));
    assert!(probe_clone_into_cgroup((5, 7)) && !probe_clone_into_cgroup((5, 6)) && probe_clone_into_cgroup((6, 0)));
    assert!(probe_overlayfs_in_userns((5, 11)) && !probe_overlayfs_in_userns((5, 10)));
    assert!(probe_unprivileged_userns(&None));
    assert!(!probe_unprivileged_userns(&Some("0\n".to_string())));
    assert!(probe_controllers(&None).is_empty());
    assert_eq!(sysctl_path("kernel.unprivileged_userns_clone"), "/proc/sys/kernel/unprivileged_userns_clone");
}

#[test]
fn a_kernel_is_refused_for_the_first_thing_it_lacks() {
    let with = |cgroup_v2: bool, controllers: Vec<String>, overlayfs: bool| KernelCaps {
        cgroup_v2,
        controllers,
        overlayfs,
        ..probe_all(&observed())
    };
    let cpu = || vec!["cpu".to_string()];
    assert!(check_hard_requirements(&with(false, vec![], false)).unwrap_err().contains("cgroup v2"));
    assert!(check_hard_requirements(&with(true, vec![], false)).unwrap_err().contains("controllers"));
    assert!(check_hard_requirements(&with(true, cpu(), false)).unwrap_err().contains("overlay"));
    assert!(check_hard_requirements(&with(true, cpu(), true)).is_ok());
}

#[test]
fn overlays_are_tried_out_in_a_scratch_directory() {
    let steps = probe_overlayfs("/t");
    assert_eq!(steps.len(), 5);
    assert!(matches!(&steps[4].act, Act::Mount { target, data: Some(d), .. }
        if target == "/t/merged" && d == "lowerdir=/t/lower,upperdir=/t/upper,workdir=/t/work"));
}

fn written(steps: &[Step]) -> Vec<(String, String)> {
    steps
        .iter()
        .filter_map(|s| match &s.act {
            Act::WriteFile { path, contents } => Some((path.clone(), contents.clone())),
            _ => None,
        })
        .collect()
}

fn cgroup() -> Cgroup {
    Cgroup { path: "/cg".to_string(), id: CgroupId::new(5) }
}

#[test]
fn test_cgroup_create_destroy() {
    let root = "/sys/fs/cgroup";
    let id = SandboxId::new();
    let (path, steps) = Cgroup::create(root, &id);
    assert_eq!(path, format!("/sys/fs/cgroup/aivisor/{}", id.to_string()));
    assert_eq!(steps.len(), 9);
    assert!(matches!(&steps[0].act, Act::MakeDirs(p) if p == "/sys/fs/cgroup/aivisor"));
    let handed_down: Vec<String> = written(&steps).into_iter().map(|w| w.1).collect();
    assert_eq!(handed_down, vec!["+cpu", "+memory", "+pids", "+io"]);
    // Only the controller for devices may be missing.
    assert_eq!(steps[4].blame, Blame::Cgroup);
    assert_eq!(steps[5].blame, Blame::Nobody);
    assert!(matches!(&steps[6].act, Act::MakeDir(p) if *p == path));
    assert!(matches!(&steps[8].act, Act::ReadInode(p) if *p == path));

    let cg = Cgroup { path: path.clone(), id: CgroupId::new(1) };
    let limits = ResourceLimits::default();
    assert_eq!(
        written(&cg.apply(&limits)),
        vec![(format!("{path}/memory.swap.max"), "0".to_string())]
    );
    let stats = Cgroup::stats(&Some("4096\n".to_string()), &Some("max\n".to_string()), None).unwrap();
    println!("Cgroup stats: {stats:?}");

    // The directory itself is removed, last of all.
    let down = cg.destroy();
    assert!(matches!(&down[0].act, Act::KillCgroup(p) if *p == path));
    assert!(matches!(&down[1].act, Act::AwaitEmpty(p) if *p == format!("{path}/cgroup.events")));
    assert!(matches!(&down[2].act, Act::RemoveDir(p) if *p == path));
}

#[test]
fn limits_are_written_in_their_order() {
    let limits = ResourceLimits {
        cpu_max: Some(CpuQuota::from_quota(200_000)),
        memory_high: None,
        memory_max: Some(1_073_741_824),
        pids_max: Some(512),
        io_max: vec![
            IoLimit { major: 8, minor: 0, rbps: 1, wbps: 2 },
            IoLimit { major: 8, minor: 16, rbps: 3, wbps: 4 },
        ],
        swap_max: Some(0),
    };
    let got: Vec<String> = written(&cgroup().apply(&limits)).into_iter().map(|(p, c)| format!("{p} {c}")).collect();
    assert_eq!(
        got,
        vec![
            "/cg/cpu.max 200000 100000",
            "/cg/memory.high 966367641",
            "/cg/memory.max 1073741824",
            "/cg/pids.max 512",
            "/cg/memory.swap.max 0",
            "/cg/io.max 8:0 rbps=1 wbps=2",
            "/cg/io.max 8:16 rbps=3 wbps=4",
        ]
    );
    let huge = ResourceLimits { memory_max: Some(u64::MAX), ..ResourceLimits::default() };
    assert_eq!(written(&cgroup().apply(&huge))[0].1, (u64::MAX / 10).to_string());
    let said = ResourceLimits { memory_high: Some(7), memory_max: Some(100), ..ResourceLimits::default() };
    assert_eq!(written(&cgroup().apply(&said))[0].1, "7");
}

#[test]
fn a_cgroup_is_killed_as_a_whole_or_process_by_process() {
    let none: Result<String, String> = Err("gone".to_string());
    match cgroup().kill_all(true, &none).unwrap() {
        Killing::Whole(s) => {
            assert!(matches!(&s.act, Act::WriteFile { path, contents } if path == "/cg/cgroup.kill" && contents == "1"));
        }
        other => panic!("{other:?}"),
    }
    match cgroup().kill_all(false, &Ok("12\n0\n-3\n 13 \n".to_string())).unwrap() {
        Killing::Each { pids, then } => {
            assert_eq!(pids, vec![12, 13]);
            assert!(then.is_ok());
        }
        other => panic!("{other:?}"),
    }
    match cgroup().kill_all(false, &Ok("12\nx\n13\n".to_string())).unwrap() {
        Killing::Each { pids, then } => {
            assert_eq!(pids, vec![12]);
            assert_eq!(then.unwrap_err().to_string(), "cgroup setup failed: invalid pid in cgroup.procs");
        }
        other => panic!("{other:?}"),
    }
    assert_eq!(
        cgroup().kill_all(false, &none).unwrap_err().to_string(),
        "cgroup setup failed: read cgroup.procs failed: gone"
    );
}

#[test]
fn a_dying_cgroup_is_waited_for() {
    let busy: Result<String, String> = Ok("populated 1\nfrozen 0\n".to_string());
    let idle: Result<String, String> = Ok("populated 0\nfrozen 1\n".to_string());
    assert!(matches!(wait_for_empty(0, EMPTY_TIMEOUT_MS, &busy), EmptyWait::Again));
    assert!(matches!(wait_for_empty(EMPTY_TIMEOUT_MS, EMPTY_TIMEOUT_MS, &idle), EmptyWait::Empty));
    match wait_for_empty(EMPTY_TIMEOUT_MS + 1, EMPTY_TIMEOUT_MS, &idle) {
        EmptyWait::Failed(e) => {
            assert_eq!(e.to_string(), "cgroup setup failed: timeout waiting for cgroup to become empty");
        }
        other => panic!("{other:?}"),
    }
    match wait_for_empty(0, 1, &Err("gone".to_string())) {
        EmptyWait::Failed(e) => assert_eq!(e.to_string(), "cgroup setup failed: read cgroup.events: gone"),
        other => panic!("{other:?}"),
    }
}

#[test]
fn a_cgroups_files_are_read() {
    let stats = Cgroup::stats(&Some(" 4096\n".to_string()), &Some("x".to_string()), Some("s".to_string())).unwrap();
    assert_eq!(stats.memory_current, Some(4096));
    assert_eq!(stats.pids_current, None);
    assert_eq!(stats.cpu_stat.as_deref(), Some("s"));
    let psi = Cgroup::pressure(None, Some("p".to_string())).unwrap();
    assert_eq!(psi.cpu_pressure, None);
    assert_eq!(psi.memory_pressure.as_deref(), Some("p"));
    let killed = |s: &str| Cgroup::events(&Ok(s.to_string())).unwrap().oom_kill;
    assert!(killed("low 0\noom 1\noom_kill 2\n"));
    assert!(!killed("oom_kill 0\n"));
    assert!(!killed("oom 5\n"));
    // The last line that begins like it decides.
    assert!(!killed("oom_kill 1\noom_kill_group 0\n"));
    assert_eq!(
        Cgroup::events(&Err("gone".to_string())).unwrap_err().to_string(),
        "cgroup setup failed: read memory.events: gone"
    );
    assert!(matches!(&cgroup().freeze().act, Act::WriteFile { contents, .. } if contents == "1"));
    assert!(matches!(&cgroup().thaw().act, Act::WriteFile { contents, .. } if contents == "0"));
}

#[test]
fn test_rootfs_prepare_paths() {
    let spec = WorkspaceSpec::Tmpfs { size: 1073741824 };
    let (rootfs, steps) = Rootfs::prepare("/tmp/template", &spec, "test-1");
    let made: Vec<&String> = steps
        .iter()
        .filter_map(|s| match &s.act {
            Act::MakeDir(p) | Act::MakeDirs(p) => Some(p),
            _ => None,
        })
        .collect();
    assert!(made.contains(&&rootfs.merged));
    assert!(made.contains(&&rootfs.upper));
    assert!(made.contains(&&rootfs.work));
    assert_eq!(rootfs.lower, "/tmp/template");
    // lower/upper/work must never collapse onto each other.
    assert_ne!(rootfs.lower, rootfs.upper);
    assert_ne!(rootfs.upper, rootfs.work);
    assert_ne!(rootfs.lower, rootfs.merged);
    assert_eq!(made[0], "/run/aivisor/sandboxes/test-1");
}

fn layers() -> Rootfs {
    Rootfs { lower: "/l".into(), merged: "/m".into(), upper: "/u".into(), work: "/w".into() }
}

#[test]
fn the_overlay_is_mounted_over_the_template() {
    let step = layers().mount_overlay();
    assert!(matches!(&step.act, Act::Mount { target, data: Some(d), flags: 6, .. }
        if target == "/m" && d == "lowerdir=/l,upperdir=/u,workdir=/w,xino=off"));
    assert_eq!(step.lead, "overlay mount (/l on /m) failed: ");
    assert_eq!(
        layers().workspace_archive().unwrap_err().to_string(),
        "not supported: workspace archive in Phase 4"
    );
}

#[test]
fn both_writable_layers_are_handed_over_with_all_in_them() {
    let mut walk = layers().chown_upper_and_work(100000, 100001);
    let mut seen = vec![];
    let mut last = None;
    loop {
        match walk.next(last.take()) {
            WalkStep::HandOver(p) => {
                last = Some(if p == "/u" {
                    Visited::Directory(vec![Visit::Path("/u/a".into()), Visit::Path("/u/b".into())])
                } else {
                    Visited::Leaf
                });
                seen.push(p);
            }
            WalkStep::Finished => break,
            WalkStep::Failed(e) => panic!("{}", e.to_string()),
        }
    }
    assert_eq!(seen, vec!["/u", "/u/a", "/u/b", "/w"]);
}

#[test]
fn a_path_that_cannot_be_handed_over_ends_the_walk() {
    let said = |visited: Visited| {
        let mut walk = layers().chown_upper_and_work(1, 2);
        assert!(matches!(walk.next(None), WalkStep::HandOver(_)));
        match walk.next(Some(visited)) {
            WalkStep::Failed(e) => e.to_string(),
            other => panic!("{other:?}"),
        }
    };
    let m = || "no".to_string();
    assert_eq!(said(Visited::Refused(m())), "mount setup failed: lchown /u to 1:2: no");
    assert_eq!(said(Visited::Nul(m())), "mount setup failed: interior NUL in path /u: no");
    assert_eq!(said(Visited::NoMetadata(m())), "mount setup failed: symlink_metadata /u: no");
    assert_eq!(said(Visited::NoListing(m())), "mount setup failed: read_dir /u: no");
    assert_eq!(
        said(Visited::Directory(vec![Visit::Broken(m())])),
        "mount setup failed: read_dir entry: no"
    );
}
