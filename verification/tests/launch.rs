use aivisor::bpf::exec_rules::DirEntry;
use aivisor::error::Error;
use aivisor::policy::compile::LandlockPlan;
use aivisor::policy_ref::ExecIdentity;
use aivisor::runtime::abi;
use aivisor::runtime::child::{
    frame_message, message_length, receive_refused, ReceiveStage, Supervisor, WaitEvent, WaitStep,
};
use aivisor::runtime::identities::{
    collect_exec_identities, device_for_path, in_sandbox, mountinfo_path, parse_mount_devices,
    resolve_exec_identities_via_pid, Vantage,
};
use aivisor::runtime::launcher::{
    ChildMsg, LaunchAction, LaunchEvent, LaunchPolicy, Launcher, SpawnStage, CHILD_SETUP_FAILED_EXIT, MAX_MESSAGE,
    UID_RANGE_SIZE,
};
use aivisor::runtime::plan::{Act, Failure, Next, Plan};
use aivisor::runtime::probe::KernelCaps;
use aivisor::runtime::rootfs::Rootfs;

fn kernel(clone_into_cgroup: bool) -> KernelCaps {
    KernelCaps {
        kernel: (6, 1),
        cgroup_v2: true,
        clone3: true,
        clone_into_cgroup,
        cgroup_kill: true,
        overlayfs: true,
        overlayfs_in_userns: true,
        unprivileged_userns: true,
        controllers: vec!["cpu".into(), "memory".into()],
    }
}

#[test]
fn test_launcher_new() {
    let launcher = Launcher::new(kernel(true));
    assert!(launcher.next_uid_base >= 100000);
}

#[test]
fn test_uid_ranges_do_not_overlap_across_sandboxes() {
    let mut launcher = Launcher::new(kernel(true));
    let a = launcher.reserve_uids();
    let b = launcher.reserve_uids();
    assert!(b >= a + UID_RANGE_SIZE);
}

#[test]
fn ranges_of_user_ids_begin_again_when_they_run_out() {
    let mut launcher = Launcher::new(kernel(true));
    launcher.next_uid_base = u32::MAX - 5;
    assert_eq!(launcher.reserve_uids(), u32::MAX - 5);
    assert_eq!(launcher.next_uid_base, UID_RANGE_SIZE - 6);
}

#[test]
fn a_payload_is_born_into_namespaces_of_its_own() {
    let args = Launcher::new(kernel(true)).clone_args(7, 4096);
    for flag in [
        abi::CLONE_NEWUSER,
        abi::CLONE_NEWPID,
        abi::CLONE_NEWNS,
        abi::CLONE_NEWNET,
        abi::CLONE_NEWIPC,
        abi::CLONE_NEWUTS,
        abi::CLONE_NEWCGROUP,
        abi::CLONE_NEWTIME,
        abi::CLONE_PIDFD,
        abi::CLONE_INTO_CGROUP,
    ] {
        assert_eq!(args.flags & flag, flag);
    }
    assert_eq!((args.cgroup, args.pidfd, args.exit_signal), (7, 4096, 17));
    let args = Launcher::new(kernel(false)).clone_args(7, 4096);
    assert_eq!(args.flags & abi::CLONE_INTO_CGROUP, 0);
    assert_eq!(args.cgroup, 0);
}

#[test]
fn a_spawn_that_is_refused_says_where() {
    let said = |stage| Launcher::refused(stage, "no").to_string();
    assert_eq!(said(SpawnStage::Socket), "launch failed: sync socketpair: no");
    assert_eq!(said(SpawnStage::Clone), "launch failed: clone3: no");
    assert_eq!(said(SpawnStage::Descriptor), "launch failed: pidfd_open failed");
}

fn no() -> LaunchEvent {
    LaunchEvent::Failed(Failure::Refused { errno: 1, message: "no".to_string() })
}

#[test]
fn the_policy_is_installed_before_anything_runs() {
    let launcher = Launcher::new(kernel(false));
    let mut l = launcher.spawn(42, 100000);
    let mut written = vec![];
    let mut action = l.next(LaunchEvent::Done);
    while let LaunchAction::Do(i) = action {
        if let Act::WriteFile { path, contents } = &l.prep.steps[i].act {
            written.push((path.clone(), contents.clone()));
        }
        action = l.next(LaunchEvent::Done);
    }
    assert_eq!(
        written,
        vec![
            ("/proc/42/setgroups".to_string(), "deny".to_string()),
            ("/proc/42/uid_map".to_string(), "0 100000 65536\n".to_string()),
            ("/proc/42/gid_map".to_string(), "0 100000 65536\n".to_string()),
        ]
    );
    assert!(matches!(l.prep.steps[3].act, Act::OpenProcs));
    assert!(matches!(l.prep.steps[4].act, Act::WriteProcs(42)));
    assert!(matches!(action, LaunchAction::Wake));
    assert!(matches!(l.next(LaunchEvent::Done), LaunchAction::Listen));
    let ids = vec![ExecIdentity { dev: 1, inode: 2 }];
    match l.next(LaunchEvent::Heard(ChildMsg::Ready { exec_ids: ids })) {
        LaunchAction::Install(got) => assert_eq!(got, vec![ExecIdentity { dev: 1, inode: 2 }]),
        other => panic!("{other:?}"),
    }
    assert!(matches!(l.next(LaunchEvent::Done), LaunchAction::Release));
    assert!(matches!(l.next(LaunchEvent::Done), LaunchAction::Run));
}

/// What a launch comes to that fails at its first, at its second, ... event.
fn failing(events: Vec<LaunchEvent>) -> (String, bool) {
    let mut l = Launcher::new(kernel(true)).spawn(1, 100000);
    for e in events {
        if let LaunchAction::Fail { error, kill } = l.next(e) {
            return (error.to_string(), kill);
        }
    }
    panic!("the launch did not fail");
}

#[test]
fn every_failure_of_a_launch_is_told_and_leaves_no_child_behind() {
    let done = || LaunchEvent::Done;
    let ready = || LaunchEvent::Heard(ChildMsg::Ready { exec_ids: vec![] });
    assert_eq!(failing(vec![done(), no()]), ("namespace setup failed: setgroups: no".to_string(), true));
    let woken = || vec![done(), done(), done(), done()];
    let with = |more: Vec<LaunchEvent>| {
        let mut all = woken();
        all.extend(more);
        failing(all)
    };
    assert_eq!(with(vec![no()]), ("launch failed: sync send: no".to_string(), false));
    assert_eq!(
        with(vec![done(), LaunchEvent::Heard(ChildMsg::Error("e".into()))]),
        ("launch failed: child error: e".to_string(), true)
    );
    assert_eq!(
        with(vec![done(), LaunchEvent::Heard(ChildMsg::Exited(-3))]),
        ("launch failed: child exited early: -3".to_string(), false)
    );
    assert_eq!(
        with(vec![done(), LaunchEvent::Refused(Error::Timeout)]),
        ("sandbox timeout exceeded".to_string(), false)
    );
    assert_eq!(
        with(vec![done(), ready(), LaunchEvent::Refused(Error::PolicyInvalid("p".into()))]),
        ("invalid policy: p".to_string(), true)
    );
    assert_eq!(
        with(vec![done(), ready(), done(), no()]),
        ("launch failed: release child: no".to_string(), true)
    );
}

fn policy() -> LaunchPolicy {
    LaunchPolicy {
        landlock: LandlockPlan { rules: vec![], abi: 3 },
        seccomp_profile: "aivisor-default".into(),
        exec_paths: vec![],
        exec_prefixes: vec![],
    }
}

fn child_plan() -> Plan {
    let rootfs = Rootfs { lower: "/l".into(), merged: "/m".into(), upper: "/u".into(), work: "/w".into() };
    Plan::new(Launcher::child_setup(&rootfs, &policy(), "/bin/sh"))
}

#[test]
fn a_child_is_confined_before_it_reports_and_waits_before_it_runs() {
    let plan = child_plan();
    let at = |want: fn(&Act) -> bool| plan.steps.iter().position(|s| want(&s.act)).unwrap();
    let ready = at(|a| matches!(a, Act::ReportReady));
    let order = [
        at(|a| matches!(a, Act::PivotRoot { .. })),
        at(|a| matches!(a, Act::CollectExecutables)),
        at(|a| matches!(a, Act::ReadCapabilities)),
        at(|a| matches!(a, Act::RestrictSelf)),
        at(|a| matches!(a, Act::FilterCalls)),
        at(|a| matches!(a, Act::SetGroups(1000))),
        at(|a| matches!(a, Act::SetUsers(1000))),
        at(|a| matches!(a, Act::ClearCapabilities)),
        ready,
    ];
    assert!(order.windows(2).all(|w| w[0] < w[1]), "{order:?}");
    assert!(matches!(plan.steps[0].act, Act::AwaitByte));
    assert!(matches!(plan.steps[ready + 1].act, Act::AwaitByte));
    assert!(matches!(&plan.steps.last().unwrap().act, Act::Execute(c) if c == "/bin/sh"));
    assert_eq!(plan.steps.last().unwrap().lead, "execve(/bin/sh) failed: ");
}

#[test]
fn a_child_gives_up_at_its_first_fault() {
    let mut plan = child_plan();
    assert!(matches!(plan.next(None), Next::Do(0)));
    match plan.next(Some(Failure::Refused { errno: 4, message: "gone".into() })) {
        Next::Failed(f) => assert_eq!(f.describe(), "sync read: gone"),
        other => panic!("{other:?}"),
    }
    let mut plan = child_plan();
    let mut done = 0;
    while let Next::Do(_) = plan.next(None) {
        done += 1;
    }
    assert_eq!(done, plan.steps.len());
}

#[test]
fn a_payload_gets_its_arguments_and_its_environment() {
    assert_eq!(
        Launcher::exec_args("/bin/sh", &vec!["-c".to_string(), "id".to_string()]),
        vec!["/bin/sh", "-c", "id"]
    );
    assert_eq!(
        Launcher::exec_env(&vec![("A".to_string(), "1".to_string()), ("B".to_string(), "".to_string())]),
        vec!["A=1", "B="]
    );
}

#[test]
fn a_message_arrives_as_it_was_sent() {
    let framed = frame_message(&b"hello".to_vec());
    assert_eq!(framed, b"\x05\0\0\0hello".to_vec());
    let header: [u8; 4] = framed[..4].try_into().unwrap();
    assert_eq!(message_length(header).unwrap(), 5);
    assert_eq!(message_length((MAX_MESSAGE as u32).to_le_bytes()).unwrap(), MAX_MESSAGE);
    assert_eq!(
        message_length((MAX_MESSAGE as u32 + 1).to_le_bytes()).unwrap_err().to_string(),
        "launch failed: child message too large"
    );
    assert_eq!(receive_refused(ReceiveStage::Length, "x").to_string(), "launch failed: child recv (len): x");
    assert_eq!(receive_refused(ReceiveStage::Body, "x").to_string(), "launch failed: child recv (body): x");
    assert_eq!(receive_refused(ReceiveStage::Parse, "x").to_string(), "launch failed: child msg parse: x");
}

#[test]
fn a_payload_ends_with_its_code_or_its_signal() {
    let s = Supervisor { pid: 1 };
    let ended = |si_code, si_status| match s.wait(WaitEvent::Ended { si_code, si_status }) {
        WaitStep::Done(r) => r.unwrap(),
        other => panic!("{other:?}"),
    };
    assert_eq!(ended(libc::CLD_EXITED, 3), 3);
    assert_eq!(ended(libc::CLD_KILLED, libc::SIGKILL), 137);
    assert_eq!(ended(libc::CLD_DUMPED, libc::SIGSEGV), 139);
    let event = WaitEvent::Ended { si_code: libc::CLD_EXITED, si_status: CHILD_SETUP_FAILED_EXIT };
    assert!(matches!(s.wait(event), WaitStep::AskChild(127)));
    let left = |m| WaitEvent::Late { code: 127, left: m };
    assert!(matches!(s.wait(left(None)), WaitStep::Done(Ok(127))));
    match s.wait(left(Some(ChildMsg::Error("execve failed".into())))) {
        WaitStep::Done(Err(e)) => assert_eq!(e.to_string(), "launch failed: execve failed"),
        other => panic!("{other:?}"),
    }
    let refused = |errno| WaitEvent::Refused { errno, message: "m".into() };
    assert!(matches!(s.wait(refused(libc::EINTR)), WaitStep::Again));
    match s.wait(refused(libc::ECHILD)) {
        WaitStep::Done(Err(e)) => assert_eq!(e.to_string(), "launch failed: waitid: m"),
        other => panic!("{other:?}"),
    }
    assert_eq!(Supervisor::signal_refused("m").to_string(), "launch failed: pidfd_send_signal: m");
}

const MOUNTINFO: &str = "\
22 1 8:1 / / rw - ext4 /dev/sda1 rw
23 22 0:21 / /usr rw - overlay overlay rw
nonsense
24 22 0:x / /bad rw - tmpfs tmpfs rw
25 22 0:30 / /usr/lib rw - tmpfs tmpfs rw
";

#[test]
fn the_longest_mount_point_comes_first() {
    let t = parse_mount_devices(MOUNTINFO);
    let points: Vec<&str> = t.iter().map(|m| m.0.as_str()).collect();
    assert_eq!(points, vec!["/usr/lib", "/usr", "/"]);
    assert_eq!(t[2].1, (8 << 20) | 1);
    assert_eq!(device_for_path(&t, "/usr/lib/x").unwrap(), 30);
    assert_eq!(device_for_path(&t, "/usr/bin/git").unwrap(), 21);
    // A longer name is not beneath a shorter one.
    assert_eq!(device_for_path(&t, "/usrlocal/x").unwrap(), (8 << 20) | 1);
    assert_eq!(device_for_path(&vec![], "/x").unwrap_err(), "no mount covers \"/x\"");
}

#[test]
fn executables_are_identified_by_mount_and_inode() {
    let info: Result<String, String> = Ok(MOUNTINFO.to_string());
    let paths = vec!["/usr/bin/git".to_string()];
    let prefixes = vec!["/usr/lib/".to_string()];
    let listing: Vec<Result<Vec<DirEntry>, String>> = vec![Ok(vec![
        DirEntry::Found { is_file: true, mode: 0o755, dev: 9, inode: 5 },
        DirEntry::Found { is_file: true, mode: 0o644, dev: 9, inode: 6 },
        DirEntry::Hidden,
    ])];
    let got = collect_exec_identities(&info, &paths, &vec![Ok(77)], &prefixes, &listing).unwrap();
    assert_eq!(got, vec![ExecIdentity { dev: 21, inode: 77 }, ExecIdentity { dev: 30, inode: 5 }]);

    let gone = vec![Err("no such file".to_string())];
    assert_eq!(
        collect_exec_identities(&info, &paths, &gone, &vec![], &vec![]).unwrap_err(),
        "stat allowlisted executable \"/usr/bin/git\" inside sandbox: no such file"
    );
    assert_eq!(
        resolve_exec_identities_via_pid(3, &info, &paths, &gone, &vec![], &vec![]).unwrap_err(),
        "stat \"/usr/bin/git\" inside sandbox (via /proc/3/root/usr/bin/git): no such file"
    );
    let unread: Result<String, String> = Err("denied".to_string());
    assert_eq!(
        collect_exec_identities(&unread, &paths, &vec![Ok(1)], &vec![], &vec![]).unwrap_err(),
        "read /proc/self/mountinfo: denied"
    );
    assert_eq!(
        resolve_exec_identities_via_pid(3, &unread, &paths, &vec![Ok(1)], &vec![], &vec![]).unwrap_err(),
        "read /proc/3/mountinfo: denied — is the sandbox still running?"
    );
    // Where nothing is listed nothing is read.
    assert!(collect_exec_identities(&unread, &vec![], &vec![], &vec![], &vec![]).unwrap().is_empty());
    let unlisted: Vec<Result<Vec<DirEntry>, String>> = vec![Err("denied".to_string())];
    assert_eq!(
        collect_exec_identities(&info, &vec![], &vec![], &prefixes, &unlisted).unwrap_err(),
        "read exec prefix \"/usr/lib/\" inside sandbox: denied"
    );
    assert_eq!(mountinfo_path(Vantage::Inside), "/proc/self/mountinfo");
    assert_eq!(mountinfo_path(Vantage::Through(3)), "/proc/3/mountinfo");
    assert_eq!(in_sandbox(Vantage::Inside, "/a"), "/a");
    assert_eq!(in_sandbox(Vantage::Through(3), "/a"), "/proc/3/root/a");
}
