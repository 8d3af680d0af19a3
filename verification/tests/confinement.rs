use aivisor::policy::compile::{LandlockPlan, LandlockRule};
use aivisor::policy::landlock_bits;
use aivisor::runtime::abi;
use aivisor::runtime::abi::{CapUserData, CloneArgs, LandlockPathBeneathAttr, LandlockRulesetAttr};
use aivisor::runtime::caps;
use aivisor::runtime::landlock::{apply_landlock, probe_landlock_abi};
use aivisor::runtime::mounts;
use aivisor::runtime::plan::{Act, Blame, Failure, Fault, Next, Plan, Step, EINVAL};
use aivisor::runtime::seccomp;
use aivisor::runtime::seccomp::{
    apply_seccomp, build_arch_check, build_default_bpf, build_filter, build_strict_bpf, native_audit_arch, Arch,
    SockFilter, AUDIT_ARCH_AARCH64, AUDIT_ARCH_X86_64,
};
use aivisor::runtime::aarch64;

#[test]
fn test_clone_args_size_matches_ver2() {
    assert_eq!(std::mem::size_of::<CloneArgs>(), 88);
}

#[test]
fn test_landlock_path_beneath_attr_is_packed_12_bytes() {
    // u64 + i32, packed: 12 bytes, not 16.
    let attr = LandlockPathBeneathAttr { allowed_access: 1, parent_fd: 3 };
    assert_eq!(attr.to_bytes().len(), 12);
}

#[test]
fn test_landlock_ruleset_attr_16_bytes() {
    assert_eq!(std::mem::size_of::<LandlockRulesetAttr>(), 16);
}

#[test]
fn test_cap_probe_ceiling_covers_known_caps() {
    // CAP_CHECKPOINT_RESTORE = 40 (kernel 5.9).
    assert!(abi::CAP_PROBE_CEILING >= 40);
}

#[test]
fn test_cap_user_header_version_is_v3() {
    assert_eq!(abi::LINUX_CAPABILITY_VERSION_3, 0x2008_0522);
}

#[test]
fn test_handled_set_basic() {
    let set = landlock_bits::known_at_abi(1);
    assert!(set > 0);
    assert!(set & landlock_bits::EXECUTE != 0);
    assert!(set & landlock_bits::READ_FILE != 0);
}

#[test]
fn test_handled_set_abi2() {
    let set1 = landlock_bits::known_at_abi(1);
    let set2 = landlock_bits::known_at_abi(2);
    assert!(set2 > set1); // REFER added
}

#[test]
fn test_default_filter_builds() {
    let filter = build_default_bpf(Arch::X86_64);
    assert!(!filter.is_empty());
    let last = filter.last().unwrap();
    assert_eq!(last.k, libc::SECCOMP_RET_ALLOW);
}

#[test]
fn test_strict_filter_builds() {
    let filter = build_strict_bpf(Arch::X86_64);
    assert!(!filter.is_empty());
}

#[test]
fn test_arch_check_kill_branch_is_reachable() {
    let insns = build_arch_check(AUDIT_ARCH_X86_64);
    assert_eq!(insns.len(), 3);
    let load = &insns[0];
    assert_eq!(load.code, (libc::BPF_LD | libc::BPF_ABS | 0x20) as u16);
    let jump = &insns[1];
    assert_eq!(jump.jf, 1);
    let kill = &insns[2];
    assert_eq!(kill.k, libc::SECCOMP_RET_KILL_PROCESS);
}

/// What a filter answers a call.
fn answer(prog: &[SockFilter], nr: u32, arch: u32) -> u32 {
    let mut pc = 0usize;
    let mut acc = 0u32;
    loop {
        let i = prog[pc];
        pc += 1;
        match i.code {
            0x20 => acc = if i.k == 0 { nr } else { arch },
            0x15 => pc += if acc == i.k { i.jt as usize } else { i.jf as usize },
            0x06 => return i.k,
            other => panic!("instruction {other:#x}"),
        }
    }
}

#[test]
fn a_filter_kills_foreign_architectures_and_keeps_to_its_table() {
    let f = build_default_bpf(Arch::X86_64);
    let native = native_audit_arch(Arch::X86_64);
    assert_eq!(answer(&f, libc::SYS_read as u32, native), libc::SECCOMP_RET_ALLOW);
    assert_eq!(answer(&f, libc::SYS_bpf as u32, native), libc::SECCOMP_RET_KILL_PROCESS);
    assert_eq!(
        answer(&f, libc::SYS_ptrace as u32, native),
        libc::SECCOMP_RET_ERRNO | libc::EPERM as u32
    );
    assert_eq!(
        answer(&f, libc::SYS_io_uring_setup as u32, native),
        libc::SECCOMP_RET_ERRNO | libc::ENOSYS as u32
    );
    // The same numbers mean other calls on another architecture.
    assert_eq!(answer(&f, libc::SYS_read as u32, 0x4000_0003), libc::SECCOMP_RET_KILL_PROCESS);
    let s = build_strict_bpf(Arch::X86_64);
    assert_eq!(answer(&s, libc::SYS_write as u32, native), libc::SECCOMP_RET_ALLOW);
    assert_eq!(answer(&s, libc::SYS_socket as u32, native), libc::SECCOMP_RET_KILL_PROCESS);
    assert_eq!(answer(&s, libc::SYS_write as u32, 0x4000_0003), libc::SECCOMP_RET_KILL_PROCESS);
    // The first entry for a call decides.
    let own = build_filter(Arch::X86_64, &vec![(7, 1), (7, 2)], 3);
    assert_eq!(answer(&own, 7, native), 1);
    assert_eq!(answer(&own, 8, native), 3);
}

#[test]
fn each_architecture_has_its_own_filter() {
    assert_eq!(native_audit_arch(Arch::Aarch64), AUDIT_ARCH_AARCH64);
    let f = build_default_bpf(Arch::Aarch64);
    assert_eq!(answer(&f, aarch64::SYS_READ, AUDIT_ARCH_AARCH64), libc::SECCOMP_RET_ALLOW);
    assert_eq!(answer(&f, aarch64::SYS_BPF, AUDIT_ARCH_AARCH64), libc::SECCOMP_RET_KILL_PROCESS);
    assert_eq!(
        answer(&f, aarch64::SYS_PTRACE, AUDIT_ARCH_AARCH64),
        libc::SECCOMP_RET_ERRNO | libc::EPERM as u32
    );
    assert_eq!(answer(&f, aarch64::SYS_READ, AUDIT_ARCH_X86_64), libc::SECCOMP_RET_KILL_PROCESS);
    let s = build_strict_bpf(Arch::Aarch64);
    assert_eq!(answer(&s, aarch64::SYS_WRITE, AUDIT_ARCH_AARCH64), libc::SECCOMP_RET_ALLOW);
    // The number of `socket` there.
    assert_eq!(answer(&s, 198, AUDIT_ARCH_AARCH64), libc::SECCOMP_RET_KILL_PROCESS);
    // Two calls that are denied and two that are allowed exist on x86-64 only.
    assert_eq!(build_default_bpf(Arch::X86_64).len(), f.len() + 4);
    assert_eq!(build_strict_bpf(Arch::X86_64).len(), s.len() + 4);
    assert_eq!(apply_seccomp(Arch::Aarch64, "aivisor-strict").unwrap(), s);
    assert_eq!((aarch64::SYS_OPENAT, aarch64::SYS_EXIT_GROUP, aarch64::SYS_PIVOT_ROOT), (56, 94, 41));
}

#[test]
fn profiles_go_by_their_names() {
    assert_eq!(apply_seccomp(Arch::X86_64, "aivisor-default").unwrap(), build_default_bpf(Arch::X86_64));
    assert_eq!(apply_seccomp(Arch::X86_64, "aivisor-strict").unwrap(), build_strict_bpf(Arch::X86_64));
    assert_eq!(
        apply_seccomp(Arch::X86_64, "other").unwrap_err().to_string(),
        "launch failed: unknown seccomp profile: other"
    );
}

#[test]
fn call_numbers_are_those_of_the_kernel() {
    let pairs = [
        (seccomp::SYS_INIT_MODULE, libc::SYS_init_module),
        (seccomp::SYS_FINIT_MODULE, libc::SYS_finit_module),
        (seccomp::SYS_DELETE_MODULE, libc::SYS_delete_module),
        (seccomp::SYS_KEXEC_LOAD, libc::SYS_kexec_load),
        (seccomp::SYS_KEXEC_FILE_LOAD, libc::SYS_kexec_file_load),
        (seccomp::SYS_BPF, libc::SYS_bpf),
        (seccomp::SYS_PERF_EVENT_OPEN, libc::SYS_perf_event_open),
        (seccomp::SYS_PTRACE, libc::SYS_ptrace),
        (seccomp::SYS_PROCESS_VM_READV, libc::SYS_process_vm_readv),
        (seccomp::SYS_PROCESS_VM_WRITEV, libc::SYS_process_vm_writev),
        (seccomp::SYS_USERFAULTFD, libc::SYS_userfaultfd),
        (seccomp::SYS_MEMFD_SECRET, libc::SYS_memfd_secret),
        (seccomp::SYS_SETNS, libc::SYS_setns),
        (seccomp::SYS_MOUNT_SETATTR, libc::SYS_mount_setattr),
        (seccomp::SYS_OPEN_BY_HANDLE_AT, libc::SYS_open_by_handle_at),
        (seccomp::SYS_NAME_TO_HANDLE_AT, libc::SYS_name_to_handle_at),
        (seccomp::SYS_SWAPON, libc::SYS_swapon),
        (seccomp::SYS_SWAPOFF, libc::SYS_swapoff),
        (seccomp::SYS_PIVOT_ROOT, libc::SYS_pivot_root),
        (seccomp::SYS_REBOOT, libc::SYS_reboot),
        (seccomp::SYS_IOPL, libc::SYS_iopl),
        (seccomp::SYS_IOPERM, libc::SYS_ioperm),
        (seccomp::SYS_IO_URING_SETUP, libc::SYS_io_uring_setup),
        (seccomp::SYS_CLOCK_SETTIME, libc::SYS_clock_settime),
        (seccomp::SYS_SETTIMEOFDAY, libc::SYS_settimeofday),
        (seccomp::SYS_ADJTIMEX, libc::SYS_adjtimex),
        (seccomp::SYS_UNSHARE, libc::SYS_unshare),
        (seccomp::SYS_KEYCTL, libc::SYS_keyctl),
        (seccomp::SYS_ADD_KEY, libc::SYS_add_key),
        (seccomp::SYS_REQUEST_KEY, libc::SYS_request_key),
        (seccomp::SYS_PIDFD_GETFD, libc::SYS_pidfd_getfd),
        (seccomp::SYS_PERSONALITY, libc::SYS_personality),
        (seccomp::SYS_MOVE_PAGES, libc::SYS_move_pages),
        (seccomp::SYS_FANOTIFY_INIT, libc::SYS_fanotify_init),
        (seccomp::SYS_SECCOMP, libc::SYS_seccomp),
        (seccomp::SYS_ACCT, libc::SYS_acct),
        (seccomp::SYS_QUOTACTL, libc::SYS_quotactl),
        (seccomp::SYS_NFSSERVCTL, libc::SYS_nfsservctl),
        (seccomp::SYS_READ, libc::SYS_read),
        (seccomp::SYS_WRITE, libc::SYS_write),
        (seccomp::SYS_OPENAT, libc::SYS_openat),
        (seccomp::SYS_CLOSE, libc::SYS_close),
        (seccomp::SYS_FSTAT, libc::SYS_fstat),
        (seccomp::SYS_NEWFSTATAT, libc::SYS_newfstatat),
        (seccomp::SYS_MMAP, libc::SYS_mmap),
        (seccomp::SYS_MPROTECT, libc::SYS_mprotect),
        (seccomp::SYS_MUNMAP, libc::SYS_munmap),
        (seccomp::SYS_EXIT_GROUP, libc::SYS_exit_group),
        (seccomp::SYS_EXIT, libc::SYS_exit),
        (seccomp::SYS_BRK, libc::SYS_brk),
        (seccomp::SYS_ACCESS, libc::SYS_access),
        (seccomp::SYS_FACCESSAT2, libc::SYS_faccessat2),
        (seccomp::SYS_READLINKAT, libc::SYS_readlinkat),
        (seccomp::SYS_GETDENTS64, libc::SYS_getdents64),
        (seccomp::SYS_GETRANDOM, libc::SYS_getrandom),
        (seccomp::SYS_CLOCK_GETTIME, libc::SYS_clock_gettime),
        (seccomp::SYS_NANOSLEEP, libc::SYS_nanosleep),
        (seccomp::SYS_CLONE3, libc::SYS_clone3),
        (seccomp::SYS_MADVISE, libc::SYS_madvise),
        (seccomp::SYS_RT_SIGACTION, libc::SYS_rt_sigaction),
        (seccomp::SYS_RT_SIGPROCMASK, libc::SYS_rt_sigprocmask),
        (seccomp::SYS_RT_SIGRETURN, libc::SYS_rt_sigreturn),
        (seccomp::SYS_GETPID, libc::SYS_getpid),
        (seccomp::SYS_GETTID, libc::SYS_gettid),
        (seccomp::SYS_GETPPID, libc::SYS_getppid),
        (seccomp::SYS_GETUID, libc::SYS_getuid),
        (seccomp::SYS_GETEUID, libc::SYS_geteuid),
        (seccomp::SYS_GETGID, libc::SYS_getgid),
        (seccomp::SYS_GETEGID, libc::SYS_getegid),
        (seccomp::SYS_LSEEK, libc::SYS_lseek),
        (seccomp::SYS_DUP, libc::SYS_dup),
        (seccomp::SYS_DUP3, libc::SYS_dup3),
        (seccomp::SYS_PIPE2, libc::SYS_pipe2),
        (seccomp::SYS_PSELECT6, libc::SYS_pselect6),
        (seccomp::SYS_PPOLL, libc::SYS_ppoll),
        (seccomp::SYS_WRITEV, libc::SYS_writev),
        (seccomp::SYS_READV, libc::SYS_readv),
        (seccomp::SYS_SCHED_YIELD, libc::SYS_sched_yield),
        (seccomp::SYS_PRCTL, libc::SYS_prctl),
        (seccomp::SYS_ARCH_PRCTL, libc::SYS_arch_prctl),
        (seccomp::SYS_SET_TID_ADDRESS, libc::SYS_set_tid_address),
        (seccomp::SYS_SET_ROBUST_LIST, libc::SYS_set_robust_list),
        (seccomp::SYS_RSEQ, libc::SYS_rseq),
    ];
    for (own, theirs) in pairs {
        assert_eq!(own as i64, theirs as i64);
    }
}

#[test]
fn constants_are_those_of_the_kernel() {
    assert_eq!(abi::PR_SET_NO_NEW_PRIVS, libc::PR_SET_NO_NEW_PRIVS);
    assert_eq!(abi::PR_CAPBSET_READ, libc::PR_CAPBSET_READ);
    assert_eq!(abi::PR_CAPBSET_DROP, libc::PR_CAPBSET_DROP);
    assert_eq!(abi::PR_CAP_AMBIENT, libc::PR_CAP_AMBIENT);
    assert_eq!(abi::PR_CAP_AMBIENT_CLEAR_ALL as i64, libc::PR_CAP_AMBIENT_CLEAR_ALL as i64);
    let flags = [
        (abi::CLONE_NEWNS, libc::CLONE_NEWNS),
        (abi::CLONE_NEWCGROUP, libc::CLONE_NEWCGROUP),
        (abi::CLONE_NEWUTS, libc::CLONE_NEWUTS),
        (abi::CLONE_NEWIPC, libc::CLONE_NEWIPC),
        (abi::CLONE_NEWUSER, libc::CLONE_NEWUSER),
        (abi::CLONE_NEWPID, libc::CLONE_NEWPID),
        (abi::CLONE_NEWNET, libc::CLONE_NEWNET),
        (abi::CLONE_PIDFD, libc::CLONE_PIDFD),
    ];
    for (own, theirs) in flags {
        assert_eq!(own, theirs as u32 as u64);
    }
    let mounts = [
        (abi::MS_RDONLY, libc::MS_RDONLY),
        (abi::MS_NOSUID, libc::MS_NOSUID),
        (abi::MS_NODEV, libc::MS_NODEV),
        (abi::MS_NOEXEC, libc::MS_NOEXEC),
        (abi::MS_BIND, libc::MS_BIND),
        (abi::MS_REC, libc::MS_REC),
        (abi::MS_PRIVATE, libc::MS_PRIVATE),
    ];
    for (own, theirs) in mounts {
        assert_eq!(own, theirs as u64);
    }
    assert_eq!(abi::SIGCHLD, libc::SIGCHLD as u64);
    assert_eq!(abi::MNT_DETACH, libc::MNT_DETACH);
    assert_eq!(EINVAL, libc::EINVAL);
    assert_eq!(AUDIT_ARCH_X86_64, 0xc000_003e);
    assert_eq!(AUDIT_ARCH_AARCH64, 0xc000_00b7);
}

#[test]
fn records_for_the_kernel_have_their_fields_in_order() {
    let b = LandlockRulesetAttr { handled_access_fs: 1, handled_access_net: 2 }.to_bytes();
    assert_eq!(b[0..8], 1u64.to_ne_bytes());
    assert_eq!(b[8..16], 2u64.to_ne_bytes());
    let b = LandlockPathBeneathAttr { allowed_access: 5, parent_fd: -1 }.to_bytes();
    assert_eq!(b[0..8], 5u64.to_ne_bytes());
    assert_eq!(b[8..12], (-1i32).to_ne_bytes());
    let mut args = CloneArgs::default();
    assert_eq!(args.to_bytes(), vec![0; 88]);
    args.flags = 1;
    args.exit_signal = 17;
    args.cgroup = 9;
    let b = args.to_bytes();
    assert_eq!(b[0..8], 1u64.to_ne_bytes());
    assert_eq!(b[32..40], 17u64.to_ne_bytes());
    assert_eq!(b[80..88], 9u64.to_ne_bytes());
}

fn refused(errno: i32) -> Failure {
    Failure::Refused { errno, message: "no".to_string() }
}

#[test]
fn every_capability_is_dropped_and_only_unknown_ones_are_passed_over() {
    let steps = caps::drop_bounding_set_and_ambient();
    assert_eq!(steps.len(), 1 + 64 + 2);
    assert!(matches!(steps[0].act, Act::Prctl { option: abi::PR_CAP_AMBIENT, arg: 4 }));
    for cap in 0..64u64 {
        match &steps[1 + cap as usize].act {
            Act::Prctl { option, arg } => assert_eq!((*option, *arg), (abi::PR_CAPBSET_DROP, cap)),
            other => panic!("{other:?}"),
        }
        assert!(steps[1 + cap as usize].judge(&refused(EINVAL)).is_none());
        match steps[1 + cap as usize].judge(&refused(1)) {
            Some(Fault::Known(e)) => {
                assert_eq!(e.to_string(), format!("launch failed: PR_CAPBSET_DROP({cap}): no"));
            }
            other => panic!("{other:?}"),
        }
    }
    assert!(matches!(steps[65].act, Act::ReadCapabilities));
    assert!(matches!(steps[66].act, Act::ClearInheritable));
    assert!(steps[66].judge(&refused(EINVAL)).is_some());
}

#[test]
fn privileges_are_given_up_group_before_user() {
    let s = caps::drop_to_unprivileged(1000, 1001);
    assert!(matches!(s[0].act, Act::SetGroups(1001)));
    assert!(matches!(s[1].act, Act::SetUsers(1000)));
    let s = caps::become_namespace_root();
    assert!(matches!(s[0].act, Act::SetGroups(0)));
    assert!(matches!(s[1].act, Act::SetUsers(0)));
    assert!(matches!(caps::set_no_new_privs()[0].act, Act::Prctl { option: abi::PR_SET_NO_NEW_PRIVS, arg: 1 }));
    assert!(matches!(caps::finish_dropping_capabilities()[0].act, Act::ClearCapabilities));
    let full = CapUserData { effective: 1, permitted: 2, inheritable: 3 };
    let cleared = caps::clear_inheritable([full, full]);
    assert_eq!(cleared[1], CapUserData { effective: 1, permitted: 2, inheritable: 0 });
    assert_eq!(caps::no_capabilities()[0], CapUserData::default());
}

#[test]
fn landlock_asks_for_no_more_than_the_plan() {
    let plan = LandlockPlan {
        rules: vec![
            LandlockRule { path: "/a".into(), access_mask: landlock_bits::READ_FILE },
            LandlockRule { path: "/b".into(), access_mask: landlock_bits::TRUNCATE },
            LandlockRule { path: "/c".into(), access_mask: landlock_bits::WRITE_FILE | landlock_bits::TRUNCATE },
        ],
        abi: 1,
    };
    let steps = apply_landlock(&plan);
    // The right that this kernel does not know is left out, and a rule of nothing else with it.
    assert_eq!(steps.len(), 6);
    assert!(matches!(steps[0].act, Act::CreateRuleset { files: 0x1fff, network: 0 }));
    assert!(matches!(&steps[1].act, Act::OpenPath(p) if p == "/a"));
    assert!(matches!(&steps[2].act, Act::AddRule { path, access: 4 } if path == "/a"));
    assert!(matches!(&steps[4].act, Act::AddRule { path, access: 2 } if path == "/c"));
    assert!(matches!(steps[5].act, Act::RestrictSelf));
    assert_eq!(probe_landlock_abi(1, 4).unwrap(), 4);
    assert!(probe_landlock_abi(1, -1).unwrap_err().to_string().contains("Landlock LSM"));
    assert!(probe_landlock_abi(3, 2).unwrap_err().to_string().contains("5.13+"));
}

#[test]
fn a_plan_goes_step_by_step_and_ends_at_the_first_fault() {
    let mut plan = Plan::new(vec![
        Step::new(Act::ChangeDir("/".into()), Blame::Nobody, "a: "),
        Step::new(Act::ChangeDir("/x".into()), Blame::Io, "b: "),
        Step::new(Act::RestrictSelf, Blame::Plain, "c: "),
    ]);
    assert!(matches!(plan.next(None), Next::Do(0)));
    // A step that nobody is blamed for may fail.
    assert!(matches!(plan.next(Some(refused(2))), Next::Do(1)));
    assert!(matches!(plan.next(None), Next::Do(2)));
    match plan.next(Some(refused(2))) {
        Next::Failed(f) => assert_eq!(f.describe(), "c: no"),
        other => panic!("{other:?}"),
    }
    let mut empty = Plan::new(vec![]);
    assert!(matches!(empty.next(None), Next::Finished));
}

#[test]
fn blame_decides_how_a_fault_is_told() {
    let told = |blame| match Step::new(Act::RestrictSelf, blame, "x: ").judge(&refused(1)) {
        Some(f) => f.into_error().to_string(),
        None => "nothing".to_string(),
    };
    assert_eq!(told(Blame::Plain), "launch failed: x: no");
    assert_eq!(told(Blame::Launch), "launch failed: x: no");
    assert_eq!(told(Blame::Namespace), "namespace setup failed: x: no");
    assert_eq!(told(Blame::Cgroup), "cgroup setup failed: x: no");
    assert_eq!(told(Blame::Mount), "mount setup failed: x: no");
    assert_eq!(told(Blame::Io), "I/O error: x: no");
    assert_eq!(told(Blame::Nobody), "nothing");
    let step = Step::new(Act::RestrictSelf, Blame::Nobody, "");
    let nul = Failure::NulInPath { path: "/a".into(), message: "nul".into() };
    assert_eq!(
        step.judge(&nul).unwrap().describe(),
        "mount setup failed: interior NUL in path /a: nul"
    );
    let nul = Failure::NulInArgument { message: "nul".into() };
    assert_eq!(
        step.judge(&nul).unwrap().into_error().to_string(),
        "mount setup failed: interior NUL in mount argument: nul"
    );
}

#[test]
fn the_mounts_of_a_sandbox() {
    let s = mounts::remount_root_private();
    assert!(matches!(&s[0].act, Act::Mount { target, flags: 278528, .. } if target == "/"));
    let s = mounts::mount_proc("/m");
    assert!(matches!(&s[0].act, Act::MakeDirs(p) if p == "/m/proc"));
    assert!(matches!(&s[1].act, Act::Mount { target, flags: 14, data: Some(d), .. }
        if target == "/m/proc" && d == "hidepid=2,subset=pid"));
    let s = mounts::mount_sys("/m");
    assert!(matches!(&s[1].act, Act::Mount { fstype: Some(t), flags: 15, data: None, .. } if t == "sysfs"));
    let s = mounts::mount_tmp("/m");
    assert!(matches!(&s[1].act, Act::Mount { data: Some(d), .. } if d == "size=536870912,mode=1777"));
    let s = mounts::pivot_into("/m");
    assert!(matches!(&s[0].act, Act::ChangeDir(p) if p == "/m"));
    assert!(matches!(&s[1].act, Act::PivotRoot { new_root, put_old } if new_root == "." && put_old == "."));
    assert!(matches!(&s[2].act, Act::Unmount { target, options: 2 } if target == "."));
    assert!(matches!(&s[3].act, Act::ChangeDir(p) if p == "/"));
    let s = mounts::mount_dev("/m");
    assert_eq!(s.len(), 2 + 6 * 2 + 4);
    let names: Vec<&String> = s
        .iter()
        .filter_map(|x| match &x.act {
            Act::Touch(p) => Some(p),
            _ => None,
        })
        .collect();
    assert_eq!(
        names,
        vec![
            "/m/dev/null",
            "/m/dev/zero",
            "/m/dev/full",
            "/m/dev/random",
            "/m/dev/urandom",
            "/m/dev/tty",
            "/m/dev/ptmx",
        ]
    );
    let s = mounts::bind_host_dev("/m/dev", "null");
    assert!(matches!(&s[1].act, Act::Mount { source: Some(a), target, fstype: None, flags: 4097, data: None }
        if a == "/dev/null" && target == "/m/dev/null"));
    assert_eq!(s[1].lead, "bind dev/null: ");
}
