//! The seccomp filters of the sandbox profiles, and what they answer a system call.
//!
//! The numbers here are those of x86-64; `aarch64` holds the others.
use vstd::prelude::*;

use crate::error::Error;
use crate::error::ErrorModel;
use crate::runtime::aarch64;
use crate::text;

verus! {

/// The name of the default profile.
pub const PROFILE_DEFAULT: &'static str = "aivisor-default";

/// The name of the strict profile.
pub const PROFILE_STRICT: &'static str = "aivisor-strict";

/// The audit number of the x86-64 architecture.
pub const AUDIT_ARCH_X86_64: u32 = 0xc000003e;

/// The audit number of the aarch64 architecture.
pub const AUDIT_ARCH_AARCH64: u32 = 0xc00000b7;

/// An architecture that the profiles are defined for.
#[derive(Debug, Clone, Copy, PartialEq, Eq, Structural)]
pub enum Arch {
    X86_64,
    Aarch64,
}

/// The audit number of an architecture.
pub open spec fn audit_arch(arch: Arch) -> u32 {
    match arch {
        Arch::X86_64 => AUDIT_ARCH_X86_64,
        Arch::Aarch64 => AUDIT_ARCH_AARCH64,
    }
}

pub const SECCOMP_RET_KILL_PROCESS: u32 = 0x80000000;

pub const SECCOMP_RET_ALLOW: u32 = 0x7fff0000;

/// The call fails with "operation not permitted".
pub const SECCOMP_RET_EPERM: u32 = 0x00050001;

/// The call fails with "function not implemented".
pub const SECCOMP_RET_ENOSYS: u32 = 0x00050026;

/// Load a 32-bit word at a fixed offset.
pub const LOAD_WORD: u16 = 0x20;

/// Jump on equality.
pub const JUMP_EQUAL: u16 = 0x15;

/// Return a constant.
pub const RETURN_CONST: u16 = 0x06;

pub const SYS_INIT_MODULE: u32 = 175;

pub const SYS_FINIT_MODULE: u32 = 313;

pub const SYS_DELETE_MODULE: u32 = 176;

pub const SYS_KEXEC_LOAD: u32 = 246;

pub const SYS_KEXEC_FILE_LOAD: u32 = 320;

pub const SYS_BPF: u32 = 321;

pub const SYS_PERF_EVENT_OPEN: u32 = 298;

pub const SYS_PTRACE: u32 = 101;

pub const SYS_PROCESS_VM_READV: u32 = 310;

pub const SYS_PROCESS_VM_WRITEV: u32 = 311;

pub const SYS_USERFAULTFD: u32 = 323;

pub const SYS_MEMFD_SECRET: u32 = 447;

pub const SYS_SETNS: u32 = 308;

pub const SYS_MOUNT_SETATTR: u32 = 442;

pub const SYS_OPEN_BY_HANDLE_AT: u32 = 304;

pub const SYS_NAME_TO_HANDLE_AT: u32 = 303;

pub const SYS_SWAPON: u32 = 167;

pub const SYS_SWAPOFF: u32 = 168;

pub const SYS_PIVOT_ROOT: u32 = 155;

pub const SYS_REBOOT: u32 = 169;

pub const SYS_IOPL: u32 = 172;

pub const SYS_IOPERM: u32 = 173;

pub const SYS_IO_URING_SETUP: u32 = 425;

pub const SYS_CLOCK_SETTIME: u32 = 227;

pub const SYS_SETTIMEOFDAY: u32 = 164;

pub const SYS_ADJTIMEX: u32 = 159;

pub const SYS_UNSHARE: u32 = 272;

pub const SYS_KEYCTL: u32 = 250;

pub const SYS_ADD_KEY: u32 = 248;

pub const SYS_REQUEST_KEY: u32 = 249;

pub const SYS_PIDFD_GETFD: u32 = 438;

pub const SYS_PERSONALITY: u32 = 135;

pub const SYS_MOVE_PAGES: u32 = 279;

pub const SYS_FANOTIFY_INIT: u32 = 300;

pub const SYS_SECCOMP: u32 = 317;

pub const SYS_ACCT: u32 = 163;

pub const SYS_QUOTACTL: u32 = 179;

pub const SYS_NFSSERVCTL: u32 = 180;

pub const SYS_READ: u32 = 0;

pub const SYS_WRITE: u32 = 1;

pub const SYS_OPENAT: u32 = 257;

pub const SYS_CLOSE: u32 = 3;

pub const SYS_FSTAT: u32 = 5;

pub const SYS_NEWFSTATAT: u32 = 262;

pub const SYS_MMAP: u32 = 9;

pub const SYS_MPROTECT: u32 = 10;

pub const SYS_MUNMAP: u32 = 11;

pub const SYS_EXIT_GROUP: u32 = 231;

pub const SYS_EXIT: u32 = 60;

pub const SYS_BRK: u32 = 12;

pub const SYS_ACCESS: u32 = 21;

pub const SYS_FACCESSAT2: u32 = 439;

pub const SYS_READLINKAT: u32 = 267;

pub const SYS_GETDENTS64: u32 = 217;

pub const SYS_GETRANDOM: u32 = 318;

pub const SYS_CLOCK_GETTIME: u32 = 228;

pub const SYS_NANOSLEEP: u32 = 35;

pub const SYS_CLONE3: u32 = 435;

pub const SYS_MADVISE: u32 = 28;

pub const SYS_RT_SIGACTION: u32 = 13;

pub const SYS_RT_SIGPROCMASK: u32 = 14;

pub const SYS_RT_SIGRETURN: u32 = 15;

pub const SYS_GETPID: u32 = 39;

pub const SYS_GETTID: u32 = 186;

pub const SYS_GETPPID: u32 = 110;

pub const SYS_GETUID: u32 = 102;

pub const SYS_GETEUID: u32 = 107;

pub const SYS_GETGID: u32 = 104;

pub const SYS_GETEGID: u32 = 108;

pub const SYS_LSEEK: u32 = 8;

pub const SYS_DUP: u32 = 32;

pub const SYS_DUP3: u32 = 292;

pub const SYS_PIPE2: u32 = 293;

pub const SYS_PSELECT6: u32 = 270;

pub const SYS_PPOLL: u32 = 271;

pub const SYS_WRITEV: u32 = 20;

pub const SYS_READV: u32 = 19;

pub const SYS_SCHED_YIELD: u32 = 24;

pub const SYS_PRCTL: u32 = 157;

pub const SYS_ARCH_PRCTL: u32 = 158;

pub const SYS_SET_TID_ADDRESS: u32 = 218;

pub const SYS_SET_ROBUST_LIST: u32 = 273;

pub const SYS_RSEQ: u32 = 334;

/// One instruction of a filter.
#[derive(Debug, Clone, Copy, PartialEq, Eq, Structural)]
pub struct SockFilter {
    pub code: u16,
    /// How many instructions are skipped where the condition holds.
    pub jt: u8,
    /// How many instructions are skipped where it does not.
    pub jf: u8,
    pub k: u32,
}

/// What a filter sees of a system call.
pub struct SeccompData {
    pub nr: u32,
    pub arch: u32,
}

/// What a filter answers from instruction `pc` on, with `acc` in the accumulator; nothing where
/// it runs off its end or into an instruction that it does not hold.
pub open spec fn run(prog: Seq<SockFilter>, pc: int, acc: u32, data: SeccompData) -> Option<u32>
    decreases
            (if pc < prog.len() {
                prog.len() - pc
            } else {
                0
            }),
{
    if pc < 0 || pc >= prog.len() {
        None
    } else {
        let i = prog[pc];
        if i.code == LOAD_WORD {
            if i.k == 0 {
                run(prog, pc + 1, data.nr, data)
            } else if i.k == 4 {
                run(prog, pc + 1, data.arch, data)
            } else {
                None
            }
        } else if i.code == JUMP_EQUAL {
            if acc == i.k {
                run(prog, pc + 1 + i.jt, acc, data)
            } else {
                run(prog, pc + 1 + i.jf, acc, data)
            }
        } else if i.code == RETURN_CONST {
            Some(i.k)
        } else {
            None
        }
    }
}

/// What a filter answers a system call.
pub open spec fn answer(prog: Seq<SockFilter>, data: SeccompData) -> Option<u32> {
    run(prog, 0, 0, data)
}

/// The action of the first entry for `nr`, or the default.
pub open spec fn action_for(table: Seq<(u32, u32)>, nr: u32, default: u32) -> u32
    decreases table.len(),
{
    if table.len() == 0 {
        default
    } else if table[0].0 == nr {
        table[0].1
    } else {
        action_for(table.skip(1), nr, default)
    }
}

/// An instruction that does not jump.
pub open spec fn stmt(code: u16, k: u32) -> SockFilter {
    SockFilter { code, jt: 0, jf: 0, k }
}

/// An instruction that jumps.
pub open spec fn jump(code: u16, jt: u8, jf: u8, k: u32) -> SockFilter {
    SockFilter { code, jt, jf, k }
}

/// The check of the architecture: where it is the expected one, two instructions are skipped,
/// and otherwise one.
pub open spec fn arch_check(expected: u32) -> Seq<SockFilter> {
    seq![
        stmt(LOAD_WORD, 4),
        jump(JUMP_EQUAL, 2, 1, expected),
        stmt(RETURN_CONST, SECCOMP_RET_KILL_PROCESS),
    ]
}

/// The instructions for a table: each entry is a comparison and what is answered on a match.
pub open spec fn table_code(table: Seq<(u32, u32)>) -> Seq<SockFilter> {
    Seq::new(
        2 * table.len(),
        |i: int|
            if i % 2 == 0 {
                jump(JUMP_EQUAL, 0, 1, table[i / 2].0)
            } else {
                stmt(RETURN_CONST, table[i / 2].1)
            },
    )
}

/// The filter for an architecture, a table and a default. Behind the architecture check stands
/// what kills a foreign one, then the number of the call is loaded.
pub open spec fn filter_of(expected: u32, table: Seq<(u32, u32)>, default: u32) -> Seq<SockFilter> {
    arch_check(expected) + seq![
        stmt(RETURN_CONST, SECCOMP_RET_KILL_PROCESS),
        stmt(LOAD_WORD, 0),
    ] + table_code(table) + seq![stmt(RETURN_CONST, default)]
}

/// The calls that the default profile denies on x86-64, and how.
pub open spec fn denied_on_x86_64() -> Seq<(u32, u32)> {
    seq![
        (SYS_INIT_MODULE, SECCOMP_RET_KILL_PROCESS),
        (SYS_FINIT_MODULE, SECCOMP_RET_KILL_PROCESS),
        (SYS_DELETE_MODULE, SECCOMP_RET_KILL_PROCESS),
        (SYS_KEXEC_LOAD, SECCOMP_RET_KILL_PROCESS),
        (SYS_KEXEC_FILE_LOAD, SECCOMP_RET_KILL_PROCESS),
        (SYS_BPF, SECCOMP_RET_KILL_PROCESS),
        (SYS_PERF_EVENT_OPEN, SECCOMP_RET_EPERM),
        (SYS_PTRACE, SECCOMP_RET_EPERM),
        (SYS_PROCESS_VM_READV, SECCOMP_RET_EPERM),
        (SYS_PROCESS_VM_WRITEV, SECCOMP_RET_EPERM),
        (SYS_USERFAULTFD, SECCOMP_RET_ENOSYS),
        (SYS_MEMFD_SECRET, SECCOMP_RET_ENOSYS),
        (SYS_SETNS, SECCOMP_RET_EPERM),
        (SYS_MOUNT_SETATTR, SECCOMP_RET_EPERM),
        (SYS_OPEN_BY_HANDLE_AT, SECCOMP_RET_EPERM),
        (SYS_NAME_TO_HANDLE_AT, SECCOMP_RET_EPERM),
        (SYS_SWAPON, SECCOMP_RET_EPERM),
        (SYS_SWAPOFF, SECCOMP_RET_EPERM),
        (SYS_PIVOT_ROOT, SECCOMP_RET_KILL_PROCESS),
        (SYS_REBOOT, SECCOMP_RET_KILL_PROCESS),
        (SYS_IOPL, SECCOMP_RET_KILL_PROCESS),
        (SYS_IOPERM, SECCOMP_RET_KILL_PROCESS),
        (SYS_IO_URING_SETUP, SECCOMP_RET_ENOSYS),
        (SYS_CLOCK_SETTIME, SECCOMP_RET_EPERM),
        (SYS_SETTIMEOFDAY, SECCOMP_RET_EPERM),
        (SYS_ADJTIMEX, SECCOMP_RET_EPERM),
        (SYS_UNSHARE, SECCOMP_RET_EPERM),
        (SYS_KEYCTL, SECCOMP_RET_EPERM),
        (SYS_ADD_KEY, SECCOMP_RET_EPERM),
        (SYS_REQUEST_KEY, SECCOMP_RET_EPERM),
        (SYS_PIDFD_GETFD, SECCOMP_RET_EPERM),
        (SYS_PERSONALITY, SECCOMP_RET_EPERM),
        (SYS_MOVE_PAGES, SECCOMP_RET_EPERM),
        (SYS_FANOTIFY_INIT, SECCOMP_RET_EPERM),
        (SYS_SECCOMP, SECCOMP_RET_EPERM),
        (SYS_ACCT, SECCOMP_RET_KILL_PROCESS),
        (SYS_QUOTACTL, SECCOMP_RET_EPERM),
        (SYS_NFSSERVCTL, SECCOMP_RET_ENOSYS),
    ]
}

/// The calls that the default profile denies on aarch64, and how.
pub open spec fn denied_on_aarch64() -> Seq<(u32, u32)> {
    seq![
        (aarch64::SYS_INIT_MODULE, SECCOMP_RET_KILL_PROCESS),
        (aarch64::SYS_FINIT_MODULE, SECCOMP_RET_KILL_PROCESS),
        (aarch64::SYS_DELETE_MODULE, SECCOMP_RET_KILL_PROCESS),
        (aarch64::SYS_KEXEC_LOAD, SECCOMP_RET_KILL_PROCESS),
        (aarch64::SYS_KEXEC_FILE_LOAD, SECCOMP_RET_KILL_PROCESS),
        (aarch64::SYS_BPF, SECCOMP_RET_KILL_PROCESS),
        (aarch64::SYS_PERF_EVENT_OPEN, SECCOMP_RET_EPERM),
        (aarch64::SYS_PTRACE, SECCOMP_RET_EPERM),
        (aarch64::SYS_PROCESS_VM_READV, SECCOMP_RET_EPERM),
        (aarch64::SYS_PROCESS_VM_WRITEV, SECCOMP_RET_EPERM),
        (aarch64::SYS_USERFAULTFD, SECCOMP_RET_ENOSYS),
        (aarch64::SYS_MEMFD_SECRET, SECCOMP_RET_ENOSYS),
        (aarch64::SYS_SETNS, SECCOMP_RET_EPERM),
        (aarch64::SYS_MOUNT_SETATTR, SECCOMP_RET_EPERM),
        (aarch64::SYS_OPEN_BY_HANDLE_AT, SECCOMP_RET_EPERM),
        (aarch64::SYS_NAME_TO_HANDLE_AT, SECCOMP_RET_EPERM),
        (aarch64::SYS_SWAPON, SECCOMP_RET_EPERM),
        (aarch64::SYS_SWAPOFF, SECCOMP_RET_EPERM),
        (aarch64::SYS_PIVOT_ROOT, SECCOMP_RET_KILL_PROCESS),
        (aarch64::SYS_REBOOT, SECCOMP_RET_KILL_PROCESS),
        (aarch64::SYS_IO_URING_SETUP, SECCOMP_RET_ENOSYS),
        (aarch64::SYS_CLOCK_SETTIME, SECCOMP_RET_EPERM),
        (aarch64::SYS_SETTIMEOFDAY, SECCOMP_RET_EPERM),
        (aarch64::SYS_ADJTIMEX, SECCOMP_RET_EPERM),
        (aarch64::SYS_UNSHARE, SECCOMP_RET_EPERM),
        (aarch64::SYS_KEYCTL, SECCOMP_RET_EPERM),
        (aarch64::SYS_ADD_KEY, SECCOMP_RET_EPERM),
        (aarch64::SYS_REQUEST_KEY, SECCOMP_RET_EPERM),
        (aarch64::SYS_PIDFD_GETFD, SECCOMP_RET_EPERM),
        (aarch64::SYS_PERSONALITY, SECCOMP_RET_EPERM),
        (aarch64::SYS_MOVE_PAGES, SECCOMP_RET_EPERM),
        (aarch64::SYS_FANOTIFY_INIT, SECCOMP_RET_EPERM),
        (aarch64::SYS_SECCOMP, SECCOMP_RET_EPERM),
        (aarch64::SYS_ACCT, SECCOMP_RET_KILL_PROCESS),
        (aarch64::SYS_QUOTACTL, SECCOMP_RET_EPERM),
        (aarch64::SYS_NFSSERVCTL, SECCOMP_RET_ENOSYS),
    ]
}

/// The calls that the default profile denies on an architecture, and how.
pub open spec fn denied_table(arch: Arch) -> Seq<(u32, u32)> {
    match arch {
        Arch::X86_64 => denied_on_x86_64(),
        Arch::Aarch64 => denied_on_aarch64(),
    }
}

/// The calls that the strict profile allows on x86-64.
pub open spec fn allowed_on_x86_64() -> Seq<u32> {
    seq![
        SYS_READ,
        SYS_WRITE,
        SYS_OPENAT,
        SYS_CLOSE,
        SYS_FSTAT,
        SYS_NEWFSTATAT,
        SYS_MMAP,
        SYS_MPROTECT,
        SYS_MUNMAP,
        SYS_EXIT_GROUP,
        SYS_EXIT,
        SYS_BRK,
        SYS_ACCESS,
        SYS_FACCESSAT2,
        SYS_READLINKAT,
        SYS_GETDENTS64,
        SYS_GETRANDOM,
        SYS_CLOCK_GETTIME,
        SYS_NANOSLEEP,
        SYS_CLONE3,
        SYS_MADVISE,
        SYS_RT_SIGACTION,
        SYS_RT_SIGPROCMASK,
        SYS_RT_SIGRETURN,
        SYS_GETPID,
        SYS_GETTID,
        SYS_GETPPID,
        SYS_GETUID,
        SYS_GETEUID,
        SYS_GETGID,
        SYS_GETEGID,
        SYS_LSEEK,
        SYS_DUP,
        SYS_DUP3,
        SYS_PIPE2,
        SYS_PSELECT6,
        SYS_PPOLL,
        SYS_WRITEV,
        SYS_READV,
        SYS_SCHED_YIELD,
        SYS_PRCTL,
        SYS_ARCH_PRCTL,
        SYS_SET_TID_ADDRESS,
        SYS_SET_ROBUST_LIST,
        SYS_RSEQ,
    ]
}

/// The calls that the strict profile allows on aarch64.
pub open spec fn allowed_on_aarch64() -> Seq<u32> {
    seq![
        aarch64::SYS_READ,
        aarch64::SYS_WRITE,
        aarch64::SYS_OPENAT,
        aarch64::SYS_CLOSE,
        aarch64::SYS_FSTAT,
        aarch64::SYS_NEWFSTATAT,
        aarch64::SYS_MMAP,
        aarch64::SYS_MPROTECT,
        aarch64::SYS_MUNMAP,
        aarch64::SYS_EXIT_GROUP,
        aarch64::SYS_EXIT,
        aarch64::SYS_BRK,
        aarch64::SYS_FACCESSAT2,
        aarch64::SYS_READLINKAT,
        aarch64::SYS_GETDENTS64,
        aarch64::SYS_GETRANDOM,
        aarch64::SYS_CLOCK_GETTIME,
        aarch64::SYS_NANOSLEEP,
        aarch64::SYS_CLONE3,
        aarch64::SYS_MADVISE,
        aarch64::SYS_RT_SIGACTION,
        aarch64::SYS_RT_SIGPROCMASK,
        aarch64::SYS_RT_SIGRETURN,
        aarch64::SYS_GETPID,
        aarch64::SYS_GETTID,
        aarch64::SYS_GETPPID,
        aarch64::SYS_GETUID,
        aarch64::SYS_GETEUID,
        aarch64::SYS_GETGID,
        aarch64::SYS_GETEGID,
        aarch64::SYS_LSEEK,
        aarch64::SYS_DUP,
        aarch64::SYS_DUP3,
        aarch64::SYS_PIPE2,
        aarch64::SYS_PSELECT6,
        aarch64::SYS_PPOLL,
        aarch64::SYS_WRITEV,
        aarch64::SYS_READV,
        aarch64::SYS_SCHED_YIELD,
        aarch64::SYS_PRCTL,
        aarch64::SYS_SET_TID_ADDRESS,
        aarch64::SYS_SET_ROBUST_LIST,
        aarch64::SYS_RSEQ,
    ]
}

/// The calls that the strict profile allows on an architecture.
pub open spec fn allowed_calls(arch: Arch) -> Seq<u32> {
    match arch {
        Arch::X86_64 => allowed_on_x86_64(),
        Arch::Aarch64 => allowed_on_aarch64(),
    }
}

/// The table of the strict profile.
pub open spec fn allowed_table(arch: Arch) -> Seq<(u32, u32)> {
    allowed_calls(arch).map_values(|nr: u32| (nr, SECCOMP_RET_ALLOW))
}

/// An instruction that does not jump.
fn bpf_stmt(code: u16, k: u32) -> (r: SockFilter)
    ensures
        r == stmt(code, k),
{
    SockFilter { code, jt: 0, jf: 0, k }
}

/// An instruction that jumps.
fn bpf_jump(code: u16, jt: u8, jf: u8, k: u32) -> (r: SockFilter)
    ensures
        r == jump(code, jt, jf, k),
{
    SockFilter { code, jt, jf, k }
}

/// The check of the architecture. What stands one instruction behind it answers a foreign
/// architecture, and what stands two behind it goes on with the expected one.
pub fn build_arch_check(expected_arch: u32) -> (r: Vec<SockFilter>)
    ensures
        r@ == arch_check(expected_arch),
{
    let mut v: Vec<SockFilter> = Vec::new();
    v.push(bpf_stmt(LOAD_WORD, 4));
    v.push(bpf_jump(JUMP_EQUAL, 2, 1, expected_arch));
    v.push(bpf_stmt(RETURN_CONST, SECCOMP_RET_KILL_PROCESS));
    proof {
        assert(v@ =~= arch_check(expected_arch));
    }
    v
}

/// The audit number of the architecture that a process runs on.
pub fn native_audit_arch(arch: Arch) -> (r: u32)
    ensures
        r == audit_arch(arch),
{
    match arch {
        Arch::X86_64 => AUDIT_ARCH_X86_64,
        Arch::Aarch64 => AUDIT_ARCH_AARCH64,
    }
}

/// The filter for an architecture, a table of its calls and a default.
pub fn build_filter(arch: Arch, table: &Vec<(u32, u32)>, default: u32) -> (r: Vec<SockFilter>)
    ensures
        r@ == filter_of(audit_arch(arch), table@, default),
{
    let mut v = build_arch_check(native_audit_arch(arch));
    v.push(bpf_stmt(RETURN_CONST, SECCOMP_RET_KILL_PROCESS));
    v.push(bpf_stmt(LOAD_WORD, 0));
    let ghost lead = arch_check(audit_arch(arch)) + seq![
        stmt(RETURN_CONST, SECCOMP_RET_KILL_PROCESS),
        stmt(LOAD_WORD, 0),
    ];
    let ghost all = table_code(table@);
    let mut i: usize = 0;
    proof {
        assert(v@ =~= lead);
        assert(v@ =~= lead + all.take(0));
    }
    while i < table.len()
        invariant
            i <= table@.len(),
            all == table_code(table@),
            v@ == lead + all.take(2 * i as int),
        decreases table@.len() - i,
    {
        v.push(bpf_jump(JUMP_EQUAL, 0, 1, table[i].0));
        v.push(bpf_stmt(RETURN_CONST, table[i].1));
        proof {
            let k = 2 * i as int;
            assert(all[k] == jump(JUMP_EQUAL, 0, 1, table@[i as int].0));
            assert((k + 1) % 2 == 1 && (k + 1) / 2 == i);
            assert(all[k + 1] == stmt(RETURN_CONST, table@[i as int].1));
            assert(all.take(k + 2) =~= all.take(k).push(all[k]).push(all[k + 1]));
            assert(v@ =~= lead + all.take(k + 2));
        }
        i = i + 1;
    }
    v.push(bpf_stmt(RETURN_CONST, default));
    proof {
        assert(all.take(2 * i as int) =~= all);
        assert(v@ =~= filter_of(audit_arch(arch), table@, default));
    }
    v
}

/// The calls that the default profile denies on x86-64, and how.
fn denied_calls_x86_64() -> (r: Vec<(u32, u32)>)
    ensures
        r@ == denied_on_x86_64(),
{
    let v: Vec<(u32, u32)> = vec![
        (SYS_INIT_MODULE, SECCOMP_RET_KILL_PROCESS),
        (SYS_FINIT_MODULE, SECCOMP_RET_KILL_PROCESS),
        (SYS_DELETE_MODULE, SECCOMP_RET_KILL_PROCESS),
        (SYS_KEXEC_LOAD, SECCOMP_RET_KILL_PROCESS),
        (SYS_KEXEC_FILE_LOAD, SECCOMP_RET_KILL_PROCESS),
        (SYS_BPF, SECCOMP_RET_KILL_PROCESS),
        (SYS_PERF_EVENT_OPEN, SECCOMP_RET_EPERM),
        (SYS_PTRACE, SECCOMP_RET_EPERM),
        (SYS_PROCESS_VM_READV, SECCOMP_RET_EPERM),
        (SYS_PROCESS_VM_WRITEV, SECCOMP_RET_EPERM),
        (SYS_USERFAULTFD, SECCOMP_RET_ENOSYS),
        (SYS_MEMFD_SECRET, SECCOMP_RET_ENOSYS),
        (SYS_SETNS, SECCOMP_RET_EPERM),
        (SYS_MOUNT_SETATTR, SECCOMP_RET_EPERM),
        (SYS_OPEN_BY_HANDLE_AT, SECCOMP_RET_EPERM),
        (SYS_NAME_TO_HANDLE_AT, SECCOMP_RET_EPERM),
        (SYS_SWAPON, SECCOMP_RET_EPERM),
        (SYS_SWAPOFF, SECCOMP_RET_EPERM),
        (SYS_PIVOT_ROOT, SECCOMP_RET_KILL_PROCESS),
        (SYS_REBOOT, SECCOMP_RET_KILL_PROCESS),
        (SYS_IOPL, SECCOMP_RET_KILL_PROCESS),
        (SYS_IOPERM, SECCOMP_RET_KILL_PROCESS),
        (SYS_IO_URING_SETUP, SECCOMP_RET_ENOSYS),
        (SYS_CLOCK_SETTIME, SECCOMP_RET_EPERM),
        (SYS_SETTIMEOFDAY, SECCOMP_RET_EPERM),
        (SYS_ADJTIMEX, SECCOMP_RET_EPERM),
        (SYS_UNSHARE, SECCOMP_RET_EPERM),
        (SYS_KEYCTL, SECCOMP_RET_EPERM),
        (SYS_ADD_KEY, SECCOMP_RET_EPERM),
        (SYS_REQUEST_KEY, SECCOMP_RET_EPERM),
        (SYS_PIDFD_GETFD, SECCOMP_RET_EPERM),
        (SYS_PERSONALITY, SECCOMP_RET_EPERM),
        (SYS_MOVE_PAGES, SECCOMP_RET_EPERM),
        (SYS_FANOTIFY_INIT, SECCOMP_RET_EPERM),
        (SYS_SECCOMP, SECCOMP_RET_EPERM),
        (SYS_ACCT, SECCOMP_RET_KILL_PROCESS),
        (SYS_QUOTACTL, SECCOMP_RET_EPERM),
        (SYS_NFSSERVCTL, SECCOMP_RET_ENOSYS),
    ];
    proof {
        assert(v@ =~= denied_on_x86_64());
    }
    v
}

/// The calls that the default profile denies on aarch64, and how.
fn denied_calls_aarch64() -> (r: Vec<(u32, u32)>)
    ensures
        r@ == denied_on_aarch64(),
{
    let v: Vec<(u32, u32)> = vec![
        (aarch64::SYS_INIT_MODULE, SECCOMP_RET_KILL_PROCESS),
        (aarch64::SYS_FINIT_MODULE, SECCOMP_RET_KILL_PROCESS),
        (aarch64::SYS_DELETE_MODULE, SECCOMP_RET_KILL_PROCESS),
        (aarch64::SYS_KEXEC_LOAD, SECCOMP_RET_KILL_PROCESS),
        (aarch64::SYS_KEXEC_FILE_LOAD, SECCOMP_RET_KILL_PROCESS),
        (aarch64::SYS_BPF, SECCOMP_RET_KILL_PROCESS),
        (aarch64::SYS_PERF_EVENT_OPEN, SECCOMP_RET_EPERM),
        (aarch64::SYS_PTRACE, SECCOMP_RET_EPERM),
        (aarch64::SYS_PROCESS_VM_READV, SECCOMP_RET_EPERM),
        (aarch64::SYS_PROCESS_VM_WRITEV, SECCOMP_RET_EPERM),
        (aarch64::SYS_USERFAULTFD, SECCOMP_RET_ENOSYS),
        (aarch64::SYS_MEMFD_SECRET, SECCOMP_RET_ENOSYS),
        (aarch64::SYS_SETNS, SECCOMP_RET_EPERM),
        (aarch64::SYS_MOUNT_SETATTR, SECCOMP_RET_EPERM),
        (aarch64::SYS_OPEN_BY_HANDLE_AT, SECCOMP_RET_EPERM),
        (aarch64::SYS_NAME_TO_HANDLE_AT, SECCOMP_RET_EPERM),
        (aarch64::SYS_SWAPON, SECCOMP_RET_EPERM),
        (aarch64::SYS_SWAPOFF, SECCOMP_RET_EPERM),
        (aarch64::SYS_PIVOT_ROOT, SECCOMP_RET_KILL_PROCESS),
        (aarch64::SYS_REBOOT, SECCOMP_RET_KILL_PROCESS),
        (aarch64::SYS_IO_URING_SETUP, SECCOMP_RET_ENOSYS),
        (aarch64::SYS_CLOCK_SETTIME, SECCOMP_RET_EPERM),
        (aarch64::SYS_SETTIMEOFDAY, SECCOMP_RET_EPERM),
        (aarch64::SYS_ADJTIMEX, SECCOMP_RET_EPERM),
        (aarch64::SYS_UNSHARE, SECCOMP_RET_EPERM),
        (aarch64::SYS_KEYCTL, SECCOMP_RET_EPERM),
        (aarch64::SYS_ADD_KEY, SECCOMP_RET_EPERM),
        (aarch64::SYS_REQUEST_KEY, SECCOMP_RET_EPERM),
        (aarch64::SYS_PIDFD_GETFD, SECCOMP_RET_EPERM),
        (aarch64::SYS_PERSONALITY, SECCOMP_RET_EPERM),
        (aarch64::SYS_MOVE_PAGES, SECCOMP_RET_EPERM),
        (aarch64::SYS_FANOTIFY_INIT, SECCOMP_RET_EPERM),
        (aarch64::SYS_SECCOMP, SECCOMP_RET_EPERM),
        (aarch64::SYS_ACCT, SECCOMP_RET_KILL_PROCESS),
        (aarch64::SYS_QUOTACTL, SECCOMP_RET_EPERM),
        (aarch64::SYS_NFSSERVCTL, SECCOMP_RET_ENOSYS),
    ];
    proof {
        assert(v@ =~= denied_on_aarch64());
    }
    v
}

/// The filter of the default profile: everything is allowed but what is denied.
pub fn build_default_bpf(arch: Arch) -> (r: Vec<SockFilter>)
    ensures
        r@ == filter_of(audit_arch(arch), denied_table(arch), SECCOMP_RET_ALLOW),
{
    let table = match arch {
        Arch::X86_64 => denied_calls_x86_64(),
        Arch::Aarch64 => denied_calls_aarch64(),
    };
    build_filter(arch, &table, SECCOMP_RET_ALLOW)
}

/// The calls that the strict profile allows on x86-64.
fn strict_calls_x86_64() -> (r: Vec<u32>)
    ensures
        r@ == allowed_on_x86_64(),
{
    let v: Vec<u32> = vec![
        SYS_READ,
        SYS_WRITE,
        SYS_OPENAT,
        SYS_CLOSE,
        SYS_FSTAT,
        SYS_NEWFSTATAT,
        SYS_MMAP,
        SYS_MPROTECT,
        SYS_MUNMAP,
        SYS_EXIT_GROUP,
        SYS_EXIT,
        SYS_BRK,
        SYS_ACCESS,
        SYS_FACCESSAT2,
        SYS_READLINKAT,
        SYS_GETDENTS64,
        SYS_GETRANDOM,
        SYS_CLOCK_GETTIME,
        SYS_NANOSLEEP,
        SYS_CLONE3,
        SYS_MADVISE,
        SYS_RT_SIGACTION,
        SYS_RT_SIGPROCMASK,
        SYS_RT_SIGRETURN,
        SYS_GETPID,
        SYS_GETTID,
        SYS_GETPPID,
        SYS_GETUID,
        SYS_GETEUID,
        SYS_GETGID,
        SYS_GETEGID,
        SYS_LSEEK,
        SYS_DUP,
        SYS_DUP3,
        SYS_PIPE2,
        SYS_PSELECT6,
        SYS_PPOLL,
        SYS_WRITEV,
        SYS_READV,
        SYS_SCHED_YIELD,
        SYS_PRCTL,
        SYS_ARCH_PRCTL,
        SYS_SET_TID_ADDRESS,
        SYS_SET_ROBUST_LIST,
        SYS_RSEQ,
    ];
    proof {
        assert(v@ =~= allowed_on_x86_64());
    }
    v
}

/// The calls that the strict profile allows on aarch64.
fn strict_calls_aarch64() -> (r: Vec<u32>)
    ensures
        r@ == allowed_on_aarch64(),
{
    let v: Vec<u32> = vec![
        aarch64::SYS_READ,
        aarch64::SYS_WRITE,
        aarch64::SYS_OPENAT,
        aarch64::SYS_CLOSE,
        aarch64::SYS_FSTAT,
        aarch64::SYS_NEWFSTATAT,
        aarch64::SYS_MMAP,
        aarch64::SYS_MPROTECT,
        aarch64::SYS_MUNMAP,
        aarch64::SYS_EXIT_GROUP,
        aarch64::SYS_EXIT,
        aarch64::SYS_BRK,
        aarch64::SYS_FACCESSAT2,
        aarch64::SYS_READLINKAT,
        aarch64::SYS_GETDENTS64,
        aarch64::SYS_GETRANDOM,
        aarch64::SYS_CLOCK_GETTIME,
        aarch64::SYS_NANOSLEEP,
        aarch64::SYS_CLONE3,
        aarch64::SYS_MADVISE,
        aarch64::SYS_RT_SIGACTION,
        aarch64::SYS_RT_SIGPROCMASK,
        aarch64::SYS_RT_SIGRETURN,
        aarch64::SYS_GETPID,
        aarch64::SYS_GETTID,
        aarch64::SYS_GETPPID,
        aarch64::SYS_GETUID,
        aarch64::SYS_GETEUID,
        aarch64::SYS_GETGID,
        aarch64::SYS_GETEGID,
        aarch64::SYS_LSEEK,
        aarch64::SYS_DUP,
        aarch64::SYS_DUP3,
        aarch64::SYS_PIPE2,
        aarch64::SYS_PSELECT6,
        aarch64::SYS_PPOLL,
        aarch64::SYS_WRITEV,
        aarch64::SYS_READV,
        aarch64::SYS_SCHED_YIELD,
        aarch64::SYS_PRCTL,
        aarch64::SYS_SET_TID_ADDRESS,
        aarch64::SYS_SET_ROBUST_LIST,
        aarch64::SYS_RSEQ,
    ];
    proof {
        assert(v@ =~= allowed_on_aarch64());
    }
    v
}

/// The filter of the strict profile: everything kills but what is allowed.
pub fn build_strict_bpf(arch: Arch) -> (r: Vec<SockFilter>)
    ensures
        r@ == filter_of(audit_arch(arch), allowed_table(arch), SECCOMP_RET_KILL_PROCESS),
{
    let calls = match arch {
        Arch::X86_64 => strict_calls_x86_64(),
        Arch::Aarch64 => strict_calls_aarch64(),
    };
    let mut table: Vec<(u32, u32)> = Vec::new();
    let mut i: usize = 0;
    while i < calls.len()
        invariant
            i <= calls@.len(),
            calls@ == allowed_calls(arch),
            table@ == allowed_table(arch).take(i as int),
        decreases calls@.len() - i,
    {
        table.push((calls[i], SECCOMP_RET_ALLOW));
        i = i + 1;
        proof {
            let all = allowed_table(arch);
            assert(all.take(i as int) =~= all.take(i - 1).push(all[i - 1]));
        }
    }
    proof {
        assert(table@ =~= allowed_table(arch));
    }
    build_filter(arch, &table, SECCOMP_RET_KILL_PROCESS)
}

/// The filter of a profile on an architecture. A profile that does not exist is refused.
pub fn apply_seccomp(arch: Arch, profile: &str) -> (r: Result<Vec<SockFilter>, Error>)
    ensures
        r is Ok <==> profile@ == PROFILE_DEFAULT@ || profile@ == PROFILE_STRICT@,
        profile@ == PROFILE_DEFAULT@ ==> (r matches Ok(v) && v@ == filter_of(
            audit_arch(arch),
            denied_table(arch),
            SECCOMP_RET_ALLOW,
        )),
        profile@ == PROFILE_STRICT@ && profile@ != PROFILE_DEFAULT@ ==> (r matches Ok(v) && v@ == filter_of(
            audit_arch(arch),
            allowed_table(arch),
            SECCOMP_RET_KILL_PROCESS,
        )),
        r matches Err(e) ==> e@ == ErrorModel::LaunchFailed("unknown seccomp profile: "@ + profile@),
{
    if text::same(profile, PROFILE_DEFAULT) {
        Ok(build_default_bpf(arch))
    } else if text::same(profile, PROFILE_STRICT) {
        Ok(build_strict_bpf(arch))
    } else {
        let mut m = "unknown seccomp profile: ".to_owned();
        m.append(profile);
        Err(Error::LaunchFailed(m))
    }
}

/// From the comparison for entry `i` on, a filter answers with the first entry that follows for
/// the call, or with the default.
proof fn runs_table(expected: u32, table: Seq<(u32, u32)>, default: u32, i: int, data: SeccompData)
    requires
        0 <= i <= table.len(),
    ensures
        run(filter_of(expected, table, default), 5 + 2 * i, data.nr, data) == Some(
            action_for(table.skip(i), data.nr, default),
        ),
    decreases table.len() - i,
{
    let prog = filter_of(expected, table, default);
    let pc = 5 + 2 * i;
    if i < table.len() {
        let rest = table.skip(i);
        assert(rest[0] == table[i]);
        assert(rest.skip(1) =~= table.skip(i + 1));
        assert(table_code(table)[2 * i] == jump(JUMP_EQUAL, 0, 1, table[i].0));
        assert((2 * i + 1) % 2 == 1 && (2 * i + 1) / 2 == i);
        assert(table_code(table)[2 * i + 1] == stmt(RETURN_CONST, table[i].1));
        assert(prog[pc] == jump(JUMP_EQUAL, 0, 1, table[i].0));
        assert(prog[pc + 1] == stmt(RETURN_CONST, table[i].1));
        runs_table(expected, table, default, i + 1, data);
        reveal_with_fuel(run, 3);
    } else {
        assert(prog[pc] == stmt(RETURN_CONST, default));
        assert(table.skip(i).len() == 0);
    }
}

/// A filter kills whatever runs as another architecture, whatever the call's number: the same
/// number means another call there. On its own architecture it answers with the table's first
/// entry for the call, or with the default.
pub proof fn filter_answers(expected: u32, table: Seq<(u32, u32)>, default: u32, data: SeccompData)
    ensures
        answer(filter_of(expected, table, default), data) == Some(
            if data.arch != expected {
                SECCOMP_RET_KILL_PROCESS
            } else {
                action_for(table, data.nr, default)
            },
        ),
{
    let prog = filter_of(expected, table, default);
    assert(prog[0] == stmt(LOAD_WORD, 4));
    assert(prog[1] == jump(JUMP_EQUAL, 2, 1, expected));
    assert(prog[3] == stmt(RETURN_CONST, SECCOMP_RET_KILL_PROCESS));
    assert(prog[4] == stmt(LOAD_WORD, 0));
    runs_table(expected, table, default, 0, data);
    assert(table.skip(0) =~= table);
    reveal_with_fuel(run, 4);
}

proof fn action_of_allowed(calls: Seq<u32>, nr: u32)
    ensures
        action_for(
            calls.map_values(|n: u32| (n, SECCOMP_RET_ALLOW)),
            nr,
            SECCOMP_RET_KILL_PROCESS,
        ) == (if calls.contains(nr) {
            SECCOMP_RET_ALLOW
        } else {
            SECCOMP_RET_KILL_PROCESS
        }),
    decreases calls.len(),
{
    let f = |n: u32| (n, SECCOMP_RET_ALLOW);
    if calls.len() > 0 {
        let rest = calls.skip(1);
        assert(calls.map_values(f).skip(1) =~= rest.map_values(f));
        action_of_allowed(rest, nr);
        if calls.contains(nr) && calls[0] != nr {
            let i = choose|i: int| 0 <= i < calls.len() && calls[i] == nr;
            assert(rest[i - 1] == nr);
        }
        if rest.contains(nr) {
            let i = choose|i: int| 0 <= i < rest.len() && rest[i] == nr;
            assert(calls[i + 1] == nr);
        }
        if calls[0] == nr {
            assert(calls.contains(nr));
        }
    }
}

/// The strict profile lets exactly the listed calls through, and kills on any other.
pub proof fn strict_allows_only_the_listed(arch: Arch, data: SeccompData)
    ensures
        answer(filter_of(audit_arch(arch), allowed_table(arch), SECCOMP_RET_KILL_PROCESS), data) == Some(
            if data.arch == audit_arch(arch) && allowed_calls(arch).contains(data.nr) {
                SECCOMP_RET_ALLOW
            } else {
                SECCOMP_RET_KILL_PROCESS
            },
        ),
{
    filter_answers(audit_arch(arch), allowed_table(arch), SECCOMP_RET_KILL_PROCESS, data);
    action_of_allowed(allowed_calls(arch), data.nr);
}

proof fn action_where_unlisted(table: Seq<(u32, u32)>, nr: u32, default: u32)
    requires
        forall|i: int| 0 <= i < table.len() ==> (#[trigger] table[i]).0 != nr,
    ensures
        action_for(table, nr, default) == default,
    decreases table.len(),
{
    if table.len() > 0 {
        assert(table[0].0 != nr);
        let rest = table.skip(1);
        assert forall|i: int| 0 <= i < rest.len() implies (#[trigger] rest[i]).0 != nr by {
            assert(rest[i] == table[i + 1]);
        }
        action_where_unlisted(rest, nr, default);
    }
}

/// The default profile lets every call through that it does not list.
pub proof fn default_allows_the_unlisted(arch: Arch, data: SeccompData)
    requires
        data.arch == audit_arch(arch),
        forall|i: int| 0 <= i < denied_table(arch).len() ==> (#[trigger] denied_table(arch)[i]).0 != data.nr,
    ensures
        answer(filter_of(audit_arch(arch), denied_table(arch), SECCOMP_RET_ALLOW), data) == Some(SECCOMP_RET_ALLOW),
{
    filter_answers(audit_arch(arch), denied_table(arch), SECCOMP_RET_ALLOW, data);
    action_where_unlisted(denied_table(arch), data.nr, SECCOMP_RET_ALLOW);
}

proof fn action_where_first(table: Seq<(u32, u32)>, i: int, default: u32)
    requires
        0 <= i < table.len(),
        forall|j: int| 0 <= j < i ==> (#[trigger] table[j]).0 != table[i].0,
    ensures
        action_for(table, table[i].0, default) == table[i].1,
    decreases i,
{
    if i > 0 {
        assert(table[0].0 != table[i].0);
        let rest = table.skip(1);
        assert(rest[i - 1] == table[i]);
        assert forall|j: int| 0 <= j < i - 1 implies (#[trigger] rest[j]).0 != rest[i - 1].0 by {
            assert(rest[j] == table[j + 1]);
        }
        action_where_first(rest, i - 1, default);
    }
}

/// The default profile answers every call that it lists as the list says.
pub proof fn default_denies_the_listed(arch: Arch, data: SeccompData, i: int)
    requires
        data.arch == audit_arch(arch),
        0 <= i < denied_table(arch).len(),
        data.nr == denied_table(arch)[i].0,
    ensures
        answer(filter_of(audit_arch(arch), denied_table(arch), SECCOMP_RET_ALLOW), data) == Some(denied_table(arch)[i].1),
        denied_table(arch)[i].1 != SECCOMP_RET_ALLOW,
{
    filter_answers(audit_arch(arch), denied_table(arch), SECCOMP_RET_ALLOW, data);
    action_where_first(denied_table(arch), i, SECCOMP_RET_ALLOW);
}

} // verus!
