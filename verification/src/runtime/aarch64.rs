//! The numbers of system calls on aarch64.
//!
//! `access`, `arch_prctl`, `ioperm` and `iopl` do not exist there.
use vstd::prelude::*;

verus! {

pub const SYS_INIT_MODULE: u32 = 105;

pub const SYS_FINIT_MODULE: u32 = 273;

pub const SYS_DELETE_MODULE: u32 = 106;

pub const SYS_KEXEC_LOAD: u32 = 104;

pub const SYS_KEXEC_FILE_LOAD: u32 = 294;

pub const SYS_BPF: u32 = 280;

pub const SYS_PERF_EVENT_OPEN: u32 = 241;

pub const SYS_PTRACE: u32 = 117;

pub const SYS_PROCESS_VM_READV: u32 = 270;

pub const SYS_PROCESS_VM_WRITEV: u32 = 271;

pub const SYS_USERFAULTFD: u32 = 282;

pub const SYS_MEMFD_SECRET: u32 = 447;

pub const SYS_SETNS: u32 = 268;

pub const SYS_MOUNT_SETATTR: u32 = 442;

pub const SYS_OPEN_BY_HANDLE_AT: u32 = 265;

pub const SYS_NAME_TO_HANDLE_AT: u32 = 264;

pub const SYS_SWAPON: u32 = 224;

pub const SYS_SWAPOFF: u32 = 225;

pub const SYS_PIVOT_ROOT: u32 = 41;

pub const SYS_REBOOT: u32 = 142;

pub const SYS_IO_URING_SETUP: u32 = 425;

pub const SYS_CLOCK_SETTIME: u32 = 112;

pub const SYS_SETTIMEOFDAY: u32 = 170;

pub const SYS_ADJTIMEX: u32 = 171;

pub const SYS_UNSHARE: u32 = 97;

pub const SYS_KEYCTL: u32 = 219;

pub const SYS_ADD_KEY: u32 = 217;

pub const SYS_REQUEST_KEY: u32 = 218;

pub const SYS_PIDFD_GETFD: u32 = 438;

pub const SYS_PERSONALITY: u32 = 92;

pub const SYS_MOVE_PAGES: u32 = 239;

pub const SYS_FANOTIFY_INIT: u32 = 262;

pub const SYS_SECCOMP: u32 = 277;

pub const SYS_ACCT: u32 = 89;

pub const SYS_QUOTACTL: u32 = 60;

pub const SYS_NFSSERVCTL: u32 = 42;

pub const SYS_READ: u32 = 63;

pub const SYS_WRITE: u32 = 64;

pub const SYS_OPENAT: u32 = 56;

pub const SYS_CLOSE: u32 = 57;

pub const SYS_FSTAT: u32 = 80;

pub const SYS_NEWFSTATAT: u32 = 79;

pub const SYS_MMAP: u32 = 222;

pub const SYS_MPROTECT: u32 = 226;

pub const SYS_MUNMAP: u32 = 215;

pub const SYS_EXIT_GROUP: u32 = 94;

pub const SYS_EXIT: u32 = 93;

pub const SYS_BRK: u32 = 214;

pub const SYS_FACCESSAT2: u32 = 439;

pub const SYS_READLINKAT: u32 = 78;

pub const SYS_GETDENTS64: u32 = 61;

pub const SYS_GETRANDOM: u32 = 278;

pub const SYS_CLOCK_GETTIME: u32 = 113;

pub const SYS_NANOSLEEP: u32 = 101;

pub const SYS_CLONE3: u32 = 435;

pub const SYS_MADVISE: u32 = 233;

pub const SYS_RT_SIGACTION: u32 = 134;

pub const SYS_RT_SIGPROCMASK: u32 = 135;

pub const SYS_RT_SIGRETURN: u32 = 139;

pub const SYS_GETPID: u32 = 172;

pub const SYS_GETTID: u32 = 178;

pub const SYS_GETPPID: u32 = 173;

pub const SYS_GETUID: u32 = 174;

pub const SYS_GETEUID: u32 = 175;

pub const SYS_GETGID: u32 = 176;

pub const SYS_GETEGID: u32 = 177;

pub const SYS_LSEEK: u32 = 62;

pub const SYS_DUP: u32 = 23;

pub const SYS_DUP3: u32 = 24;

pub const SYS_PIPE2: u32 = 59;

pub const SYS_PSELECT6: u32 = 72;

pub const SYS_PPOLL: u32 = 73;

pub const SYS_WRITEV: u32 = 66;

pub const SYS_READV: u32 = 65;

pub const SYS_SCHED_YIELD: u32 = 124;

pub const SYS_PRCTL: u32 = 167;

pub const SYS_SET_TID_ADDRESS: u32 = 96;

pub const SYS_SET_ROBUST_LIST: u32 = 99;

pub const SYS_RSEQ: u32 = 293;

} // verus!
