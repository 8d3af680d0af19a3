//! Numbers and records of the kernel's interface.
use vstd::prelude::*;

use crate::wire;

verus! {

/// `prctl`: no program gains privileges from here on.
pub const PR_SET_NO_NEW_PRIVS: i32 = 38;

/// `prctl`: reads a capability of the bounding set.
pub const PR_CAPBSET_READ: i32 = 23;

/// `prctl`: drops a capability from the bounding set.
pub const PR_CAPBSET_DROP: i32 = 24;

/// `prctl`: the ambient set.
pub const PR_CAP_AMBIENT: i32 = 47;

/// `prctl`: empties the ambient set.
pub const PR_CAP_AMBIENT_CLEAR_ALL: u32 = 4;

/// The highest capability number that is dropped. A number that the kernel does not know is
/// refused with `EINVAL`.
pub const CAP_PROBE_CEILING: i32 = 63;

/// The version of the capability records: two slots of thirty-two capabilities.
pub const LINUX_CAPABILITY_VERSION_3: u32 = 0x20080522;

/// Asks `landlock_create_ruleset` for the ABI instead of a ruleset.
pub const LANDLOCK_CREATE_RULESET_VERSION: u32 = 1;

/// A Landlock rule on what lies beneath a path.
pub const LANDLOCK_RULE_PATH_BENEATH: i32 = 1;

pub const CLONE_NEWTIME: u64 = 0x00000080;

pub const CLONE_PIDFD: u64 = 0x00001000;

pub const CLONE_NEWNS: u64 = 0x00020000;

pub const CLONE_NEWCGROUP: u64 = 0x02000000;

pub const CLONE_NEWUTS: u64 = 0x04000000;

pub const CLONE_NEWIPC: u64 = 0x08000000;

pub const CLONE_NEWUSER: u64 = 0x10000000;

pub const CLONE_NEWPID: u64 = 0x20000000;

pub const CLONE_NEWNET: u64 = 0x40000000;

pub const CLONE_INTO_CGROUP: u64 = 0x200000000;

/// `SIGCHLD` on Linux.
pub const SIGCHLD: u64 = 17;

/// `umount2`: detach now, clean up once nothing uses it.
pub const MNT_DETACH: i32 = 2;

pub const MS_RDONLY: u64 = 1;

pub const MS_NOSUID: u64 = 2;

pub const MS_NODEV: u64 = 4;

pub const MS_NOEXEC: u64 = 8;

pub const MS_BIND: u64 = 4096;

pub const MS_REC: u64 = 16384;

pub const MS_PRIVATE: u64 = 262144;

broadcast use {wire::u32_bytes_len, wire::u64_bytes_len};

/// The header of a capability record.
#[derive(Debug, Clone, Copy)]
pub struct CapUserHeader {
    pub version: u32,
    pub pid: i32,
}

/// One slot of a capability record.
#[derive(Debug, Clone, Copy, PartialEq, Eq, Structural)]
pub struct CapUserData {
    pub effective: u32,
    pub permitted: u32,
    pub inheritable: u32,
}

impl Default for CapUserData {
    /// No capability at all.
    fn default() -> (r: Self)
        ensures
            r == (CapUserData { effective: 0, permitted: 0, inheritable: 0 }),
    {
        CapUserData { effective: 0, permitted: 0, inheritable: 0 }
    }
}

/// The accesses that a Landlock ruleset handles.
#[derive(Debug, Clone, Copy, PartialEq, Eq, Structural)]
pub struct LandlockRulesetAttr {
    pub handled_access_fs: u64,
    pub handled_access_net: u64,
}

impl LandlockRulesetAttr {
    /// The record as the kernel reads it.
    pub fn to_bytes(&self) -> (r: Vec<u8>)
        ensures
            r@ == wire::u64_bytes(self.handled_access_fs) + wire::u64_bytes(self.handled_access_net),
            r@.len() == 16,
    {
        let mut b: Vec<u8> = Vec::new();
        wire::push_u64(&mut b, self.handled_access_fs);
        wire::push_u64(&mut b, self.handled_access_net);
        proof {
            assert(b@ =~= wire::u64_bytes(self.handled_access_fs) + wire::u64_bytes(self.handled_access_net));
        }
        b
    }
}

/// The accesses allowed beneath a path, which an open descriptor names.
#[derive(Debug, Clone, Copy, PartialEq, Eq, Structural)]
pub struct LandlockPathBeneathAttr {
    pub allowed_access: u64,
    pub parent_fd: i32,
}

impl LandlockPathBeneathAttr {
    /// The record as the kernel reads it: twelve bytes, with nothing between or behind the fields.
    pub fn to_bytes(&self) -> (r: Vec<u8>)
        ensures
            r@ == wire::u64_bytes(self.allowed_access) + wire::u32_bytes(self.parent_fd as u32),
            r@.len() == 12,
    {
        let mut b: Vec<u8> = Vec::new();
        wire::push_u64(&mut b, self.allowed_access);
        wire::push_u32(&mut b, self.parent_fd as u32);
        proof {
            assert(b@ =~= wire::u64_bytes(self.allowed_access) + wire::u32_bytes(self.parent_fd as u32));
        }
        b
    }
}

/// The arguments of `clone3`.
#[derive(Debug, Clone, Copy, PartialEq, Eq, Structural)]
pub struct CloneArgs {
    pub flags: u64,
    pub pidfd: u64,
    pub child_tid: u64,
    pub parent_tid: u64,
    pub exit_signal: u64,
    pub stack: u64,
    pub stack_size: u64,
    pub tls: u64,
    pub set_tid: u64,
    pub set_tid_size: u64,
    pub cgroup: u64,
}

/// Arguments that ask for nothing.
pub open spec fn no_clone_args() -> CloneArgs {
    CloneArgs {
        flags: 0,
        pidfd: 0,
        child_tid: 0,
        parent_tid: 0,
        exit_signal: 0,
        stack: 0,
        stack_size: 0,
        tls: 0,
        set_tid: 0,
        set_tid_size: 0,
        cgroup: 0,
    }
}

impl Default for CloneArgs {
    /// Arguments that ask for nothing.
    fn default() -> (r: Self)
        ensures
            r == no_clone_args(),
    {
        CloneArgs {
            flags: 0,
            pidfd: 0,
            child_tid: 0,
            parent_tid: 0,
            exit_signal: 0,
            stack: 0,
            stack_size: 0,
            tls: 0,
            set_tid: 0,
            set_tid_size: 0,
            cgroup: 0,
        }
    }
}

/// The record of `clone3`'s arguments: eleven numbers in a row.
pub open spec fn clone_bytes(a: CloneArgs) -> Seq<u8> {
    wire::u64_bytes(a.flags) + wire::u64_bytes(a.pidfd) + wire::u64_bytes(a.child_tid) + wire::u64_bytes(
        a.parent_tid,
    ) + wire::u64_bytes(a.exit_signal) + wire::u64_bytes(a.stack) + wire::u64_bytes(a.stack_size)
        + wire::u64_bytes(a.tls) + wire::u64_bytes(a.set_tid) + wire::u64_bytes(a.set_tid_size) + wire::u64_bytes(
        a.cgroup,
    )
}

impl CloneArgs {
    /// The record as the kernel reads it.
    pub fn to_bytes(&self) -> (r: Vec<u8>)
        ensures
            r@ == clone_bytes(*self),
            r@.len() == 88,
    {
        let mut b: Vec<u8> = Vec::new();
        wire::push_u64(&mut b, self.flags);
        wire::push_u64(&mut b, self.pidfd);
        wire::push_u64(&mut b, self.child_tid);
        wire::push_u64(&mut b, self.parent_tid);
        wire::push_u64(&mut b, self.exit_signal);
        wire::push_u64(&mut b, self.stack);
        wire::push_u64(&mut b, self.stack_size);
        wire::push_u64(&mut b, self.tls);
        wire::push_u64(&mut b, self.set_tid);
        wire::push_u64(&mut b, self.set_tid_size);
        wire::push_u64(&mut b, self.cgroup);
        proof {
            assert(Seq::<u8>::empty() + wire::u64_bytes(self.flags) =~= wire::u64_bytes(self.flags));
        }
        b
    }
}

} // verus!
