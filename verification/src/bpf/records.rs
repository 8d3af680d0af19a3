//! The records of the kernel's maps, field for field as the BPF programs declare them.
use vstd::prelude::*;

use crate::wire;

verus! {

broadcast use {wire::u32_bytes_len, wire::u64_bytes_len};

/// The context of a sandbox: one entry of the `sandboxes` map.
#[derive(Debug, Clone, Copy, PartialEq, Eq, Structural)]
pub struct SandboxCtx {
    pub sandbox_seq: u64,
    pub flags: u32,
    pub policy_gen: u32,
    pub fs_rules_base: u32,
    pub fs_rules_count: u32,
    pub exec_rules_base: u32,
    pub exec_rules_count: u32,
    pub net_rules_base: u32,
    pub net_rules_count: u32,
    pub turn_id: u64,
}

/// The bytes of a context.
pub open spec fn ctx_bytes(c: SandboxCtx) -> Seq<u8> {
    wire::u64_bytes(c.sandbox_seq) + wire::u32_bytes(c.flags) + wire::u32_bytes(c.policy_gen) + wire::u32_bytes(
        c.fs_rules_base,
    ) + wire::u32_bytes(c.fs_rules_count) + wire::u32_bytes(c.exec_rules_base) + wire::u32_bytes(
        c.exec_rules_count,
    ) + wire::u32_bytes(c.net_rules_base) + wire::u32_bytes(c.net_rules_count) + wire::u64_bytes(c.turn_id)
}

/// Where the fields of a context lie in its bytes.
proof fn ctx_fields(c: SandboxCtx)
    ensures
        ctx_bytes(c).len() == 48,
        ctx_bytes(c).subrange(0, 8) == wire::u64_bytes(c.sandbox_seq),
        ctx_bytes(c).subrange(8, 12) == wire::u32_bytes(c.flags),
        ctx_bytes(c).subrange(12, 16) == wire::u32_bytes(c.policy_gen),
        ctx_bytes(c).subrange(16, 20) == wire::u32_bytes(c.fs_rules_base),
        ctx_bytes(c).subrange(20, 24) == wire::u32_bytes(c.fs_rules_count),
        ctx_bytes(c).subrange(24, 28) == wire::u32_bytes(c.exec_rules_base),
        ctx_bytes(c).subrange(28, 32) == wire::u32_bytes(c.exec_rules_count),
        ctx_bytes(c).subrange(32, 36) == wire::u32_bytes(c.net_rules_base),
        ctx_bytes(c).subrange(36, 40) == wire::u32_bytes(c.net_rules_count),
        ctx_bytes(c).subrange(40, 48) == wire::u64_bytes(c.turn_id),
{
    let b = ctx_bytes(c);
    assert(b.subrange(0, 8) =~= wire::u64_bytes(c.sandbox_seq));
    assert(b.subrange(8, 12) =~= wire::u32_bytes(c.flags));
    assert(b.subrange(12, 16) =~= wire::u32_bytes(c.policy_gen));
    assert(b.subrange(16, 20) =~= wire::u32_bytes(c.fs_rules_base));
    assert(b.subrange(20, 24) =~= wire::u32_bytes(c.fs_rules_count));
    assert(b.subrange(24, 28) =~= wire::u32_bytes(c.exec_rules_base));
    assert(b.subrange(28, 32) =~= wire::u32_bytes(c.exec_rules_count));
    assert(b.subrange(32, 36) =~= wire::u32_bytes(c.net_rules_base));
    assert(b.subrange(36, 40) =~= wire::u32_bytes(c.net_rules_count));
    assert(b.subrange(40, 48) =~= wire::u64_bytes(c.turn_id));
}

/// No two contexts have the same bytes.
pub proof fn ctx_bytes_injective(a: SandboxCtx, b: SandboxCtx)
    requires
        ctx_bytes(a) == ctx_bytes(b),
    ensures
        a == b,
{
    ctx_fields(a);
    ctx_fields(b);
    wire::u64_bytes_injective(a.sandbox_seq, b.sandbox_seq);
    wire::u32_bytes_injective(a.flags, b.flags);
    wire::u32_bytes_injective(a.policy_gen, b.policy_gen);
    wire::u32_bytes_injective(a.fs_rules_base, b.fs_rules_base);
    wire::u32_bytes_injective(a.fs_rules_count, b.fs_rules_count);
    wire::u32_bytes_injective(a.exec_rules_base, b.exec_rules_base);
    wire::u32_bytes_injective(a.exec_rules_count, b.exec_rules_count);
    wire::u32_bytes_injective(a.net_rules_base, b.net_rules_base);
    wire::u32_bytes_injective(a.net_rules_count, b.net_rules_count);
    wire::u64_bytes_injective(a.turn_id, b.turn_id);
}

/// The context that bytes hold, where there are enough of them.
pub open spec fn ctx_in(b: Seq<u8>) -> Option<SandboxCtx> {
    if b.len() < 48 {
        None
    } else {
        Some(choose|c: SandboxCtx| ctx_bytes(c) == b.take(48))
    }
}

/// The bytes of a context hold that context.
pub proof fn ctx_round_trip(c: SandboxCtx)
    ensures
        ctx_bytes(c).len() == 48,
        ctx_in(ctx_bytes(c)) == Some(c),
{
    ctx_fields(c);
    let b = ctx_bytes(c);
    assert(b.take(48) =~= b);
    let d = choose|d: SandboxCtx| ctx_bytes(d) == b.take(48);
    assert(ctx_bytes(c) == b.take(48));
    ctx_bytes_injective(c, d);
}

impl SandboxCtx {
    pub const FLAG_ENFORCING: u32 = 1;

    pub const FLAG_DIRTY: u32 = 2;

    pub const FLAG_KILL_PENDING: u32 = 4;

    pub const SIZE: usize = 48;

    /// The context that a sandbox is registered with: no rules, and enforcement not switched on,
    /// so that it can build its own mount namespace.
    pub fn registered_for_setup() -> (r: Self)
        ensures
            r == (SandboxCtx {
                sandbox_seq: 0,
                flags: 0,
                policy_gen: 0,
                fs_rules_base: 0,
                fs_rules_count: 0,
                exec_rules_base: 0,
                exec_rules_count: 0,
                net_rules_base: 0,
                net_rules_count: 0,
                turn_id: 0,
            }),
    {
        SandboxCtx {
            sandbox_seq: 0,
            flags: 0,
            policy_gen: 0,
            fs_rules_base: 0,
            fs_rules_count: 0,
            exec_rules_base: 0,
            exec_rules_count: 0,
            net_rules_base: 0,
            net_rules_count: 0,
            turn_id: 0,
        }
    }

    /// A context with no rules and with enforcement on: it denies all that the hooks gate.
    pub fn deny_all() -> (r: Self)
        ensures
            r == (SandboxCtx {
                sandbox_seq: 0,
                flags: SandboxCtx::FLAG_ENFORCING,
                policy_gen: 0,
                fs_rules_base: 0,
                fs_rules_count: 0,
                exec_rules_base: 0,
                exec_rules_count: 0,
                net_rules_base: 0,
                net_rules_count: 0,
                turn_id: 0,
            }),
    {
        SandboxCtx {
            sandbox_seq: 0,
            flags: SandboxCtx::FLAG_ENFORCING,
            policy_gen: 0,
            fs_rules_base: 0,
            fs_rules_count: 0,
            exec_rules_base: 0,
            exec_rules_count: 0,
            net_rules_base: 0,
            net_rules_count: 0,
            turn_id: 0,
        }
    }

    /// The bytes of the context.
    pub fn to_bytes(&self) -> (r: Vec<u8>)
        ensures
            r@ == ctx_bytes(*self),
            r@.len() == 48,
    {
        let mut b: Vec<u8> = Vec::new();
        wire::push_u64(&mut b, self.sandbox_seq);
        proof {
            assert(b@ =~= wire::u64_bytes(self.sandbox_seq));
            ctx_fields(*self);
        }
        wire::push_u32(&mut b, self.flags);
        wire::push_u32(&mut b, self.policy_gen);
        wire::push_u32(&mut b, self.fs_rules_base);
        wire::push_u32(&mut b, self.fs_rules_count);
        wire::push_u32(&mut b, self.exec_rules_base);
        wire::push_u32(&mut b, self.exec_rules_count);
        wire::push_u32(&mut b, self.net_rules_base);
        wire::push_u32(&mut b, self.net_rules_count);
        wire::push_u64(&mut b, self.turn_id);
        b
    }

    /// The context that bytes hold, where there are enough of them.
    pub fn from_bytes(b: &[u8]) -> (r: Option<Self>)
        ensures
            r == ctx_in(b@),
    {
        if b.len() < 48 {
            return None;
        }
        let c = SandboxCtx {
            sandbox_seq: wire::u64_at(b, 0),
            flags: wire::u32_at(b, 8),
            policy_gen: wire::u32_at(b, 12),
            fs_rules_base: wire::u32_at(b, 16),
            fs_rules_count: wire::u32_at(b, 20),
            exec_rules_base: wire::u32_at(b, 24),
            exec_rules_count: wire::u32_at(b, 28),
            net_rules_base: wire::u32_at(b, 32),
            net_rules_count: wire::u32_at(b, 36),
            turn_id: wire::u64_at(b, 40),
        };
        proof {
            assert(ctx_bytes(c) =~= b@.take(48));
            let d = choose|d: SandboxCtx| ctx_bytes(d) == b@.take(48);
            ctx_bytes_injective(c, d);
        }
        Some(c)
    }
}

/// The bytes of a filesystem rule.
pub open spec fn fs_rule_bytes(path_hash: u64, access_mask: u64) -> Seq<u8> {
    wire::u64_bytes(path_hash) + wire::u64_bytes(access_mask)
}

/// The bytes of a filesystem rule.
pub fn encode_fs_rule(path_hash: u64, access_mask: u64) -> (r: Vec<u8>)
    ensures
        r@ == fs_rule_bytes(path_hash, access_mask),
{
    let mut b: Vec<u8> = Vec::new();
    wire::push_u64(&mut b, path_hash);
    wire::push_u64(&mut b, access_mask);
    proof {
        assert(b@ =~= fs_rule_bytes(path_hash, access_mask));
    }
    b
}

/// An exec rule as the hook matches it: the device and the inode of a file.
#[derive(Debug, Clone, Copy)]
pub struct ExecRecord {
    pub dev: u64,
    pub inode: u64,
    pub hash: [u8; 32],
}

/// The bytes of an exec rule.
pub open spec fn exec_record_bytes(e: ExecRecord) -> Seq<u8> {
    wire::u64_bytes(e.dev) + wire::u64_bytes(e.inode) + e.hash@
}

impl ExecRecord {
    /// The bytes of the rule.
    pub fn to_bytes(&self) -> (r: Vec<u8>)
        ensures
            r@ == exec_record_bytes(*self),
    {
        let mut b: Vec<u8> = Vec::new();
        wire::push_u64(&mut b, self.dev);
        wire::push_u64(&mut b, self.inode);
        wire::push_all(&mut b, self.hash.as_slice());
        proof {
            assert(b@ =~= exec_record_bytes(*self));
        }
        b
    }
}

/// A key of the `net_rules` trie: how many bits of what follows are matched, the cgroup and the
/// address.
#[derive(Debug, Clone, Copy, PartialEq, Eq, Structural)]
pub struct NetKey {
    pub prefixlen: u32,
    pub cgid: u64,
    pub addr: u32,
}

/// The bytes of a key.
pub open spec fn net_key_bytes(k: NetKey) -> Seq<u8> {
    wire::u32_bytes(k.prefixlen) + wire::u64_bytes(k.cgid) + wire::u32_bytes(k.addr)
}

impl NetKey {
    /// The bytes of the key.
    pub fn to_bytes(&self) -> (r: Vec<u8>)
        ensures
            r@ == net_key_bytes(*self),
    {
        let mut b: Vec<u8> = Vec::new();
        wire::push_u32(&mut b, self.prefixlen);
        wire::push_u64(&mut b, self.cgid);
        wire::push_u32(&mut b, self.addr);
        proof {
            assert(b@ =~= net_key_bytes(*self));
        }
        b
    }
}

/// Keys of different cgroups have different bytes: one sandbox's entry never answers another's
/// lookup.
pub proof fn net_keys_are_scoped(a: NetKey, b: NetKey)
    requires
        a.cgid != b.cgid,
    ensures
        net_key_bytes(a) != net_key_bytes(b),
{
    let (x, y) = (net_key_bytes(a), net_key_bytes(b));
    assert(x.subrange(4, 12) =~= wire::u64_bytes(a.cgid));
    assert(y.subrange(4, 12) =~= wire::u64_bytes(b.cgid));
    if x == y {
        wire::u64_bytes_injective(a.cgid, b.cgid);
    }
}

} // verus!
