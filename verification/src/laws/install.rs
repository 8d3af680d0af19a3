//! What the kernel reads once a policy was installed, and what is left once it was taken down.
use vstd::prelude::*;

use crate::bpf::exec_rules;
use crate::bpf::exec_rules::DirEntry;
use crate::bpf::exec_rules::ExecLookup;
use crate::bpf::exec_rules::ExecRecordModel;
use crate::bpf::maps;
use crate::bpf::maps::MapDeleteModel;
use crate::bpf::maps::MapName;
use crate::bpf::maps::MapWriteModel;
use crate::bpf::net_rules;
use crate::bpf::records;
use crate::bpf::records::NetKey;
use crate::bpf::records::SandboxCtx;
use crate::net;
use crate::number;
use crate::policy::compile::BpfExecRuleModel;
use crate::policy::compile::BpfFsRule;
use crate::policy::compile::BpfNetRuleModel;
use crate::text;
use crate::wire;

verus! {

broadcast use {wire::u32_bytes_len, wire::u64_bytes_len};

/// The 32-bit number that the kernel reads at an offset.
pub open spec fn u32_read(b: Seq<u8>, at: int) -> u32 {
    wire::u32_value(b.subrange(at, at + 4))
}

/// The 64-bit number that the kernel reads at an offset.
pub open spec fn u64_read(b: Seq<u8>, at: int) -> u64 {
    wire::u64_value(b.subrange(at, at + 8))
}

/// Whether a write puts a filesystem rule at an index: the hash in its first eight bytes, the rights
/// in the next eight.
pub open spec fn puts_fs_rule(w: MapWriteModel, index: int, path_hash: u64, access_mask: u64) -> bool {
    &&& w.map is FsRules
    &&& w.key.len() == 4 && u32_read(w.key, 0) == index
    &&& w.value.len() == 16
    &&& u64_read(w.value, 0) == path_hash
    &&& u64_read(w.value, 8) == access_mask
}

/// Whether a write puts an exec rule at an index: the device, the inode, and the digest behind them.
pub open spec fn puts_exec_rule(w: MapWriteModel, index: int, dev: u64, inode: u64, hash: Seq<u8>) -> bool {
    &&& w.map is ExecRules
    &&& w.key.len() == 4 && u32_read(w.key, 0) == index
    &&& w.value.len() == 16 + hash.len()
    &&& u64_read(w.value, 0) == dev
    &&& u64_read(w.value, 8) == inode
    &&& w.value.skip(16) == hash
}

/// Whether a write puts a network rule of a cgroup: as many bits are matched as those of the cgroup
/// and of the network's prefix, the address lies byte by byte behind the cgroup, and the bit of a
/// port is set where the rule lists the port.
pub open spec fn puts_net_rule(w: MapWriteModel, cgid: u64, octets: Seq<u8>, prefix: int, ports: Seq<u16>) -> bool {
    &&& w.map is NetRules
    &&& w.key.len() == 16
    &&& u32_read(w.key, 0) == 64 + prefix
    &&& u64_read(w.key, 4) == cgid
    &&& w.key.skip(12) == octets
    &&& w.value.len() == 8
    &&& forall|p: u16| p < 64 ==> ((u64_read(w.value, 0) >> (p as u64)) & 1 == 1 <==> #[trigger] ports.contains(p))
}

/// Whether writes put exactly the rules of a policy, those of files first, then those of programs, then
/// those of the network.
pub open spec fn puts_policy(
    writes: Seq<MapWriteModel>,
    cgid: u64,
    fs_base: int,
    fs: Seq<BpfFsRule>,
    exec_base: int,
    execs: Seq<ExecRecordModel>,
    nets: Seq<BpfNetRuleModel>,
) -> bool {
    &&& writes.len() == fs.len() + execs.len() + nets.len()
    &&& forall|i: int|
        0 <= i < fs.len() ==> puts_fs_rule(
            #[trigger] writes[i],
            fs_base + i,
            fs[i].path_hash,
            fs[i].access_mask,
        )
    &&& forall|i: int|
        fs.len() <= i < fs.len() + execs.len() ==> puts_exec_rule(
            #[trigger] writes[i],
            exec_base + i - fs.len(),
            execs[i - fs.len()].dev,
            execs[i - fs.len()].inode,
            execs[i - fs.len()].hash,
        )
    &&& forall|i: int|
        fs.len() + execs.len() <= i < writes.len() ==> ({
            let rule = nets[i - fs.len() - execs.len()];
            let (addr, prefix) = network_parts(rule.cidr);
            puts_net_rule(#[trigger] writes[i], cgid, net::ipv4(addr)->0, prefix, rule.ports)
        })
}

/// The address and the prefix length of a network: what stands before and behind the slash, or the
/// whole of it and 32.
pub open spec fn network_parts(cidr: Seq<char>) -> (Seq<char>, int) {
    if cidr.contains('/') {
        let k = text::index_of(cidr, '/');
        (cidr.take(k), number::parsed(cidr.skip(k + 1), u32::MAX as nat)->0 as int)
    } else {
        (cidr, 32)
    }
}

/// Whether a write gives a cgroup a context with these fields, where the kernel looks for them.
pub open spec fn puts_context(w: MapWriteModel, cgid: u64, c: SandboxCtx) -> bool {
    &&& w.map is Sandboxes
    &&& w.key.len() == 8 && u64_read(w.key, 0) == cgid
    &&& w.value.len() == 48
    &&& u64_read(w.value, 0) == c.sandbox_seq
    &&& u32_read(w.value, 8) == c.flags
    &&& u32_read(w.value, 12) == c.policy_gen
    &&& u32_read(w.value, 16) == c.fs_rules_base
    &&& u32_read(w.value, 20) == c.fs_rules_count
    &&& u32_read(w.value, 24) == c.exec_rules_base
    &&& u32_read(w.value, 28) == c.exec_rules_count
    &&& u32_read(w.value, 32) == c.net_rules_base
    &&& u32_read(w.value, 36) == c.net_rules_count
    &&& u64_read(w.value, 40) == c.turn_id
}

/// Whether a delete removes an index of a rule map.
pub open spec fn removes_index(d: MapDeleteModel, map: MapName, index: int) -> bool {
    d.map == map && d.key.len() == 4 && u32_read(d.key, 0) == index
}

/// Whether a delete removes a network entry.
pub open spec fn removes_net(d: MapDeleteModel, k: NetKey) -> bool {
    &&& d.map is NetRules
    &&& d.key.len() == 16 && u32_read(d.key, 0) == k.prefixlen && u64_read(d.key, 4) == k.cgid && u32_read(d.key, 12)
        == k.addr
}

/// Whether one of some deletes removes an index of a rule map.
pub open spec fn index_removed(deletes: Seq<MapDeleteModel>, map: MapName, index: int) -> bool {
    exists|i: int| 0 <= i < deletes.len() && #[trigger] removes_index(deletes[i], map, index)
}

/// Whether one of some deletes removes a network entry.
pub open spec fn net_removed(deletes: Seq<MapDeleteModel>, k: NetKey) -> bool {
    exists|i: int| 0 <= i < deletes.len() && #[trigger] removes_net(deletes[i], k)
}

/// Whether deletes remove exactly some indices of both rule maps and some network entries.
pub open spec fn removes_rules(
    deletes: Seq<MapDeleteModel>,
    fs: (u32, u32),
    execs: (u32, u32),
    gone: spec_fn(NetKey) -> bool,
) -> bool {
    &&& forall|x: int|
        fs.0 <= x < fs.0 + fs.1 ==> #[trigger] index_removed(deletes, MapName::FsRules, x)
    &&& forall|x: int|
        execs.0 <= x < execs.0 + execs.1 ==> #[trigger] index_removed(deletes, MapName::ExecRules, x)
    &&& forall|k: NetKey|
        #[trigger] gone(k) ==> net_removed(deletes, k)
    &&& forall|i: int|
        0 <= i < deletes.len() ==> match (#[trigger] deletes[i]).map {
            MapName::FsRules => fs.0 <= u32_read(deletes[i].key, 0) < fs.0 + fs.1,
            MapName::ExecRules => execs.0 <= u32_read(deletes[i].key, 0) < execs.0 + execs.1,
            MapName::NetRules => exists|k: NetKey| #[trigger] gone(k) && removes_net(deletes[i], k),
            MapName::Sandboxes => false,
        }
}

proof fn u32_reads(b: Seq<u8>, at: int, x: u32)
    requires
        b.subrange(at, at + 4) == wire::u32_bytes(x),
    ensures
        u32_read(b, at) == x,
{
    wire::u32_value_of_bytes(x);
}

proof fn u64_reads(b: Seq<u8>, at: int, x: u64)
    requires
        b.subrange(at, at + 8) == wire::u64_bytes(x),
    ensures
        u64_read(b, at) == x,
{
    wire::u64_value_of_bytes(x);
}

proof fn whole_u32(x: u32)
    ensures
        u32_read(wire::u32_bytes(x), 0) == x,
{
    assert(wire::u32_bytes(x).subrange(0, 4) =~= wire::u32_bytes(x));
    u32_reads(wire::u32_bytes(x), 0, x);
}

proof fn whole_u64(x: u64)
    ensures
        u64_read(wire::u64_bytes(x), 0) == x,
{
    assert(wire::u64_bytes(x).subrange(0, 8) =~= wire::u64_bytes(x));
    u64_reads(wire::u64_bytes(x), 0, x);
}

/// The bytes of a filesystem rule are read as that rule.
pub proof fn fs_rules_are_read(path_hash: u64, access_mask: u64)
    ensures
        ({
            let b = records::fs_rule_bytes(path_hash, access_mask);
            b.len() == 16 && u64_read(b, 0) == path_hash && u64_read(b, 8) == access_mask
        }),
{
    let b = records::fs_rule_bytes(path_hash, access_mask);
    assert(b.subrange(0, 8) =~= wire::u64_bytes(path_hash));
    assert(b.subrange(8, 16) =~= wire::u64_bytes(access_mask));
    u64_reads(b, 0, path_hash);
    u64_reads(b, 8, access_mask);
}

/// The bytes of an exec rule are read as that rule.
pub proof fn exec_rules_are_read(e: ExecRecordModel)
    ensures
        ({
            let b = maps::exec_bytes(e);
            b.len() == 16 + e.hash.len() && u64_read(b, 0) == e.dev && u64_read(b, 8) == e.inode && b.skip(16)
                == e.hash
        }),
{
    let b = maps::exec_bytes(e);
    assert(b.subrange(0, 8) =~= wire::u64_bytes(e.dev));
    assert(b.subrange(8, 16) =~= wire::u64_bytes(e.inode));
    assert(b.skip(16) =~= e.hash);
    u64_reads(b, 0, e.dev);
    u64_reads(b, 8, e.inode);
}

/// The bytes of a network key are read as that key.
pub proof fn net_keys_are_read(k: NetKey)
    ensures
        ({
            let b = records::net_key_bytes(k);
            b.len() == 16 && u32_read(b, 0) == k.prefixlen && u64_read(b, 4) == k.cgid && u32_read(b, 12) == k.addr
                && b.skip(12) == wire::u32_bytes(k.addr)
        }),
{
    let b = records::net_key_bytes(k);
    assert(b.subrange(0, 4) =~= wire::u32_bytes(k.prefixlen));
    assert(b.subrange(4, 12) =~= wire::u64_bytes(k.cgid));
    assert(b.subrange(12, 16) =~= wire::u32_bytes(k.addr));
    assert(b.skip(12) =~= wire::u32_bytes(k.addr));
    u32_reads(b, 0, k.prefixlen);
    u64_reads(b, 4, k.cgid);
    u32_reads(b, 12, k.addr);
}

/// The bytes of a context are read as that context.
pub proof fn contexts_are_read(cgid: u64, c: SandboxCtx)
    ensures
        puts_context(maps::ctx_write(cgid, c), cgid, c),
{
    let b = records::ctx_bytes(c);
    assert(b.subrange(0, 8) =~= wire::u64_bytes(c.sandbox_seq));
    assert(b.subrange(8, 12) =~= wire::u32_bytes(c.flags));
    assert(b.subrange(12, 16) =~= wire::u32_bytes(c.policy_gen));
    assert(b.subrange(16, 20) =~= wire::u32_bytes(c.fs_rules_base));
    assert(b.subrange(20, 24) =~= wire::u32_bytes(c.fs_rules_count));
    assert(b.subrange(24, 28) =~= wire::u32_bytes(c.exec_rules_base));
    assert(b.subrange(28, 32) =~= wire::u32_bytes(c.exec_rules_count));
    assert(b.subrange(32, 36) =~= wire::u32_bytes(c.net_rules_base));
    assert(b.subrange(36, 40) =~= wire::u32_bytes(c.net_rules_count));
    assert(b.subrange(40, 48) =~= wire::u64_bytes(c.turn_id));
    u64_reads(b, 0, c.sandbox_seq);
    u32_reads(b, 8, c.flags);
    u32_reads(b, 12, c.policy_gen);
    u32_reads(b, 16, c.fs_rules_base);
    u32_reads(b, 20, c.fs_rules_count);
    u32_reads(b, 24, c.exec_rules_base);
    u32_reads(b, 28, c.exec_rules_count);
    u32_reads(b, 32, c.net_rules_base);
    u32_reads(b, 36, c.net_rules_count);
    u64_reads(b, 40, c.turn_id);
    whole_u64(cgid);
}

proof fn ports_below(ports: Seq<u16>)
    requires
        net_rules::first_high(ports) >= ports.len(),
    ensures
        forall|i: int| 0 <= i < ports.len() ==> #[trigger] ports[i] < 64,
    decreases ports.len(),
{
    if ports.len() > 0 {
        ports_below(ports.skip(1));
        assert forall|i: int| 0 <= i < ports.len() implies #[trigger] ports[i] < 64 by {
            if i > 0 {
                assert(ports.skip(1)[i - 1] == ports[i]);
            }
        }
    }
}

proof fn parts_of_a_network(cidr: Seq<char>)
    ensures
        net_rules::cidr_parts(cidr).0 == network_parts(cidr).0,
        net_rules::cidr_refusal(cidr) is None ==> number::parsed(net_rules::cidr_parts(cidr).1, u32::MAX as nat)
            == Some(network_parts(cidr).1 as nat) && 0 <= network_parts(cidr).1 <= 32,
{
    reveal_strlit("32");
    text::index_of_is_first(cidr, '/');
    number::decimal_round_trip(32, u32::MAX as nat);
    reveal_with_fuel(number::decimal, 3);
    assert(number::decimal(32) =~= "32"@);
}

proof fn a_rule_refused(rules: Seq<BpfNetRuleModel>, i: int)
    requires
        net_rules::rules_refusal(rules) is None,
        0 <= i < rules.len(),
    ensures
        net_rules::rule_refusal(rules[i]) is None,
    decreases rules.len(),
{
    if i > 0 {
        a_rule_refused(rules.skip(1), i - 1);
        assert(rules.skip(1)[i - 1] == rules[i]);
    }
}

/// What is written for a policy is, as the kernel reads it, that policy.
pub proof fn a_policy_is_read(
    cgid: u64,
    fs_base: u32,
    fs: Seq<BpfFsRule>,
    exec_base: u32,
    execs: Seq<ExecRecordModel>,
    entries: Seq<(NetKey, u64)>,
    nets: Seq<BpfNetRuleModel>,
)
    requires
        fs_base + fs.len() <= u32::MAX,
        exec_base + execs.len() <= u32::MAX,
        net_rules::rules_refusal(nets) is None,
        entries.len() == nets.len(),
        forall|i: int| 0 <= i < entries.len() ==> net_rules::entry_is(#[trigger] entries[i], cgid, nets[i]),
    ensures
        puts_policy(
            maps::fs_writes(fs_base, fs) + maps::exec_writes(exec_base, execs) + maps::net_writes(entries),
            cgid,
            fs_base as int,
            fs,
            exec_base as int,
            execs,
            nets,
        ),
{
    let a = maps::fs_writes(fs_base, fs);
    let b = maps::exec_writes(exec_base, execs);
    let c = maps::net_writes(entries);
    let w = a + b + c;
    assert forall|i: int| 0 <= i < fs.len() implies puts_fs_rule(
        #[trigger] w[i],
        fs_base + i,
        fs[i].path_hash,
        fs[i].access_mask,
    ) by {
        assert(w[i] == a[i]);
        whole_u32((fs_base + i) as u32);
        fs_rules_are_read(fs[i].path_hash, fs[i].access_mask);
    }
    assert forall|i: int| fs.len() <= i < fs.len() + execs.len() implies puts_exec_rule(
        #[trigger] w[i],
        exec_base + i - fs.len(),
        execs[i - fs.len()].dev,
        execs[i - fs.len()].inode,
        execs[i - fs.len()].hash,
    ) by {
        let k = i - fs.len();
        assert(w[i] == b[k]);
        whole_u32((exec_base + k) as u32);
        exec_rules_are_read(execs[k]);
    }
    assert forall|i: int| fs.len() + execs.len() <= i < w.len() implies ({
        let rule = nets[i - fs.len() - execs.len()];
        let (addr, prefix) = network_parts(rule.cidr);
        puts_net_rule(#[trigger] w[i], cgid, net::ipv4(addr)->0, prefix, rule.ports)
    }) by {
        let k = i - fs.len() - execs.len();
        assert(w[i] == c[k]);
        let rule = nets[k];
        let e = entries[k];
        assert(net_rules::entry_is(e, cgid, rule));
        a_rule_refused(nets, k);
        parts_of_a_network(rule.cidr);
        net_keys_are_read(e.0);
        whole_u64(e.1);
        ports_below(rule.ports);
        assert forall|p: u16| p < 64 implies ((e.1 >> (p as u64)) & 1 == 1 <==> #[trigger] rule.ports.contains(p)) by {
            net_rules::port_bit_is_listed(rule.ports, p);
        }
    }
}

proof fn a_range_is_removed(map: MapName, range: (u32, u32), x: int)
    requires
        range.0 + range.1 <= u32::MAX,
        range.0 <= x < range.0 + range.1,
    ensures
        removes_index(maps::range_deletes(map, range)[x - range.0], map, x),
{
    whole_u32(x as u32);
}

proof fn a_range_removes(map: MapName, range: (u32, u32), i: int)
    requires
        range.0 + range.1 <= u32::MAX,
        0 <= i < range.1,
    ensures
        maps::range_deletes(map, range)[i].map == map,
        u32_read(maps::range_deletes(map, range)[i].key, 0) == range.0 + i,
{
    whole_u32((range.0 + i) as u32);
}

/// Deletes of two ranges and of keys, in any order of the three, remove exactly those.
pub proof fn rules_are_removed(
    deletes: Seq<MapDeleteModel>,
    fs: (u32, u32),
    execs: (u32, u32),
    keys: Seq<NetKey>,
    gone: spec_fn(NetKey) -> bool,
)
    requires
        fs.0 + fs.1 <= u32::MAX,
        execs.0 + execs.1 <= u32::MAX,
        forall|k: NetKey| #[trigger] gone(k) <==> keys.contains(k),
        ({
            let a = maps::range_deletes(MapName::FsRules, fs);
            let b = maps::range_deletes(MapName::ExecRules, execs);
            let c = maps::key_deletes(keys);
            deletes == a + b + c || deletes == c + a + b
        }),
    ensures
        removes_rules(deletes, fs, execs, gone),
{
    let a = maps::range_deletes(MapName::FsRules, fs);
    let b = maps::range_deletes(MapName::ExecRules, execs);
    let c = maps::key_deletes(keys);
    let front = deletes == a + b + c;
    let na = if front {
        0
    } else {
        c.len() as int
    };
    let nb = na + a.len();
    let nc = if front {
        a.len() + b.len()
    } else {
        0
    };
    assert forall|i: int| 0 <= i < a.len() implies #[trigger] a[i] == deletes[na + i] by {}
    assert forall|i: int| 0 <= i < b.len() implies #[trigger] b[i] == deletes[nb + i] by {}
    assert forall|i: int| 0 <= i < c.len() implies #[trigger] c[i] == deletes[nc + i] by {}
    assert forall|x: int| fs.0 <= x < fs.0 + fs.1 implies #[trigger] index_removed(deletes, MapName::FsRules, x) by {
        a_range_is_removed(MapName::FsRules, fs, x);
        assert(a[x - fs.0] == deletes[na + x - fs.0]);
        assert(removes_index(deletes[na + x - fs.0], MapName::FsRules, x));
    }
    assert forall|x: int| execs.0 <= x < execs.0 + execs.1 implies #[trigger] index_removed(deletes, MapName::ExecRules, x) by {
        a_range_is_removed(MapName::ExecRules, execs, x);
        assert(b[x - execs.0] == deletes[nb + x - execs.0]);
        assert(removes_index(deletes[nb + x - execs.0], MapName::ExecRules, x));
    }
    assert forall|k: NetKey| #[trigger] gone(k) implies net_removed(deletes, k) by {
        let j = choose|j: int| 0 <= j < keys.len() && keys[j] == k;
        net_keys_are_read(k);
        assert(c[j] == deletes[nc + j]);
        assert(removes_net(deletes[nc + j], k));
    }
    assert forall|i: int| 0 <= i < deletes.len() implies match (#[trigger] deletes[i]).map {
        MapName::FsRules => fs.0 <= u32_read(deletes[i].key, 0) < fs.0 + fs.1,
        MapName::ExecRules => execs.0 <= u32_read(deletes[i].key, 0) < execs.0 + execs.1,
        MapName::NetRules => exists|k: NetKey| #[trigger] gone(k) && removes_net(deletes[i], k),
        MapName::Sandboxes => false,
    } by {
        if na <= i < na + a.len() {
            assert(a[i - na] == deletes[i]);
            a_range_removes(MapName::FsRules, fs, i - na);
        } else if nb <= i < nb + b.len() {
            assert(b[i - nb] == deletes[i]);
            a_range_removes(MapName::ExecRules, execs, i - nb);
        } else {
            assert(c[i - nc] == deletes[i]);
            let k = keys[i - nc];
            assert(keys.contains(k));
            net_keys_are_read(k);
            assert(gone(k) && removes_net(deletes[i], k));
        }
    }
}

/// The keys that are left out are those that are kept.
pub proof fn stale_keys_are_those_not_kept(keys: Seq<NetKey>, kept: Seq<NetKey>, k: NetKey)
    ensures
        maps::keys_without(keys, kept).contains(k) <==> keys.contains(k) && !kept.contains(k),
    decreases keys.len(),
{
    if keys.len() > 0 {
        let front = keys.drop_last();
        let before = maps::keys_without(front, kept);
        let all = maps::keys_without(keys, kept);
        stale_keys_are_those_not_kept(front, kept, k);
        assert(keys.contains(k) <==> front.contains(k) || keys.last() == k) by {
            if keys.contains(k) {
                let j = choose|j: int| 0 <= j < keys.len() && keys[j] == k;
                if j < front.len() {
                    assert(front[j] == k);
                }
            }
            if front.contains(k) {
                let j = choose|j: int| 0 <= j < front.len() && front[j] == k;
                assert(keys[j] == k);
            }
            assert(keys[keys.len() - 1] == keys.last());
        }
        if !kept.contains(keys.last()) {
            assert(all.contains(k) <==> before.contains(k) || keys.last() == k) by {
                if all.contains(k) {
                    let j = choose|j: int| 0 <= j < all.len() && all[j] == k;
                    if j < before.len() {
                        assert(before[j] == k);
                    }
                }
                if before.contains(k) {
                    let j = choose|j: int| 0 <= j < before.len() && before[j] == k;
                    assert(all[j] == k);
                }
                assert(all[before.len() as int] == keys.last());
            }
        }
    }
}

/// Whether a key is that of one of some entries.
pub open spec fn is_key_of(entries: Seq<(NetKey, u64)>, k: NetKey) -> bool {
    exists|i: int| 0 <= i < entries.len() && (#[trigger] entries[i]).0 == k
}

/// The keys of entries are those that stand in one of them.
pub proof fn keys_stand_in_entries(entries: Seq<(NetKey, u64)>, k: NetKey)
    ensures
        maps::keys_of(entries).contains(k) <==> is_key_of(entries, k),
{
    let keys = maps::keys_of(entries);
    if keys.contains(k) {
        let j = choose|j: int| 0 <= j < keys.len() && keys[j] == k;
        assert(entries[j].0 == k);
    }
    if is_key_of(entries, k) {
        let j = choose|j: int| 0 <= j < entries.len() && (#[trigger] entries[j]).0 == k;
        assert(keys[j] == k);
    }
}

/// Whether a delete removes the context of a cgroup.
pub open spec fn removes_context(d: MapDeleteModel, cgid: u64) -> bool {
    d.map is Sandboxes && d.key.len() == 8 && u64_read(d.key, 0) == cgid
}

/// The key of a context is read as its cgroup.
pub proof fn context_keys_are_read(cgid: u64)
    ensures
        wire::u64_bytes(cgid).len() == 8,
        u64_read(wire::u64_bytes(cgid), 0) == cgid,
{
    whole_u64(cgid);
}

/// Four numbers with dots between them.
pub open spec fn dotted(a: u8, b: u8, c: u8, d: u8) -> Seq<char> {
    number::decimal(a as nat) + "."@ + number::decimal(b as nat) + "."@ + number::decimal(c as nat) + "."@
        + number::decimal(d as nat)
}

proof fn an_octet_reads_back(a: u8)
    ensures
        net::octet(number::decimal(a as nat)) == Some(a),
        !number::decimal(a as nat).contains('.'),
        !number::decimal(a as nat).contains('/'),
{
    let s = number::decimal(a as nat);
    number::decimal_value(a as nat);
    reveal_with_fuel(number::decimal, 4);
    assert(1 <= s.len() <= 3);
    assert(s.len() == 1 || s[0] != '0');
    assert forall|i: int| 0 <= i < s.len() implies s[i] != '.' && s[i] != '/' by {
        assert(number::is_digit(s[i]));
    }
}

/// A network that is written as four numbers with dots between them, a slash and a prefix length
/// up to 32 is read as just that.
pub proof fn a_written_network_is_read_back(a: u8, b: u8, c: u8, d: u8, n: nat)
    requires
        n <= 32,
    ensures
        ({
            let cidr = dotted(a, b, c, d) + "/"@ + number::decimal(n);
            &&& net_rules::cidr_refusal(cidr) is None
            &&& network_parts(cidr) == (dotted(a, b, c, d), n as int)
            &&& net::ipv4(dotted(a, b, c, d)) == Some(seq![a, b, c, d])
        }),
        net_rules::cidr_refusal(dotted(a, b, c, d)) is None,
        network_parts(dotted(a, b, c, d)) == (dotted(a, b, c, d), 32int),
{
    reveal_strlit(".");
    reveal_strlit("/");
    assert("."@ =~= seq!['.']);
    assert("/"@ =~= seq!['/']);
    an_octet_reads_back(a);
    an_octet_reads_back(b);
    an_octet_reads_back(c);
    an_octet_reads_back(d);
    let (wa, wb, wc, wd) = (
        number::decimal(a as nat),
        number::decimal(b as nat),
        number::decimal(c as nat),
        number::decimal(d as nat),
    );
    let addr = dotted(a, b, c, d);
    let one = wa + seq!['.'] + wb;
    let two = one + seq!['.'] + wc;
    assert(addr =~= two + seq!['.'] + wd);
    text::pieces_of_plain(wa, '.');
    text::pieces_of_plain(wb, '.');
    text::pieces_of_plain(wc, '.');
    text::pieces_of_plain(wd, '.');
    text::pieces_of_appended(wa, wb, '.');
    text::pieces_of_appended(one, wc, '.');
    text::pieces_of_appended(two, wd, '.');
    assert(text::pieces(addr, '.') =~= seq![wa, wb, wc, wd]);
    assert(!addr.contains('/')) by {
        if addr.contains('/') {
            let k = choose|k: int| 0 <= k < addr.len() && addr[k] == '/';
            let la = wa.len() as int;
            let lb = la + 1 + wb.len();
            let lc = lb + 1 + wc.len();
            if k < la {
                assert(addr[k] == wa[k]);
                assert(wa.contains('/'));
            } else if la < k < lb {
                assert(addr[k] == wb[k - la - 1]);
                assert(wb.contains('/'));
            } else if lb < k < lc {
                assert(addr[k] == wc[k - lb - 1]);
                assert(wc.contains('/'));
            } else if lc < k {
                assert(addr[k] == wd[k - lc - 1]);
                assert(wd.contains('/'));
            }
        }
    }
    let cidr = addr + "/"@ + number::decimal(n);
    assert(cidr =~= addr + seq!['/'] + number::decimal(n));
    text::split_once_of_joined(addr, number::decimal(n), '/');
    number::decimal_round_trip(n, u32::MAX as nat);
    number::decimal_round_trip(32, u32::MAX as nat);
    parts_of_a_network(addr);
    text::index_of_is_first(addr, '/');
    assert(cidr[addr.len() as int] == '/');
    assert(cidr.contains('/'));
    text::index_of_unique(cidr, '/', addr.len() as int);
    assert(cidr.take(addr.len() as int) =~= addr);
    assert(cidr.skip(addr.len() as int + 1) =~= number::decimal(n));
    reveal_strlit("32");
    reveal_with_fuel(number::decimal, 3);
    assert(number::decimal(32) =~= "32"@);
}

/// The number that `stat` reports for the device with a major and a minor number.
pub open spec fn stat_dev(major: u64, minor: u64) -> u64 {
    ((major & 0xffff_f000) << 32) | ((major & 0xfff) << 8) | ((minor & 0xffff_ff00) << 12) | (minor & 0xff)
}

/// The kernel's number for a device holds the major number above the lowest twenty bits, and the minor
/// number in them.
pub proof fn devices_keep_their_numbers(major: u64, minor: u64)
    requires
        major < 0x1000_0000,
        minor < 0x10_0000,
    ensures
        exec_rules::kernel_dev(stat_dev(major, minor)) == major * 0x10_0000 + minor,
{
    assert(major < 0x1000_0000 && minor < 0x10_0000 ==> exec_rules::kernel_dev(stat_dev(major, minor)) == (major
        << 20) + minor && (major << 20) == major * 0x10_0000) by (bit_vector);
}

/// Of a directory that can be read, exactly the regular files that somebody may execute are allowed.
pub proof fn a_prefix_allows_its_programs(path: Seq<char>, entries: Seq<DirEntry>, e: ExecRecordModel)
    requires
        forall|i: int| 0 <= i < entries.len() ==> !(#[trigger] entries[i] is Failed),
    ensures
        exec_rules::dir_records(path, entries) is Ok,
        exec_rules::dir_records(path, entries)->Ok_0.contains(e) <==> (e.hash == Seq::new(32, |k: int| 0u8)
            && exists|i: int|
            0 <= i < entries.len() && (#[trigger] entries[i] matches DirEntry::Found { is_file, mode, dev, inode }
                && is_file && mode & 73 != 0 && e.dev == exec_rules::kernel_dev(dev) && e.inode == inode)),
    decreases entries.len(),
{
    if entries.len() > 0 {
        let front = entries.drop_last();
        assert forall|i: int| 0 <= i < front.len() implies !(#[trigger] front[i] is Failed) by {
            assert(front[i] == entries[i]);
        }
        a_prefix_allows_its_programs(path, front, e);
        let before = exec_rules::dir_records(path, front)->Ok_0;
        let all = exec_rules::dir_records(path, entries)->Ok_0;
        let last = entries.last();
        assert(last == entries[entries.len() - 1]);
        let fits = |i: int|
            entries[i] matches DirEntry::Found { is_file, mode, dev, inode } && is_file && mode & 73 != 0 && e.dev
                == exec_rules::kernel_dev(dev) && e.inode == inode;
        if exists|i: int|
            0 <= i < front.len() && (#[trigger] front[i] matches DirEntry::Found { is_file, mode, dev, inode }
                && is_file && mode & 73 != 0 && e.dev == exec_rules::kernel_dev(dev) && e.inode == inode) {
            let i = choose|i: int|
                0 <= i < front.len() && (#[trigger] front[i] matches DirEntry::Found { is_file, mode, dev, inode }
                    && is_file && mode & 73 != 0 && e.dev == exec_rules::kernel_dev(dev) && e.inode == inode);
            assert(entries[i] == front[i]);
        }
        if exists|i: int|
            0 <= i < entries.len() && (#[trigger] entries[i] matches DirEntry::Found { is_file, mode, dev, inode }
                && is_file && mode & 73 != 0 && e.dev == exec_rules::kernel_dev(dev) && e.inode == inode) {
            let i = choose|i: int|
                0 <= i < entries.len() && (#[trigger] entries[i] matches DirEntry::Found { is_file, mode, dev, inode }
                    && is_file && mode & 73 != 0 && e.dev == exec_rules::kernel_dev(dev) && e.inode == inode);
            if i < front.len() {
                assert(front[i] == entries[i]);
            }
        }
        assert(exec_rules::no_hash() =~= Seq::new(32, |k: int| 0u8));
        match last {
            DirEntry::Found { is_file, mode, dev, inode } => {
                if is_file && mode & 73 != 0 {
                    let own = ExecRecordModel { dev: exec_rules::kernel_dev(dev), inode, hash: exec_rules::no_hash() };
                    assert(all == before.push(own));
                    assert(all.contains(e) <==> before.contains(e) || e == own) by {
                        if all.contains(e) {
                            let j = choose|j: int| 0 <= j < all.len() && all[j] == e;
                            if j < before.len() {
                                assert(before[j] == e);
                            }
                        }
                        if before.contains(e) {
                            let j = choose|j: int| 0 <= j < before.len() && before[j] == e;
                            assert(all[j] == e);
                        }
                        assert(all[before.len() as int] == own);
                    }
                }
            },
            _ => {},
        }
    } else {
        assert(!exec_rules::dir_records(path, entries)->Ok_0.contains(e));
    }
}

/// A file is allowed by its own device and inode, and a pinned one only with contents of the pinned
/// digest, which it then carries.
pub proof fn a_pinned_program_is_the_pinned_one(rule: BpfExecRuleModel, dev: u64, inode: u64, contents: Result<Vec<u8>, String>)
    ensures
        ({
            let got = exec_rules::rule_records(rule, ExecLookup::File { dev, inode, contents });
            &&& got matches Ok(v) ==> v.len() == 1 && v[0].dev == exec_rules::kernel_dev(dev) && v[0].inode == inode
                && v[0].hash == (match rule.hash {
                Some(pin) => pin,
                None => Seq::new(32, |k: int| 0u8),
            })
            &&& got is Ok <==> (rule.hash matches Some(pin) ==> (contents matches Ok(b) && exec_rules::sha256_digest(b@)
                == pin))
        }),
{
    assert(exec_rules::no_hash() =~= Seq::new(32, |k: int| 0u8));
}

} // verus!
