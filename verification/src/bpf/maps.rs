//! The bookkeeping of the kernel's maps: which sandboxes are registered, what their policies
//! hold, and what is written when.
//!
//! The maps themselves are written by the caller. An operation that needs them is cut at each
//! point where they are touched: a method decides what is to be written, the caller writes it,
//! and the next method is told how that went. The caller lets no other operation in between.
use std::collections::HashMap;

use vstd::prelude::*;

use crate::bpf::exec_rules;
use crate::bpf::exec_rules::ExecLookup;
use crate::bpf::exec_rules::ExecRecordModel;
use crate::bpf::holdings;
use crate::bpf::net_rules;
use crate::bpf::ranges;
use crate::bpf::ranges::RuleAllocator;
use crate::bpf::records;
use crate::bpf::records::ExecRecord;
use crate::bpf::records::NetKey;
use crate::bpf::records::SandboxCtx;
use crate::error::Error;
use crate::error::ErrorModel;
use crate::id::CgroupId;
use crate::laws::install;
use crate::number;
use crate::policy::compile;
use crate::policy::compile::BpfFsRule;
use crate::policy::compile::BpfPlan;
use crate::policy::compile::BpfPlanModel;
use crate::policy_ref::ExecIdentity;
use crate::text;
use crate::wire;

verus! {

broadcast use vstd::std_specs::hash::group_hash_axioms;

/// The most rules that one sandbox's range may span: how often the BPF hooks' loops are
/// unrolled.
pub const MAX_RULES_PER_SANDBOX: u32 = 64;

/// The capacity of the `fs_rules` map.
pub const FS_RULES_CAPACITY: u32 = 65536;

/// The capacity of the `exec_rules` map.
pub const EXEC_RULES_CAPACITY: u32 = 8192;

/// A map.
#[derive(Debug, Clone, Copy, PartialEq, Eq, Structural)]
pub enum MapName {
    Sandboxes,
    FsRules,
    ExecRules,
    NetRules,
}

/// An entry to be written.
#[derive(Debug)]
pub struct MapWrite {
    pub map: MapName,
    pub key: Vec<u8>,
    pub value: Vec<u8>,
}

#[verifier::ext_equal]
pub struct MapWriteModel {
    pub map: MapName,
    pub key: Seq<u8>,
    pub value: Seq<u8>,
}

impl View for MapWrite {
    type V = MapWriteModel;

    open spec fn view(&self) -> MapWriteModel {
        MapWriteModel { map: self.map, key: self.key@, value: self.value@ }
    }
}

/// An entry to be deleted.
#[derive(Debug)]
pub struct MapDelete {
    pub map: MapName,
    pub key: Vec<u8>,
}

#[verifier::ext_equal]
pub struct MapDeleteModel {
    pub map: MapName,
    pub key: Seq<u8>,
}

impl View for MapDelete {
    type V = MapDeleteModel;

    open spec fn view(&self) -> MapDeleteModel {
        MapDeleteModel { map: self.map, key: self.key@ }
    }
}

/// What must be remembered of a sandbox to take its policy down again.
#[derive(Debug)]
pub struct SandboxBpfState {
    pub fs_rules_base: u32,
    pub fs_rules_count: u32,
    pub exec_rules_base: u32,
    pub exec_rules_count: u32,
    pub net_keys: Vec<NetKey>,
}

#[verifier::ext_equal]
pub struct SandboxBpfModel {
    pub fs: (u32, u32),
    pub exec_range: (u32, u32),
    pub net_keys: Seq<NetKey>,
}

impl View for SandboxBpfState {
    type V = SandboxBpfModel;

    open spec fn view(&self) -> SandboxBpfModel {
        SandboxBpfModel {
            fs: (self.fs_rules_base, self.fs_rules_count),
            exec_range: (self.exec_rules_base, self.exec_rules_count),
            net_keys: self.net_keys@,
        }
    }
}

/// Where the device and inode numbers of an exec allowlist come from.
pub enum ExecSource<'a> {
    /// From what stands on the host under the plan's paths.
    HostPaths(&'a Vec<ExecLookup>),
    /// From inside the sandbox, in the kernel's own numbering.
    Resolved(&'a Vec<ExecIdentity>),
}

/// Userspace's record of the BPF maps.
pub struct BpfManager {
    pub registered: HashMap<u64, SandboxBpfState>,
    pub policy_gen: u32,
    pub fs_ranges: RuleAllocator,
    pub exec_ranges: RuleAllocator,
}

/// A policy that is being installed: the ranges that were taken for it and what is to be written
/// before the sandbox's context is pointed at them.
pub struct PolicyInstall {
    pub cgid: u64,
    pub fs_base: u32,
    pub fs_count: u32,
    pub exec_base: u32,
    pub exec_count: u32,
    pub net: Vec<(NetKey, u64)>,
    pub writes: Vec<MapWrite>,
}

/// Who holds which filesystem rules.
pub open spec fn fs_held(registered: Map<u64, SandboxBpfState>) -> Map<u64, (u32, u32)> {
    registered.map_values(|s: SandboxBpfState| s@.fs)
}

/// Who holds which exec rules.
pub open spec fn exec_held(registered: Map<u64, SandboxBpfState>) -> Map<u64, (u32, u32)> {
    registered.map_values(|s: SandboxBpfState| s@.exec_range)
}

/// A count as 32 bits hold it; one that they cannot hold is their greatest.
pub open spec fn clamped(n: nat) -> u32 {
    if n <= u32::MAX {
        n as u32
    } else {
        u32::MAX
    }
}

/// What too many rules are answered.
pub open spec fn count_refusal(what: Seq<char>, count: u32) -> Option<ErrorModel> {
    if count > MAX_RULES_PER_SANDBOX {
        Some(
            ErrorModel::PolicyInvalid(
                "policy has "@ + number::decimal(count as nat) + " "@ + what + " rules, over the "@ + number::decimal(
                    MAX_RULES_PER_SANDBOX as nat,
                )
                    + " a sandbox's range may span — the BPF hook's unrolled loop would never examine the rest, so the excess would be silently unenforced"@,
            ),
        )
    } else {
        None
    }
}

/// The exec records that a policy is installed with.
pub open spec fn exec_entries(plan: BpfPlanModel, source: ExecSource) -> Result<Seq<ExecRecordModel>, ErrorModel> {
    match source {
        ExecSource::HostPaths(seen) => exec_rules::all_records(plan.exec_rules, seen@),
        ExecSource::Resolved(ids) => Ok(
            Seq::new(
                ids@.len(),
                |i: int| ExecRecordModel { dev: ids@[i].dev, inode: ids@[i].inode, hash: exec_rules::no_hash() },
            ),
        ),
    }
}

/// The writes of filesystem rules from index `base` on.
pub open spec fn fs_writes(base: u32, rules: Seq<BpfFsRule>) -> Seq<MapWriteModel> {
    Seq::new(
        rules.len(),
        |i: int|
            MapWriteModel {
                map: MapName::FsRules,
                key: wire::u32_bytes((base + i) as u32),
                value: records::fs_rule_bytes(rules[i].path_hash, rules[i].access_mask),
            },
    )
}

/// The bytes of an exec record.
pub open spec fn exec_bytes(e: ExecRecordModel) -> Seq<u8> {
    wire::u64_bytes(e.dev) + wire::u64_bytes(e.inode) + e.hash
}

/// The writes of exec rules from index `base` on.
pub open spec fn exec_writes(base: u32, rules: Seq<ExecRecordModel>) -> Seq<MapWriteModel> {
    Seq::new(
        rules.len(),
        |i: int|
            MapWriteModel {
                map: MapName::ExecRules,
                key: wire::u32_bytes((base + i) as u32),
                value: exec_bytes(rules[i]),
            },
    )
}

/// The writes of network rules.
pub open spec fn net_writes(entries: Seq<(NetKey, u64)>) -> Seq<MapWriteModel> {
    Seq::new(
        entries.len(),
        |i: int|
            MapWriteModel {
                map: MapName::NetRules,
                key: records::net_key_bytes(entries[i].0),
                value: wire::u64_bytes(entries[i].1),
            },
    )
}

/// The deletes of an index range.
pub open spec fn range_deletes(map: MapName, range: (u32, u32)) -> Seq<MapDeleteModel> {
    Seq::new(range.1 as nat, |i: int| MapDeleteModel { map, key: wire::u32_bytes((range.0 + i) as u32) })
}

/// The deletes of network keys.
pub open spec fn key_deletes(keys: Seq<NetKey>) -> Seq<MapDeleteModel> {
    Seq::new(
        keys.len(),
        |i: int| MapDeleteModel { map: MapName::NetRules, key: records::net_key_bytes(keys[i]) },
    )
}

/// What a sandbox leaves in the maps: its rules first, its context last.
pub open spec fn all_deletes(was: SandboxBpfModel, cgid: u64) -> Seq<MapDeleteModel> {
    range_deletes(MapName::FsRules, was.fs) + range_deletes(MapName::ExecRules, was.exec_range) + key_deletes(
        was.net_keys,
    ) + seq![MapDeleteModel { map: MapName::Sandboxes, key: wire::u64_bytes(cgid) }]
}

/// The keys of network entries.
pub open spec fn keys_of(entries: Seq<(NetKey, u64)>) -> Seq<NetKey> {
    Seq::new(entries.len(), |i: int| entries[i].0)
}

/// The keys of `keys` that `kept` does not hold.
pub open spec fn keys_without(keys: Seq<NetKey>, kept: Seq<NetKey>) -> Seq<NetKey>
    decreases keys.len(),
{
    if keys.len() == 0 {
        keys
    } else {
        let before = keys_without(keys.drop_last(), kept);
        if kept.contains(keys.last()) {
            before
        } else {
            before.push(keys.last())
        }
    }
}

/// What a lookup of a sandbox's context gives.
pub open spec fn ctx_found(cgid: u64, found: Result<Option<Vec<u8>>, String>) -> Result<SandboxCtx, ErrorModel> {
    let id = number::decimal(cgid as nat);
    match found {
        Err(m) => Err(ErrorModel::LaunchFailed("lookup sandbox_ctx "@ + id + ": "@ + m@)),
        Ok(None) => Err(ErrorModel::PolicyInvalid("no sandbox_ctx for cgroup id "@ + id)),
        Ok(Some(raw)) => match records::ctx_in(raw@) {
            Some(c) => Ok(c),
            None => Err(
                ErrorModel::LaunchFailed(
                    "sandbox_ctx for cgroup "@ + id + " is "@ + number::decimal(raw@.len())
                        + " bytes, expected 48 — Rust/C struct mismatch"@,
                ),
            ),
        },
    }
}

/// The context of a sandbox for which a policy was installed: it keeps its flags, is enforced,
/// and points at the new rules.
pub open spec fn installed_ctx(existing: SandboxCtx, gen: u32, t: PolicyInstall) -> SandboxCtx {
    SandboxCtx {
        sandbox_seq: existing.sandbox_seq,
        flags: existing.flags | SandboxCtx::FLAG_ENFORCING,
        policy_gen: gen,
        fs_rules_base: t.fs_base,
        fs_rules_count: t.fs_count,
        exec_rules_base: t.exec_base,
        exec_rules_count: t.exec_count,
        net_rules_base: 0,
        net_rules_count: clamped(t.net@.len()),
        turn_id: existing.turn_id,
    }
}

/// The write of a sandbox's context.
pub open spec fn ctx_write(cgid: u64, c: SandboxCtx) -> MapWriteModel {
    MapWriteModel { map: MapName::Sandboxes, key: wire::u64_bytes(cgid), value: records::ctx_bytes(c) }
}

/// What the failure of the write at `k` is answered.
pub open spec fn write_failure(t: PolicyInstall, k: int, cause: Seq<char>) -> Seq<char> {
    if k < t.fs_count {
        "write fs_rules["@ + number::decimal((t.fs_base + k) as nat) + "]: "@ + cause
    } else if k < t.fs_count + t.exec_count {
        "write exec_rules["@ + number::decimal((t.exec_base + k - t.fs_count) as nat) + "]: "@ + cause
    } else {
        "write net_rules "@ + shown_key(t.net@[k - t.fs_count - t.exec_count].0) + ": "@ + cause
    }
}

/// A network key as messages show it.
pub open spec fn shown_key(k: NetKey) -> Seq<char> {
    "NetKey { prefixlen: "@ + number::decimal(k.prefixlen as nat) + ", cgid: "@ + number::decimal(k.cgid as nat)
        + ", addr: "@ + number::decimal(k.addr as nat) + " }"@
}

/// A network key as messages show it.
fn show_key(k: &NetKey) -> (r: String)
    ensures
        r@ == shown_key(*k),
{
    let mut out = text::cat5(
        "NetKey { prefixlen: ",
        number::format_u64(k.prefixlen as u64).as_str(),
        ", cgid: ",
        number::format_u64(k.cgid).as_str(),
        ", addr: ",
    );
    out.append(number::format_u64(k.addr as u64).as_str());
    out.append(" }");
    out
}

/// Refuses a rule count that a sandbox's range may not span.
pub fn check_rule_count(what: &str, count: u32) -> (r: Result<(), Error>)
    ensures
        r is Ok <==> count_refusal(what@, count) is None,
        r matches Err(e) ==> Some(e@) == count_refusal(what@, count),
{
    if count > MAX_RULES_PER_SANDBOX {
        let mut m = text::cat5(
            "policy has ",
            number::format_u64(count as u64).as_str(),
            " ",
            what,
            " rules, over the ",
        );
        m.append(number::format_u64(MAX_RULES_PER_SANDBOX as u64).as_str());
        m.append(
            " a sandbox's range may span — the BPF hook's unrolled loop would never examine the rest, so the excess would be silently unenforced",
        );
        return Err(Error::PolicyInvalid(m));
    }
    Ok(())
}

/// A length as 32 bits hold it.
fn clamp(n: usize) -> (r: u32)
    ensures
        r == clamped(n as nat),
{
    if n <= u32::MAX as usize {
        n as u32
    } else {
        u32::MAX
    }
}

/// The exec records that a policy is installed with.
fn exec_entries_of(plan: &BpfPlan, source: &ExecSource) -> (r: Result<Vec<ExecRecord>, Error>)
    requires
        source matches ExecSource::HostPaths(seen) ==> seen@.len() == plan.exec_rules@.len(),
    ensures
        exec_rules::records_are(r, exec_entries(plan@, *source)),
{
    match source {
        ExecSource::HostPaths(seen) => exec_rules::resolve_exec_rules(&plan.exec_rules, seen),
        ExecSource::Resolved(ids) => {
            let mut out: Vec<ExecRecord> = Vec::new();
            let mut i: usize = 0;
            let ghost all = exec_entries(plan@, *source)->Ok_0;
            while i < ids.len()
                invariant
                    i <= ids@.len(),
                    all == exec_entries(plan@, *source)->Ok_0,
                    *source == ExecSource::Resolved(ids),
                    compile::views(out@) == all.take(i as int),
                decreases ids@.len() - i,
            {
                let ghost done = compile::views(out@);
                let record = ExecRecord { dev: ids[i].dev, inode: ids[i].inode, hash: [0u8; 32] };
                proof {
                    assert(record.hash@ =~= exec_rules::no_hash());
                    assert(record@ == all[i as int]);
                }
                out.push(record);
                i = i + 1;
                proof {
                    assert(compile::views(out@) =~= done.push(all[i - 1]));
                    assert(all.take(i as int) =~= all.take(i - 1).push(all[i - 1]));
                }
            }
            proof {
                assert(all.take(i as int) =~= all);
            }
            Ok(out)
        },
    }
}

/// The writes of a policy: filesystem rules, exec rules, network rules.
fn writes_of(
    fs_base: u32,
    fs: &Vec<BpfFsRule>,
    exec_base: u32,
    records: &Vec<ExecRecord>,
    net: &Vec<(NetKey, u64)>,
) -> (r: Vec<MapWrite>)
    requires
        fs_base + fs@.len() <= u32::MAX,
        exec_base + records@.len() <= u32::MAX,
    ensures
        compile::views(r@) == fs_writes(fs_base, fs@) + exec_writes(exec_base, compile::views(records@)) + net_writes(
            net@,
        ),
{
    let ghost a = fs_writes(fs_base, fs@);
    let ghost b = exec_writes(exec_base, compile::views(records@));
    let ghost c = net_writes(net@);
    let mut out: Vec<MapWrite> = Vec::new();
    let mut i: usize = 0;
    while i < fs.len()
        invariant
            i <= fs@.len(),
            fs_base + fs@.len() <= u32::MAX,
            a == fs_writes(fs_base, fs@),
            compile::views(out@) == a.take(i as int),
        decreases fs@.len() - i,
    {
        let ghost done = compile::views(out@);
        let mut key: Vec<u8> = Vec::new();
        wire::push_u32(&mut key, fs_base + i as u32);
        let w = MapWrite {
            map: MapName::FsRules,
            key,
            value: records::encode_fs_rule(fs[i].path_hash, fs[i].access_mask),
        };
        proof {
            assert(w@ =~= a[i as int]);
        }
        out.push(w);
        i = i + 1;
        proof {
            assert(compile::views(out@) =~= done.push(a[i - 1]));
            assert(a.take(i as int) =~= a.take(i - 1).push(a[i - 1]));
        }
    }
    proof {
        assert(compile::views(out@) =~= a + b.take(0));
    }
    let mut j: usize = 0;
    while j < records.len()
        invariant
            j <= records@.len(),
            exec_base + records@.len() <= u32::MAX,
            b == exec_writes(exec_base, compile::views(records@)),
            compile::views(out@) == a + b.take(j as int),
        decreases records@.len() - j,
    {
        let ghost done = compile::views(out@);
        let mut key: Vec<u8> = Vec::new();
        wire::push_u32(&mut key, exec_base + j as u32);
        let w = MapWrite { map: MapName::ExecRules, key, value: records[j].to_bytes() };
        proof {
            assert(compile::views(records@)[j as int] == records@[j as int]@);
            assert(w@ =~= b[j as int]);
        }
        out.push(w);
        j = j + 1;
        proof {
            assert(compile::views(out@) =~= done.push(b[j - 1]));
            assert(compile::views(out@) =~= a + b.take(j as int));
        }
    }
    proof {
        assert(b.take(j as int) =~= b);
        assert(compile::views(out@) =~= a + b + c.take(0));
    }
    let mut k: usize = 0;
    while k < net.len()
        invariant
            k <= net@.len(),
            c == net_writes(net@),
            compile::views(out@) == a + b + c.take(k as int),
        decreases net@.len() - k,
    {
        let ghost done = compile::views(out@);
        let mut value: Vec<u8> = Vec::new();
        wire::push_u64(&mut value, net[k].1);
        let w = MapWrite { map: MapName::NetRules, key: net[k].0.to_bytes(), value };
        proof {
            assert(w@ =~= c[k as int]);
        }
        out.push(w);
        k = k + 1;
        proof {
            assert(compile::views(out@) =~= done.push(c[k - 1]));
            assert(compile::views(out@) =~= a + b + c.take(k as int));
        }
    }
    proof {
        assert(c.take(k as int) =~= c);
    }
    out
}

/// Appends the deletes of an index range.
fn push_range(out: &mut Vec<MapDelete>, map: MapName, base: u32, count: u32)
    requires
        base + count <= u32::MAX,
    ensures
        compile::views(final(out)@) == compile::views(old(out)@) + range_deletes(map, (base, count)),
{
    let ghost before = compile::views(out@);
    let ghost all = range_deletes(map, (base, count));
    let mut i: u32 = 0;
    proof {
        assert(compile::views(out@) =~= before + all.take(0));
    }
    while i < count
        invariant
            i <= count,
            base + count <= u32::MAX,
            all == range_deletes(map, (base, count)),
            compile::views(out@) == before + all.take(i as int),
        decreases count - i,
    {
        let ghost done = compile::views(out@);
        let mut key: Vec<u8> = Vec::new();
        wire::push_u32(&mut key, base + i);
        let d = MapDelete { map, key };
        proof {
            assert(d@ =~= all[i as int]);
        }
        out.push(d);
        i = i + 1;
        proof {
            assert(compile::views(out@) =~= done.push(all[i - 1]));
            assert(compile::views(out@) =~= before + all.take(i as int));
        }
    }
    proof {
        assert(all.take(i as int) =~= all);
    }
}

/// Appends the deletes of network keys.
fn push_keys(out: &mut Vec<MapDelete>, keys: &Vec<NetKey>)
    ensures
        compile::views(final(out)@) == compile::views(old(out)@) + key_deletes(keys@),
{
    let ghost before = compile::views(out@);
    let ghost all = key_deletes(keys@);
    let mut i: usize = 0;
    proof {
        assert(compile::views(out@) =~= before + all.take(0));
    }
    while i < keys.len()
        invariant
            i <= keys@.len(),
            all == key_deletes(keys@),
            compile::views(out@) == before + all.take(i as int),
        decreases keys@.len() - i,
    {
        let ghost done = compile::views(out@);
        let d = MapDelete { map: MapName::NetRules, key: keys[i].to_bytes() };
        proof {
            assert(d@ =~= all[i as int]);
        }
        out.push(d);
        i = i + 1;
        proof {
            assert(compile::views(out@) =~= done.push(all[i - 1]));
            assert(compile::views(out@) =~= before + all.take(i as int));
        }
    }
    proof {
        assert(all.take(i as int) =~= all);
    }
}

/// The keys of network entries.
fn net_keys(net: &Vec<(NetKey, u64)>) -> (r: Vec<NetKey>)
    ensures
        r@ == keys_of(net@),
{
    let mut out: Vec<NetKey> = Vec::new();
    let mut i: usize = 0;
    while i < net.len()
        invariant
            i <= net@.len(),
            out@ == keys_of(net@).take(i as int),
        decreases net@.len() - i,
    {
        out.push(net[i].0);
        i = i + 1;
        proof {
            let all = keys_of(net@);
            assert(all.take(i as int) =~= all.take(i - 1).push(all[i - 1]));
        }
    }
    proof {
        assert(out@ =~= keys_of(net@));
    }
    out
}

/// The keys of `keys` that `kept` does not hold.
fn stale_keys(keys: &Vec<NetKey>, kept: &Vec<NetKey>) -> (r: Vec<NetKey>)
    ensures
        r@ == keys_without(keys@, kept@),
{
    let mut out: Vec<NetKey> = Vec::new();
    let mut i: usize = 0;
    proof {
        assert(out@ =~= keys@.take(0));
    }
    while i < keys.len()
        invariant
            i <= keys@.len(),
            out@ == keys_without(keys@.take(i as int), kept@),
        decreases keys@.len() - i,
    {
        proof {
            assert(keys@.take(i + 1).drop_last() =~= keys@.take(i as int));
        }
        let key = keys[i];
        let mut found = false;
        let mut j: usize = 0;
        while j < kept.len() && !found
            invariant
                j <= kept@.len(),
                found ==> kept@.contains(key),
                !found ==> forall|x: int| 0 <= x < j ==> kept@[x] != key,
            decreases kept@.len() - j, (if found {
                0int
            } else {
                1int
            }),
        {
            if kept[j] == key {
                proof {
                    assert(kept@[j as int] == key);
                }
                found = true;
            } else {
                j = j + 1;
            }
        }
        if !found {
            out.push(key);
        }
        i = i + 1;
    }
    proof {
        assert(keys@.take(i as int) =~= keys@);
    }
    out
}

/// The key of a sandbox's context.
fn ctx_key(cgid: u64) -> (r: Vec<u8>)
    ensures
        r@ == wire::u64_bytes(cgid),
{
    let mut key: Vec<u8> = Vec::new();
    wire::push_u64(&mut key, cgid);
    proof {
        assert(key@ =~= wire::u64_bytes(cgid));
    }
    key
}

impl PolicyInstall {
    /// Whether the install is one of a manager: the ranges are spare there, its sandbox is
    /// registered, and there is one write for each rule.
    pub open spec fn pending(&self, m: &BpfManager) -> bool {
        &&& m.registered@.dom().contains(self.cgid)
        &&& holdings::spare(
            m.fs_ranges.free@,
            FS_RULES_CAPACITY as int,
            fs_held(m.registered@),
            (self.fs_base, self.fs_count),
        )
        &&& holdings::spare(
            m.exec_ranges.free@,
            EXEC_RULES_CAPACITY as int,
            exec_held(m.registered@),
            (self.exec_base, self.exec_count),
        )
        &&& self.writes@.len() == self.fs_count + self.exec_count + self.net@.len()
    }
}

impl BpfManager {
    /// Whether the record is consistent: in each rule map no index is held twice, or both held
    /// and free.
    pub open spec fn wf(&self) -> bool {
        &&& holdings::sound(self.fs_ranges.free@, FS_RULES_CAPACITY as int, fs_held(self.registered@))
        &&& holdings::sound(self.exec_ranges.free@, EXEC_RULES_CAPACITY as int, exec_held(self.registered@))
    }

    /// Whether nothing but the free ranges differs between two records.
    pub open spec fn same_but_ranges(&self, other: &BpfManager) -> bool {
        &&& self.registered@ == other.registered@
        &&& self.policy_gen == other.policy_gen
        &&& self.fs_ranges.what == other.fs_ranges.what
        &&& self.exec_ranges.what == other.exec_ranges.what
    }

    /// Whether two records are the same.
    pub open spec fn same(&self, other: &BpfManager) -> bool {
        &&& self.same_but_ranges(other)
        &&& self.fs_ranges.free@ == other.fs_ranges.free@
        &&& self.exec_ranges.free@ == other.exec_ranges.free@
    }

    /// A record of no sandboxes, with all of both rule maps free.
    pub fn new() -> (r: Self)
        ensures
            r.wf(),
            r.registered@ == Map::<u64, SandboxBpfState>::empty(),
            r.policy_gen == 0,
            r.fs_ranges.what@ == "fs_rules"@,
            r.fs_ranges.free@ == seq![(0u32, FS_RULES_CAPACITY)],
            r.exec_ranges.what@ == "exec_rules"@,
            r.exec_ranges.free@ == seq![(0u32, EXEC_RULES_CAPACITY)],
    {
        BpfManager {
            registered: HashMap::new(),
            policy_gen: 0,
            fs_ranges: RuleAllocator::new("fs_rules", FS_RULES_CAPACITY),
            exec_ranges: RuleAllocator::new("exec_rules", EXEC_RULES_CAPACITY),
        }
    }

    /// What registers a sandbox: the write of a context without rules and without enforcement. A
    /// sandbox that is registered already is refused.
    pub fn register_sandbox(&self, cgid: CgroupId) -> (r: Result<MapWrite, Error>)
        ensures
            r is Err <==> self.registered@.dom().contains(cgid.0),
            r matches Ok(w) ==> w@ == ctx_write(
                cgid.0,
                (SandboxCtx {
                    sandbox_seq: 0,
                    flags: 0,
                    policy_gen: 0,
                    fs_rules_base: 0,
                    fs_rules_count: 0,
                    exec_rules_base: 0,
                    exec_rules_count: 0,
                    net_rules_base: 0,
                    net_rules_count: 0,
                    turn_id: 0,
                }),
            ),
            r matches Ok(w) ==> install::puts_context(
                w@,
                cgid.0,
                (SandboxCtx {
                    sandbox_seq: 0,
                    flags: 0,
                    policy_gen: 0,
                    fs_rules_base: 0,
                    fs_rules_count: 0,
                    exec_rules_base: 0,
                    exec_rules_count: 0,
                    net_rules_base: 0,
                    net_rules_count: 0,
                    turn_id: 0,
                }),
            ),
            r matches Err(e) ==> e@ == ErrorModel::PolicyInvalid(
                "cgroup id "@ + number::decimal(cgid.0 as nat) + " is already registered in the BPF sandbox map"@,
            ),
    {
        if self.registered.contains_key(&cgid.0) {
            return Err(
                Error::PolicyInvalid(
                    text::cat3(
                        "cgroup id ",
                        number::format_u64(cgid.0).as_str(),
                        " is already registered in the BPF sandbox map",
                    ),
                ),
            );
        }
        let ctx = SandboxCtx::registered_for_setup();
        proof {
            install::contexts_are_read(cgid.0, ctx);
        }
        Ok(MapWrite { map: MapName::Sandboxes, key: ctx_key(cgid.0), value: ctx.to_bytes() })
    }

    /// Records a sandbox whose context was written, or reports that it could not be.
    pub fn finish_register(&mut self, cgid: CgroupId, wrote: Result<(), String>) -> (r: Result<(), Error>)
        requires
            old(self).wf(),
            !old(self).registered@.dom().contains(cgid.0),
        ensures
            final(self).wf(),
            r is Ok <==> wrote is Ok,
            wrote is Err ==> final(self).same(old(self)),
            wrote is Ok ==> final(self).registered@.dom() == old(self).registered@.dom().insert(cgid.0),
            wrote is Ok ==> final(self).registered@.remove(cgid.0) == old(self).registered@,
            wrote is Ok ==> final(self).registered@[cgid.0]@ == (SandboxBpfModel {
                fs: (0u32, 0u32),
                exec_range: (0u32, 0u32),
                net_keys: Seq::empty(),
            }),
            final(self).policy_gen == old(self).policy_gen,
            final(self).fs_ranges == old(self).fs_ranges,
            final(self).exec_ranges == old(self).exec_ranges,
            r matches Err(e) ==> e@ == ErrorModel::LaunchFailed(
                "register cgroup "@ + number::decimal(cgid.0 as nat) + " in BPF sandboxes map: "@ + wrote->Err_0@,
            ),
    {
        if let Err(m) = wrote {
            let mut text = text::cat3(
                "register cgroup ",
                number::format_u64(cgid.0).as_str(),
                " in BPF sandboxes map: ",
            );
            text.append(m.as_str());
            return Err(Error::LaunchFailed(text));
        }
        let ghost before = self.registered@;
        let state = SandboxBpfState {
            fs_rules_base: 0,
            fs_rules_count: 0,
            exec_rules_base: 0,
            exec_rules_count: 0,
            net_keys: Vec::new(),
        };
        proof {
            assert(state@.net_keys =~= Seq::<NetKey>::empty());
        }
        let ghost kept = state;
        self.registered.insert(cgid.0, state);
        proof {
            holdings::joining_keeps_sound(
                self.fs_ranges.free@,
                FS_RULES_CAPACITY as int,
                fs_held(before),
                cgid.0,
            );
            holdings::joining_keeps_sound(
                self.exec_ranges.free@,
                EXEC_RULES_CAPACITY as int,
                exec_held(before),
                cgid.0,
            );
            assert(self.registered@ == before.insert(cgid.0, kept));
            assert(fs_held(self.registered@) =~= fs_held(before).insert(cgid.0, (0u32, 0u32)));
            assert(exec_held(self.registered@) =~= exec_held(before).insert(cgid.0, (0u32, 0u32)));
            assert(self.registered@.remove(cgid.0) =~= before);
        }
        Ok(())
    }

    /// The context in what a lookup found.
    pub fn read_ctx(cgid: CgroupId, found: &Result<Option<Vec<u8>>, String>) -> (r: Result<SandboxCtx, Error>)
        ensures
            match (r, ctx_found(cgid.0, *found)) {
                (Ok(c), Ok(want)) => c == want,
                (Err(e), Err(want)) => e@ == want,
                _ => false,
            },
    {
        let id = number::format_u64(cgid.0);
        match found {
            Err(m) => {
                let mut text = text::cat3("lookup sandbox_ctx ", id.as_str(), ": ");
                text.append(m.as_str());
                Err(Error::LaunchFailed(text))
            },
            Ok(None) => {
                let mut text = "no sandbox_ctx for cgroup id ".to_owned();
                text.append(id.as_str());
                Err(Error::PolicyInvalid(text))
            },
            Ok(Some(raw)) => match SandboxCtx::from_bytes(raw.as_slice()) {
                Some(c) => Ok(c),
                None => Err(
                    Error::LaunchFailed(
                        text::cat5(
                            "sandbox_ctx for cgroup ",
                            id.as_str(),
                            " is ",
                            number::format_u64(raw.len() as u64).as_str(),
                            " bytes, expected 48 — Rust/C struct mismatch",
                        ),
                    ),
                ),
            },
        }
    }

    /// Whether the kernel has flagged a change of state this turn. A context that cannot be read
    /// is an error, not a clean turn.
    pub fn is_turn_dirty(cgid: &CgroupId, found: &Result<Option<Vec<u8>>, String>) -> (r: Result<bool, Error>)
        ensures
            match (r, ctx_found(cgid.0, *found)) {
                (Ok(dirty), Ok(c)) => dirty == (c.flags & SandboxCtx::FLAG_DIRTY != 0) && dirty == (c.flags & 2 != 0),
                (Err(e), Err(want)) => e@ == want,
                _ => false,
            },
    {
        match Self::read_ctx(*cgid, found) {
            Ok(c) => Ok(c.flags & SandboxCtx::FLAG_DIRTY != 0),
            Err(e) => Err(e),
        }
    }

    /// What returns a registered sandbox to its setup: the write of its context with enforcement
    /// switched off. The caller makes sure that nothing runs in it.
    pub fn begin_setup(&self, cgid: CgroupId, found: &Result<Option<Vec<u8>>, String>) -> (r: Result<MapWrite, Error>)
        ensures
            !self.registered@.dom().contains(cgid.0) ==> (r matches Err(e) && e@ == ErrorModel::PolicyInvalid(
                "cgroup id "@ + number::decimal(cgid.0 as nat) + " is not registered"@,
            )),
            self.registered@.dom().contains(cgid.0) ==> match (r, ctx_found(cgid.0, *found)) {
                (Ok(w), Ok(c)) => w@ == ctx_write(
                    cgid.0,
                    (SandboxCtx { flags: c.flags & !SandboxCtx::FLAG_ENFORCING, ..c }),
                ) && install::puts_context(w@, cgid.0, (SandboxCtx { flags: c.flags & !1u32, ..c })),
                (Err(e), Err(want)) => e@ == want,
                _ => false,
            },
    {
        if !self.registered.contains_key(&cgid.0) {
            return Err(
                Error::PolicyInvalid(
                    text::cat3("cgroup id ", number::format_u64(cgid.0).as_str(), " is not registered"),
                ),
            );
        }
        match Self::read_ctx(cgid, found) {
            Err(e) => Err(e),
            Ok(c) => {
                let ctx = SandboxCtx {
                    sandbox_seq: c.sandbox_seq,
                    flags: c.flags & !SandboxCtx::FLAG_ENFORCING,
                    policy_gen: c.policy_gen,
                    fs_rules_base: c.fs_rules_base,
                    fs_rules_count: c.fs_rules_count,
                    exec_rules_base: c.exec_rules_base,
                    exec_rules_count: c.exec_rules_count,
                    net_rules_base: c.net_rules_base,
                    net_rules_count: c.net_rules_count,
                    turn_id: c.turn_id,
                };
                proof {
                    install::contexts_are_read(cgid.0, ctx);
                }
                Ok(MapWrite { map: MapName::Sandboxes, key: ctx_key(cgid.0), value: ctx.to_bytes() })
            },
        }
    }

    /// What a setup whose write failed is answered.
    pub fn setup_failed(cgid: CgroupId, cause: &str) -> (r: Error)
        ensures
            r@ == ErrorModel::LaunchFailed(
                "reset "@ + number::decimal(cgid.0 as nat) + " to setup state: "@ + cause@,
            ),
    {
        let mut text = text::cat3("reset ", number::format_u64(cgid.0).as_str(), " to setup state: ");
        text.append(cause);
        Error::LaunchFailed(text)
    }

    /// What an update that cannot be begun is answered; nothing where it can.
    pub open spec fn update_refusal(&self, cgid: CgroupId, plan: BpfPlanModel, source: ExecSource) -> Option<
        ErrorModel,
    > {
        let fs_count = clamped(plan.fs_rules.len());
        let entries = exec_entries(plan, source);
        if count_refusal("filesystem"@, fs_count) is Some {
            count_refusal("filesystem"@, fs_count)
        } else if entries is Err {
            Some(entries->Err_0)
        } else {
            let exec_count = clamped(entries->Ok_0.len());
            if count_refusal("exec"@, exec_count) is Some {
                count_refusal("exec"@, exec_count)
            } else if net_rules::rules_refusal(plan.net_rules) is Some {
                net_rules::rules_refusal(plan.net_rules)
            } else if !self.registered@.dom().contains(cgid.0) {
                Some(
                    ErrorModel::PolicyInvalid(
                        "cgroup id "@ + number::decimal(cgid.0 as nat)
                            + " is not registered — register_sandbox must run first"@,
                    ),
                )
            } else if fs_count > 0 && ranges::first_fit(self.fs_ranges.free@, fs_count) >= self.fs_ranges.free@.len() {
                Some(ErrorModel::PolicyInvalid(self.fs_ranges.no_room(fs_count)))
            } else if exec_count > 0 && ranges::first_fit(self.exec_ranges.free@, exec_count)
                >= self.exec_ranges.free@.len() {
                Some(ErrorModel::PolicyInvalid(self.exec_ranges.no_room(exec_count)))
            } else {
                None
            }
        }
    }

    /// Begins to install a policy for a registered sandbox: validates all of it, takes ranges
    /// that no context points at, and says what is to be written into them. An update that
    /// cannot be begun changes nothing.
    pub fn update_policy(&mut self, cgid: CgroupId, plan: &BpfPlan, source: &ExecSource) -> (r: Result<
        PolicyInstall,
        Error,
    >)
        requires
            old(self).wf(),
            source matches ExecSource::HostPaths(seen) ==> seen@.len() == plan.exec_rules@.len(),
        ensures
            final(self).wf(),
            final(self).same_but_ranges(old(self)),
            r is Err <==> old(self).update_refusal(cgid, plan@, *source) is Some,
            r matches Err(e) ==> Some(e@) == old(self).update_refusal(cgid, plan@, *source) && final(self).same(
                old(self),
            ),
            r matches Ok(t) ==> ({
                let entries = exec_entries(plan@, *source)->Ok_0;
                &&& t.pending(final(self))
                &&& t.cgid == cgid.0
                &&& t.fs_count == plan@.fs_rules.len()
                &&& t.exec_count == entries.len()
                &&& holdings::taken(old(self).fs_ranges.free@, final(self).fs_ranges.free@, (t.fs_base, t.fs_count))
                &&& holdings::taken(
                    old(self).exec_ranges.free@,
                    final(self).exec_ranges.free@,
                    (t.exec_base, t.exec_count),
                )
                &&& t.net@.len() == plan@.net_rules.len()
                &&& forall|i: int|
                    0 <= i < t.net@.len() ==> net_rules::entry_is(#[trigger] t.net@[i], cgid.0, plan@.net_rules[i])
                &&& compile::views(t.writes@) == fs_writes(t.fs_base, plan@.fs_rules) + exec_writes(
                    t.exec_base,
                    entries,
                ) + net_writes(t.net@)
                &&& install::puts_policy(
                    compile::views(t.writes@),
                    cgid.0,
                    t.fs_base as int,
                    plan@.fs_rules,
                    t.exec_base as int,
                    entries,
                    plan@.net_rules,
                )
            }),
    {
        let fs_count: u32 = clamp(plan.fs_rules.len());
        if let Err(e) = check_rule_count("filesystem", fs_count) {
            return Err(e);
        }
        let records = match exec_entries_of(plan, source) {
            Ok(v) => v,
            Err(e) => {
                return Err(e);
            },
        };
        let exec_count: u32 = clamp(records.len());
        if let Err(e) = check_rule_count("exec", exec_count) {
            return Err(e);
        }
        let net = match net_rules::resolve_net_rules(cgid, &plan.net_rules) {
            Ok(v) => v,
            Err(e) => {
                return Err(e);
            },
        };
        if !self.registered.contains_key(&cgid.0) {
            return Err(
                Error::PolicyInvalid(
                    text::cat3(
                        "cgroup id ",
                        number::format_u64(cgid.0).as_str(),
                        " is not registered — register_sandbox must run first",
                    ),
                ),
            );
        }
        let ghost fs_free = self.fs_ranges.free@;
        let ghost exec_free = self.exec_ranges.free@;
        let ghost held = fs_held(self.registered@);
        let fs_base: u32 = match self.fs_ranges.allocate(fs_count) {
            Ok(b) => b,
            Err(e) => {
                return Err(e);
            },
        };
        proof {
            assert(holdings::taken(fs_free, self.fs_ranges.free@, (fs_base, fs_count)));
            holdings::taking_keeps_sound(
                fs_free,
                self.fs_ranges.free@,
                FS_RULES_CAPACITY as int,
                held,
                (fs_base, fs_count),
            );
        }
        let exec_base: u32 = match self.exec_ranges.allocate(exec_count) {
            Ok(b) => b,
            Err(e) => {
                let ghost middle = self.fs_ranges.free@;
                proof {
                    assert forall|x: int| fs_base <= x < fs_base + fs_count implies !ranges::covers(middle, x) by {
                        assert(holdings::inside((fs_base, fs_count), x));
                    }
                }
                self.fs_ranges.release(fs_base, fs_count);
                proof {
                    holdings::giving_back_undoes_taking(
                        fs_free,
                        middle,
                        self.fs_ranges.free@,
                        (fs_base, fs_count),
                    );
                }
                return Err(e);
            },
        };
        proof {
            assert(holdings::taken(exec_free, self.exec_ranges.free@, (exec_base, exec_count)));
            holdings::taking_keeps_sound(
                exec_free,
                self.exec_ranges.free@,
                EXEC_RULES_CAPACITY as int,
                exec_held(self.registered@),
                (exec_base, exec_count),
            );
        }
        let writes = writes_of(fs_base, &plan.fs_rules, exec_base, &records, &net);
        proof {
            assert(compile::views(writes@).len() == writes@.len());
            install::a_policy_is_read(
                cgid.0,
                fs_base,
                plan@.fs_rules,
                exec_base,
                compile::views(records@),
                net@,
                plan@.net_rules,
            );
        }
        Ok(PolicyInstall { cgid: cgid.0, fs_base, fs_count, exec_base, exec_count, net, writes })
    }

    /// Gives up an install whose write at `failed` did not come about: what was written is to be
    /// deleted, and the ranges are free again, as they were before the install was begun.
    pub fn abort_update(&mut self, t: PolicyInstall, failed: usize, cause: &str) -> (r: (Vec<MapDelete>, Error))
        requires
            old(self).wf(),
            t.pending(old(self)),
            failed < t.writes@.len(),
        ensures
            final(self).wf(),
            final(self).same_but_ranges(old(self)),
            holdings::given_back(old(self).fs_ranges.free@, final(self).fs_ranges.free@, (t.fs_base, t.fs_count)),
            holdings::given_back(
                old(self).exec_ranges.free@,
                final(self).exec_ranges.free@,
                (t.exec_base, t.exec_count),
            ),
            compile::views(r.0@) == key_deletes(keys_of(t.net@)) + range_deletes(
                MapName::FsRules,
                (t.fs_base, t.fs_count),
            ) + range_deletes(MapName::ExecRules, (t.exec_base, t.exec_count)),
            install::removes_rules(
                compile::views(r.0@),
                (t.fs_base, t.fs_count),
                (t.exec_base, t.exec_count),
                |k: NetKey| install::is_key_of(t.net@, k),
            ),
            r.1@ == ErrorModel::LaunchFailed(write_failure(t, failed as int, cause@)),
    {
        let fs_count: usize = t.fs_count as usize;
        let exec_count: usize = t.exec_count as usize;
        let mut text = if failed < fs_count {
            text::cat3(
                "write fs_rules[",
                number::format_u64(t.fs_base as u64 + failed as u64).as_str(),
                "]: ",
            )
        } else if failed - fs_count < exec_count {
            text::cat3(
                "write exec_rules[",
                number::format_u64(t.exec_base as u64 + (failed - fs_count) as u64).as_str(),
                "]: ",
            )
        } else {
            text::cat3("write net_rules ", show_key(&t.net[failed - fs_count - exec_count].0).as_str(), ": ")
        };
        text.append(cause);
        let mut out: Vec<MapDelete> = Vec::new();
        let keys = net_keys(&t.net);
        push_keys(&mut out, &keys);
        push_range(&mut out, MapName::FsRules, t.fs_base, t.fs_count);
        push_range(&mut out, MapName::ExecRules, t.exec_base, t.exec_count);
        proof {
            assert(compile::views(out@) =~= key_deletes(keys_of(t.net@)) + range_deletes(
                MapName::FsRules,
                (t.fs_base, t.fs_count),
            ) + range_deletes(MapName::ExecRules, (t.exec_base, t.exec_count)));
            let gone = |k: NetKey| install::is_key_of(t.net@, k);
            assert forall|k: NetKey| #[trigger] gone(k) <==> keys_of(t.net@).contains(k) by {
                install::keys_stand_in_entries(t.net@, k);
            }
            install::rules_are_removed(
                compile::views(out@),
                (t.fs_base, t.fs_count),
                (t.exec_base, t.exec_count),
                keys_of(t.net@),
                gone,
            );
        }
        self.give_back(t.fs_base, t.fs_count, t.exec_base, t.exec_count);
        (out, Error::LaunchFailed(text))
    }

    /// Gives spare ranges back.
    fn give_back(&mut self, fs_base: u32, fs_count: u32, exec_base: u32, exec_count: u32)
        requires
            old(self).wf(),
            holdings::spare(
                old(self).fs_ranges.free@,
                FS_RULES_CAPACITY as int,
                fs_held(old(self).registered@),
                (fs_base, fs_count),
            ),
            holdings::spare(
                old(self).exec_ranges.free@,
                EXEC_RULES_CAPACITY as int,
                exec_held(old(self).registered@),
                (exec_base, exec_count),
            ),
        ensures
            final(self).wf(),
            final(self).same_but_ranges(old(self)),
            holdings::given_back(old(self).fs_ranges.free@, final(self).fs_ranges.free@, (fs_base, fs_count)),
            holdings::given_back(
                old(self).exec_ranges.free@,
                final(self).exec_ranges.free@,
                (exec_base, exec_count),
            ),
    {
        let ghost fs_free = self.fs_ranges.free@;
        let ghost exec_free = self.exec_ranges.free@;
        proof {
            assert forall|x: int| fs_base <= x < fs_base + fs_count implies !ranges::covers(fs_free, x) by {
                assert(holdings::inside((fs_base, fs_count), x));
            }
            assert forall|x: int| exec_base <= x < exec_base + exec_count implies !ranges::covers(exec_free, x) by {
                assert(holdings::inside((exec_base, exec_count), x));
            }
        }
        self.fs_ranges.release(fs_base, fs_count);
        self.exec_ranges.release(exec_base, exec_count);
        proof {
            holdings::giving_back_keeps_sound(
                fs_free,
                self.fs_ranges.free@,
                FS_RULES_CAPACITY as int,
                fs_held(self.registered@),
                (fs_base, fs_count),
            );
            holdings::giving_back_keeps_sound(
                exec_free,
                self.exec_ranges.free@,
                EXEC_RULES_CAPACITY as int,
                exec_held(self.registered@),
                (exec_base, exec_count),
            );
        }
    }

    /// Goes on with an install whose rules were all written: counts a generation, and says what
    /// context is to be written. The context keeps its flags, with enforcement on.
    pub fn commit_update(&mut self, t: &PolicyInstall, found: &Result<Option<Vec<u8>>, String>) -> (r: Result<
        MapWrite,
        Error,
    >)
        ensures
            final(self).registered@ == old(self).registered@,
            final(self).fs_ranges == old(self).fs_ranges,
            final(self).exec_ranges == old(self).exec_ranges,
            final(self).policy_gen == (if old(self).policy_gen == u32::MAX {
                0
            } else {
                (old(self).policy_gen + 1) as u32
            }),
            match (r, ctx_found(t.cgid, *found)) {
                (Ok(w), Ok(c)) => w@ == ctx_write(t.cgid, installed_ctx(c, final(self).policy_gen, *t))
                    && install::puts_context(
                    w@,
                    t.cgid,
                    (SandboxCtx {
                        flags: c.flags | 1u32,
                        policy_gen: final(self).policy_gen,
                        fs_rules_base: t.fs_base,
                        fs_rules_count: t.fs_count,
                        exec_rules_base: t.exec_base,
                        exec_rules_count: t.exec_count,
                        net_rules_base: 0,
                        net_rules_count: if t.net@.len() <= 0xffff_ffff {
                            t.net@.len() as u32
                        } else {
                            0xffff_ffff
                        },
                        ..c
                    }),
                ),
                (Err(e), Err(want)) => e@ == want,
                _ => false,
            },
    {
        self.policy_gen = self.policy_gen.wrapping_add(1);
        match Self::read_ctx(CgroupId(t.cgid), found) {
            Err(e) => Err(e),
            Ok(c) => {
                let ctx = SandboxCtx {
                    sandbox_seq: c.sandbox_seq,
                    flags: c.flags | SandboxCtx::FLAG_ENFORCING,
                    policy_gen: self.policy_gen,
                    fs_rules_base: t.fs_base,
                    fs_rules_count: t.fs_count,
                    exec_rules_base: t.exec_base,
                    exec_rules_count: t.exec_count,
                    net_rules_base: 0,
                    net_rules_count: clamp(t.net.len()),
                    turn_id: c.turn_id,
                };
                proof {
                    install::contexts_are_read(t.cgid, ctx);
                }
                Ok(MapWrite { map: MapName::Sandboxes, key: ctx_key(t.cgid), value: ctx.to_bytes() })
            },
        }
    }

    /// What an install whose context could not be written is answered.
    pub fn swap_failed(cgid: CgroupId, cause: &str) -> (r: Error)
        ensures
            r@ == ErrorModel::LaunchFailed(
                "swap sandbox_ctx for "@ + number::decimal(cgid.0 as nat) + ": "@ + cause@,
            ),
    {
        let mut text = text::cat3("swap sandbox_ctx for ", number::format_u64(cgid.0).as_str(), ": ");
        text.append(cause);
        Error::LaunchFailed(text)
    }

    /// Ends an install whose context was written: the sandbox holds the new ranges, and what it
    /// held before is free and to be deleted. Network keys that the new policy has too stay.
    pub fn finish_update(&mut self, t: PolicyInstall) -> (r: Vec<MapDelete>)
        requires
            old(self).wf(),
            t.pending(old(self)),
        ensures
            final(self).wf(),
            final(self).policy_gen == old(self).policy_gen,
            final(self).registered@.dom() == old(self).registered@.dom(),
            forall|k: u64|
                k != t.cgid && old(self).registered@.dom().contains(k) ==> #[trigger] final(self).registered@[k]
                    == old(self).registered@[k],
            final(self).registered@[t.cgid]@ == (SandboxBpfModel {
                fs: (t.fs_base, t.fs_count),
                exec_range: (t.exec_base, t.exec_count),
                net_keys: keys_of(t.net@),
            }),
            holdings::given_back(
                old(self).fs_ranges.free@,
                final(self).fs_ranges.free@,
                old(self).registered@[t.cgid]@.fs,
            ),
            holdings::given_back(
                old(self).exec_ranges.free@,
                final(self).exec_ranges.free@,
                old(self).registered@[t.cgid]@.exec_range,
            ),
            ({
                let was = old(self).registered@[t.cgid]@;
                compile::views(r@) == range_deletes(MapName::FsRules, was.fs) + range_deletes(
                    MapName::ExecRules,
                    was.exec_range,
                ) + key_deletes(keys_without(was.net_keys, keys_of(t.net@)))
            }),
            ({
                let was = old(self).registered@[t.cgid]@;
                install::removes_rules(
                    compile::views(r@),
                    was.fs,
                    was.exec_range,
                    |k: NetKey| was.net_keys.contains(k) && !install::is_key_of(t.net@, k),
                )
            }),
    {
        let ghost before = self.registered@;
        let keys = net_keys(&t.net);
        let state = SandboxBpfState {
            fs_rules_base: t.fs_base,
            fs_rules_count: t.fs_count,
            exec_rules_base: t.exec_base,
            exec_rules_count: t.exec_count,
            net_keys: net_keys(&t.net),
        };
        let ghost kept = state;
        let mut out: Vec<MapDelete> = Vec::new();
        match self.registered.insert(t.cgid, state) {
            Some(was) => {
                proof {
                    assert(was == before[t.cgid]);
                    assert(self.registered@ == before.insert(t.cgid, kept));
                    holdings::exchange_keeps_sound(
                        self.fs_ranges.free@,
                        FS_RULES_CAPACITY as int,
                        fs_held(before),
                        t.cgid,
                        (t.fs_base, t.fs_count),
                    );
                    holdings::exchange_keeps_sound(
                        self.exec_ranges.free@,
                        EXEC_RULES_CAPACITY as int,
                        exec_held(before),
                        t.cgid,
                        (t.exec_base, t.exec_count),
                    );
                    assert(fs_held(self.registered@) =~= fs_held(before).insert(t.cgid, (t.fs_base, t.fs_count)));
                    assert(exec_held(self.registered@) =~= exec_held(before).insert(
                        t.cgid,
                        (t.exec_base, t.exec_count),
                    ));
                    assert(fs_held(before)[t.cgid] == was@.fs);
                    assert(exec_held(before)[t.cgid] == was@.exec_range);
                    assert(self.registered@.dom() =~= before.dom());
                }
                push_range(&mut out, MapName::FsRules, was.fs_rules_base, was.fs_rules_count);
                push_range(&mut out, MapName::ExecRules, was.exec_rules_base, was.exec_rules_count);
                let stale = stale_keys(&was.net_keys, &keys);
                push_keys(&mut out, &stale);
                proof {
                    assert(compile::views(out@) =~= range_deletes(MapName::FsRules, was@.fs) + range_deletes(
                        MapName::ExecRules,
                        was@.exec_range,
                    ) + key_deletes(stale@));
                    let gone = |k: NetKey| was@.net_keys.contains(k) && !install::is_key_of(t.net@, k);
                    assert forall|k: NetKey| #[trigger] gone(k) <==> stale@.contains(k) by {
                        install::keys_stand_in_entries(t.net@, k);
                        install::stale_keys_are_those_not_kept(was@.net_keys, keys_of(t.net@), k);
                    }
                    install::rules_are_removed(compile::views(out@), was@.fs, was@.exec_range, stale@, gone);
                }
                self.give_back(was.fs_rules_base, was.fs_rules_count, was.exec_rules_base, was.exec_rules_count);
            },
            None => {
                proof {
                    assert(before.dom().contains(t.cgid));
                }
            },
        }
        out
    }

    /// Takes a sandbox off the record, and says what is to be deleted: its rules first, its
    /// context last, so that at no moment a process in it is free of enforcement. Nothing is
    /// done for a sandbox that is not registered.
    pub fn deregister_sandbox(&mut self, cgid: &CgroupId) -> (r: Option<Vec<MapDelete>>)
        requires
            old(self).wf(),
        ensures
            final(self).wf(),
            final(self).policy_gen == old(self).policy_gen,
            r is Some <==> old(self).registered@.dom().contains(cgid.0),
            r is None ==> final(self).same(old(self)),
            final(self).registered@ == old(self).registered@.remove(cgid.0),
            r matches Some(deletes) ==> ({
                let was = old(self).registered@[cgid.0]@;
                &&& compile::views(deletes@) == all_deletes(was, cgid.0)
                &&& deletes@.len() > 0 && install::removes_context(deletes@.last()@, cgid.0)
                &&& install::removes_rules(
                    compile::views(deletes@).drop_last(),
                    was.fs,
                    was.exec_range,
                    |k: NetKey| was.net_keys.contains(k),
                )
                &&& holdings::given_back(old(self).fs_ranges.free@, final(self).fs_ranges.free@, was.fs)
                &&& holdings::given_back(
                    old(self).exec_ranges.free@,
                    final(self).exec_ranges.free@,
                    was.exec_range,
                )
            }),
    {
        let ghost before = self.registered@;
        match self.registered.remove(&cgid.0) {
            None => {
                proof {
                    assert(self.registered@ =~= before);
                    assert(before.remove(cgid.0) =~= before);
                }
                None
            },
            Some(was) => {
                proof {
                    assert(was == before[cgid.0]);
                    holdings::leaving_keeps_sound(
                        self.fs_ranges.free@,
                        FS_RULES_CAPACITY as int,
                        fs_held(before),
                        cgid.0,
                    );
                    holdings::leaving_keeps_sound(
                        self.exec_ranges.free@,
                        EXEC_RULES_CAPACITY as int,
                        exec_held(before),
                        cgid.0,
                    );
                    assert(fs_held(self.registered@) =~= fs_held(before).remove(cgid.0));
                    assert(exec_held(self.registered@) =~= exec_held(before).remove(cgid.0));
                    assert(fs_held(before)[cgid.0] == was@.fs);
                    assert(exec_held(before)[cgid.0] == was@.exec_range);
                }
                let mut out: Vec<MapDelete> = Vec::new();
                push_range(&mut out, MapName::FsRules, was.fs_rules_base, was.fs_rules_count);
                push_range(&mut out, MapName::ExecRules, was.exec_rules_base, was.exec_rules_count);
                push_keys(&mut out, &was.net_keys);
                let ghost rules = compile::views(out@);
                let last = MapDelete { map: MapName::Sandboxes, key: ctx_key(cgid.0) };
                let ghost model = last@;
                out.push(last);
                proof {
                    assert(compile::views(out@) =~= rules.push(model));
                    assert(compile::views(out@) =~= all_deletes(was@, cgid.0));
                    let gone = |k: NetKey| was@.net_keys.contains(k);
                    install::rules_are_removed(rules, was@.fs, was@.exec_range, was@.net_keys, gone);
                    install::context_keys_are_read(cgid.0);
                    assert(compile::views(out@).drop_last() =~= rules);
                }
                self.give_back(was.fs_rules_base, was.fs_rules_count, was.exec_rules_base, was.exec_rules_count);
                Some(out)
            },
        }
    }

    /// What a deregistration whose context could not be deleted is answered.
    pub fn deregister_failed(cgid: &CgroupId, cause: &str) -> (r: Error)
        ensures
            r@ == ErrorModel::LaunchFailed(
                "delete cgroup "@ + number::decimal(cgid.0 as nat) + " from BPF sandboxes map: "@ + cause@,
            ),
    {
        let mut text = text::cat3("delete cgroup ", number::format_u64(cgid.0).as_str(), " from BPF sandboxes map: ");
        text.append(cause);
        Error::LaunchFailed(text)
    }
}

/// Giving up an install restores both free lists as they were before it was begun.
pub proof fn abort_undoes_update(
    fs: (Seq<(u32, u32)>, Seq<(u32, u32)>, Seq<(u32, u32)>),
    execs: (Seq<(u32, u32)>, Seq<(u32, u32)>, Seq<(u32, u32)>),
    fs_range: (u32, u32),
    exec_range: (u32, u32),
)
    requires
        ranges::coalesced(fs.0),
        ranges::coalesced(execs.0),
        holdings::taken(fs.0, fs.1, fs_range),
        holdings::taken(execs.0, execs.1, exec_range),
        holdings::given_back(fs.1, fs.2, fs_range),
        holdings::given_back(execs.1, execs.2, exec_range),
    ensures
        fs.2 == fs.0,
        execs.2 == execs.0,
{
    holdings::giving_back_undoes_taking(fs.0, fs.1, fs.2, fs_range);
    holdings::giving_back_undoes_taking(execs.0, execs.1, execs.2, exec_range);
}

/// A context for which a policy was installed is enforced, and keeps every other flag.
pub proof fn install_enforces(c: SandboxCtx, gen: u32, t: PolicyInstall)
    ensures
        installed_ctx(c, gen, t).flags & SandboxCtx::FLAG_ENFORCING != 0,
        installed_ctx(c, gen, t).flags & !SandboxCtx::FLAG_ENFORCING == c.flags & !SandboxCtx::FLAG_ENFORCING,
{
    let f = c.flags;
    assert((f | 1u32) & 1u32 != 0 && (f | 1u32) & !1u32 == f & !1u32) by (bit_vector);
}

/// A context that is returned to setup is not enforced, and keeps every other flag.
pub proof fn setup_only_clears_enforcement(flags: u32)
    ensures
        (flags & !SandboxCtx::FLAG_ENFORCING) & SandboxCtx::FLAG_ENFORCING == 0,
        (flags & !SandboxCtx::FLAG_ENFORCING) | (flags & SandboxCtx::FLAG_ENFORCING) == flags,
{
    assert((flags & !1u32) & 1u32 == 0 && (flags & !1u32) | (flags & 1u32) == flags) by (bit_vector);
}

} // verus!
