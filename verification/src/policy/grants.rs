//! What a capability that is granted or revoked does to a policy.
use vstd::prelude::*;

use crate::capability::Capability;
use crate::capability::CapabilityModel;
use crate::error::Error;
use crate::policy::compile::AccessDefault;
use crate::policy::compile::ExecPolicy;
use crate::policy::compile::ExecPolicyModel;
use crate::policy::compile::ExecRule;
use crate::policy::compile::ExecRuleModel;
use crate::policy::compile::NetPolicy;
use crate::policy::compile::NetPolicyModel;
use crate::policy::compile::NetRule;
use crate::policy::compile::NetRuleModel;
use crate::policy::compile::Policy;
use crate::policy::compile::PolicyModel;
use crate::policy::compile;
use crate::text;

verus! {

/// Whether an egress entry is a direct one to `cidr`.
pub open spec fn direct_to(rule: NetRuleModel, cidr: Seq<char>) -> bool {
    rule matches NetRuleModel::Direct { cidr: c, .. } && c == cidr
}

/// The position of the first direct entry to `cidr`, or the number of entries.
pub open spec fn first_direct(egress: Seq<NetRuleModel>, cidr: Seq<char>) -> int
    decreases egress.len(),
{
    if egress.len() == 0 {
        0
    } else if direct_to(egress[0], cidr) {
        0
    } else {
        1 + first_direct(egress.skip(1), cidr)
    }
}

/// `have` with those of `more` behind it that are not in it yet.
pub open spec fn with_missing(have: Seq<u16>, more: Seq<u16>) -> Seq<u16>
    decreases more.len(),
{
    if more.len() == 0 {
        have
    } else {
        let before = with_missing(have, more.drop_last());
        if before.contains(more.last()) {
            before
        } else {
            before.push(more.last())
        }
    }
}

/// `p` put into a sorted list, behind what is no greater.
pub open spec fn put_in(s: Seq<u16>, p: u16) -> Seq<u16>
    decreases s.len(),
{
    if s.len() == 0 || s.last() <= p {
        s.push(p)
    } else {
        put_in(s.drop_last(), p).push(s.last())
    }
}

/// The ports of a list from the smallest to the greatest.
pub open spec fn sorted(s: Seq<u16>) -> Seq<u16>
    decreases s.len(),
{
    if s.len() == 0 {
        s
    } else {
        put_in(sorted(s.drop_last()), s.last())
    }
}

/// The ports of `have` that are not in `gone`.
pub open spec fn without(have: Seq<u16>, gone: Seq<u16>) -> Seq<u16>
    decreases have.len(),
{
    if have.len() == 0 {
        have
    } else {
        let before = without(have.drop_last(), gone);
        if gone.contains(have.last()) {
            before
        } else {
            before.push(have.last())
        }
    }
}

/// An egress list to which `ports` at `cidr` were granted: the ports join the first direct entry
/// to `cidr`, or make an entry of their own where there is none.
pub open spec fn egress_granted(egress: Seq<NetRuleModel>, cidr: Seq<char>, ports: Seq<u16>) -> Seq<NetRuleModel> {
    let k = first_direct(egress, cidr);
    if k < egress.len() {
        egress.update(
            k,
            NetRuleModel::Direct { cidr, ports: sorted(with_missing(egress[k]->Direct_ports, ports)) },
        )
    } else {
        egress.push(NetRuleModel::Direct { cidr, ports })
    }
}

/// An egress list from which `ports` at `cidr` were taken: direct entries that are left with no
/// port are dropped.
pub open spec fn egress_revoked(egress: Seq<NetRuleModel>, cidr: Seq<char>, ports: Seq<u16>) -> Seq<NetRuleModel>
    decreases egress.len(),
{
    if egress.len() == 0 {
        egress
    } else {
        let before = egress_revoked(egress.drop_last(), cidr, ports);
        let last = narrowed(egress.last(), cidr, ports);
        if last matches NetRuleModel::Direct { ports: left, .. } && left.len() == 0 {
            before
        } else {
            before.push(last)
        }
    }
}

/// An egress entry from which `ports` at `cidr` were taken.
pub open spec fn narrowed(rule: NetRuleModel, cidr: Seq<char>, ports: Seq<u16>) -> NetRuleModel {
    match rule {
        NetRuleModel::Direct { cidr: c, ports: have } => if c == cidr {
            NetRuleModel::Direct { cidr: c, ports: without(have, ports) }
        } else {
            rule
        },
        NetRuleModel::BrokerRoute { .. } => rule,
    }
}

/// Whether an exec entry names `path` itself.
pub open spec fn names_path(rule: ExecRuleModel, path: Seq<char>) -> bool {
    rule matches ExecRuleModel::Path { path: p, .. } && p == path
}

/// Whether an exec allowlist names `path` itself.
pub open spec fn lists_path(allow: Seq<ExecRuleModel>, path: Seq<char>) -> bool {
    exists|i: int| 0 <= i < allow.len() && names_path(#[trigger] allow[i], path)
}

/// An exec allowlist without the entries that name `path` itself.
pub open spec fn allow_revoked(allow: Seq<ExecRuleModel>, path: Seq<char>) -> Seq<ExecRuleModel>
    decreases allow.len(),
{
    if allow.len() == 0 {
        allow
    } else {
        let before = allow_revoked(allow.drop_last(), path);
        if names_path(allow.last(), path) {
            before
        } else {
            before.push(allow.last())
        }
    }
}

/// The network section of a policy, or the one that a grant starts from: everything denied and
/// the metadata endpoint blocked.
pub open spec fn net_or_deny(p: PolicyModel) -> NetPolicyModel {
    match p.network {
        Some(n) => n,
        None => NetPolicyModel {
            default: AccessDefault::Deny,
            egress: Seq::empty(),
            block_metadata: true,
            dns_policy: None,
        },
    }
}

/// The exec section of a policy, or the one that a grant starts from: everything denied.
pub open spec fn exec_or_deny(p: PolicyModel) -> ExecPolicyModel {
    match p.exec_policy {
        Some(e) => e,
        None => ExecPolicyModel { default: AccessDefault::Deny, allow: Seq::empty() },
    }
}

/// A policy to which a capability was granted.
pub open spec fn granted(p: PolicyModel, cap: CapabilityModel) -> PolicyModel {
    match cap {
        CapabilityModel::Network { cidr, ports } => {
            let net = net_or_deny(p);
            PolicyModel {
                network: Some(NetPolicyModel { egress: egress_granted(net.egress, cidr, ports), ..net }),
                ..p
            }
        },
        CapabilityModel::Exec { path } => {
            let section = exec_or_deny(p);
            PolicyModel {
                exec_policy: Some(
                    ExecPolicyModel {
                        allow: if lists_path(section.allow, path) {
                            section.allow
                        } else {
                            section.allow.push(ExecRuleModel::Path { path, pin: None })
                        },
                        ..section
                    },
                ),
                ..p
            }
        },
        CapabilityModel::Filesystem { .. } => p,
    }
}

/// A policy from which a capability was taken.
pub open spec fn revoked(p: PolicyModel, cap: CapabilityModel) -> PolicyModel {
    match cap {
        CapabilityModel::Network { cidr, ports } => PolicyModel {
            network: match p.network {
                Some(net) => Some(
                    NetPolicyModel { egress: egress_revoked(net.egress, cidr, ports), ..net },
                ),
                None => None,
            },
            ..p
        },
        CapabilityModel::Exec { path } => PolicyModel {
            exec_policy: match p.exec_policy {
                Some(section) => Some(
                    ExecPolicyModel { allow: allow_revoked(section.allow, path), ..section },
                ),
                None => None,
            },
            ..p
        },
        CapabilityModel::Filesystem { .. } => p,
    }
}

/// What a filesystem capability is answered, granted or revoked.
pub open spec fn filesystem_refusal(path: Seq<char>) -> Seq<char> {
    "filesystem capability "@ + text::quoted(path)
        + " cannot be granted or revoked on a running sandbox. Landlock (L3) is the recursive filesystem layer and its ruleset is fixed at launch — restrict_self() is irreversible and only the confined process itself can narrow further — while the L5 file_open hook allows any path it has no exact rule for, so it cannot express a runtime deny either. Change the sandbox's policy and relaunch instead"@
}

/// Whether `ports` holds `p`.
fn has_port(ports: &Vec<u16>, p: u16) -> (r: bool)
    ensures
        r == ports@.contains(p),
{
    let mut i: usize = 0;
    while i < ports.len()
        invariant
            i <= ports@.len(),
            forall|j: int| 0 <= j < i ==> ports@[j] != p,
        decreases ports@.len() - i,
    {
        if ports[i] == p {
            proof {
                assert(ports@[i as int] == p);
            }
            return true;
        }
        i = i + 1;
    }
    false
}

/// Adds those of `more` that are missing.
fn add_missing(have: Vec<u16>, more: &Vec<u16>) -> (r: Vec<u16>)
    ensures
        r@ == with_missing(have@, more@),
{
    let mut out = have;
    let ghost start = out@;
    let mut i: usize = 0;
    while i < more.len()
        invariant
            i <= more@.len(),
            out@ == with_missing(start, more@.take(i as int)),
        decreases more@.len() - i,
    {
        proof {
            assert(more@.take(i + 1).drop_last() =~= more@.take(i as int));
        }
        if !has_port(&out, more[i]) {
            out.push(more[i]);
        }
        i = i + 1;
    }
    proof {
        assert(more@.take(i as int) =~= more@);
    }
    out
}

proof fn put_in_is_insert(s: Seq<u16>, p: u16, k: int)
    requires
        0 <= k <= s.len(),
        k > 0 ==> s[k - 1] <= p,
        forall|i: int| k <= i < s.len() ==> s[i] > p,
    ensures
        put_in(s, p) == s.insert(k, p),
    decreases s.len(),
{
    if k == s.len() {
        assert(s.insert(k, p) =~= s.push(p));
    } else {
        assert(s[s.len() - 1] > p);
        put_in_is_insert(s.drop_last(), p, k);
        assert(s.drop_last().insert(k, p).push(s.last()) =~= s.insert(k, p));
    }
}

/// The ports of a list from the smallest to the greatest.
fn sort_ports(v: &Vec<u16>) -> (r: Vec<u16>)
    ensures
        r@ == sorted(v@),
{
    let mut out: Vec<u16> = Vec::new();
    let mut i: usize = 0;
    proof {
        assert(out@ =~= v@.take(0));
    }
    while i < v.len()
        invariant
            i <= v@.len(),
            out@ == sorted(v@.take(i as int)),
        decreases v@.len() - i,
    {
        let p: u16 = v[i];
        proof {
            assert(v@.take(i + 1).drop_last() =~= v@.take(i as int));
            assert(v@.take(i + 1).last() == p);
        }
        let mut k: usize = out.len();
        while k > 0 && out[k - 1] > p
            invariant
                k <= out@.len(),
                forall|j: int| k <= j < out@.len() ==> out@[j] > p,
            decreases k,
        {
            k = k - 1;
        }
        proof {
            put_in_is_insert(out@, p, k as int);
        }
        out.insert(k, p);
        i = i + 1;
    }
    proof {
        assert(v@.take(i as int) =~= v@);
    }
    out
}

/// The ports of `have` that are not in `gone`.
fn retain_ports(have: &Vec<u16>, gone: &Vec<u16>) -> (r: Vec<u16>)
    ensures
        r@ == without(have@, gone@),
{
    let mut out: Vec<u16> = Vec::new();
    let mut i: usize = 0;
    proof {
        assert(out@ =~= have@.take(0));
    }
    while i < have.len()
        invariant
            i <= have@.len(),
            out@ == without(have@.take(i as int), gone@),
        decreases have@.len() - i,
    {
        proof {
            assert(have@.take(i + 1).drop_last() =~= have@.take(i as int));
        }
        if !has_port(gone, have[i]) {
            out.push(have[i]);
        }
        i = i + 1;
    }
    proof {
        assert(have@.take(i as int) =~= have@);
    }
    out
}

proof fn first_direct_is(egress: Seq<NetRuleModel>, cidr: Seq<char>, k: int)
    requires
        0 <= k <= egress.len(),
        forall|i: int| 0 <= i < k ==> !direct_to(#[trigger] egress[i], cidr),
        k < egress.len() ==> direct_to(egress[k], cidr),
    ensures
        first_direct(egress, cidr) == k,
    decreases k,
{
    if k > 0 {
        let rest = egress.skip(1);
        assert(!direct_to(egress[0], cidr));
        assert forall|i: int| 0 <= i < k - 1 implies !direct_to(#[trigger] rest[i], cidr) by {
            assert(rest[i] == egress[i + 1]);
        }
        first_direct_is(rest, cidr, k - 1);
    }
}

/// What `first_direct` gives.
pub proof fn first_direct_found(egress: Seq<NetRuleModel>, cidr: Seq<char>)
    ensures
        0 <= first_direct(egress, cidr) <= egress.len(),
        forall|i: int| 0 <= i < first_direct(egress, cidr) ==> !direct_to(#[trigger] egress[i], cidr),
        first_direct(egress, cidr) < egress.len() ==> direct_to(egress[first_direct(egress, cidr)], cidr),
    decreases egress.len(),
{
    if egress.len() > 0 && !direct_to(egress[0], cidr) {
        let rest = egress.skip(1);
        first_direct_found(rest, cidr);
        assert forall|i: int| 0 <= i < 1 + first_direct(rest, cidr) implies !direct_to(
            #[trigger] egress[i],
            cidr,
        ) by {
            if i > 0 {
                assert(egress[i] == rest[i - 1]);
            }
        }
    }
}

/// Grants ports in an egress list.
fn grant_egress(egress: Vec<NetRule>, cidr: &String, ports: &Vec<u16>) -> (r: Vec<NetRule>)
    ensures
        compile::views(r@) == egress_granted(compile::views(egress@), cidr@, ports@),
{
    let mut out = egress;
    let ghost all = compile::views(out@);
    let n: usize = out.len();
    let mut k: usize = 0;
    let mut merged: Option<Vec<u16>> = None;
    while k < n && merged.is_none()
        invariant
            k <= n,
            n == out@.len(),
            all == compile::views(out@),
            merged is None ==> forall|i: int| 0 <= i < k ==> !direct_to(#[trigger] all[i], cidr@),
            merged matches Some(m) ==> k < n && direct_to(all[k as int], cidr@) && m@ == sorted(
                with_missing(all[k as int]->Direct_ports, ports@),
            ) && forall|i: int| 0 <= i < k ==> !direct_to(#[trigger] all[i], cidr@),
        decreases n - k, (if merged is None {
            1int
        } else {
            0int
        }),
    {
        proof {
            assert(all[k as int] == out@[k as int]@);
        }
        let here = match &out[k] {
            NetRule::Direct { cidr: c, ports: have } => if *c == *cidr {
                Some(sort_ports(&add_missing(compile::clone_ports(have), ports)))
            } else {
                None
            },
            NetRule::BrokerRoute { .. } => None,
        };
        if here.is_some() {
            merged = here;
        } else {
            k = k + 1;
        }
    }
    proof {
        first_direct_is(all, cidr@, k as int);
    }
    match merged {
        Some(m) => {
            let rule = NetRule::Direct { cidr: cidr.clone(), ports: m };
            let ghost model = rule@;
            out.set(k, rule);
            proof {
                assert(compile::views(out@) =~= all.update(k as int, model));
            }
        },
        None => {
            let rule = NetRule::Direct { cidr: cidr.clone(), ports: compile::clone_ports(ports) };
            let ghost model = rule@;
            out.push(rule);
            proof {
                assert(compile::views(out@) =~= all.push(model));
            }
        },
    }
    out
}

/// Takes ports out of an egress list.
fn revoke_egress(egress: &Vec<NetRule>, cidr: &String, ports: &Vec<u16>) -> (r: Vec<NetRule>)
    ensures
        compile::views(r@) == egress_revoked(compile::views(egress@), cidr@, ports@),
{
    let mut out: Vec<NetRule> = Vec::new();
    let ghost all = compile::views(egress@);
    let mut i: usize = 0;
    proof {
        assert(compile::views(out@) =~= all.take(0));
    }
    while i < egress.len()
        invariant
            i <= egress@.len(),
            all == compile::views(egress@),
            compile::views(out@) == egress_revoked(all.take(i as int), cidr@, ports@),
        decreases egress@.len() - i,
    {
        let ghost done = compile::views(out@);
        proof {
            assert(all.take(i + 1).drop_last() =~= all.take(i as int));
            assert(all.take(i + 1).last() == egress@[i as int]@);
        }
        let rule = match &egress[i] {
            NetRule::Direct { cidr: c, ports: have } => {
                let left = if *c == *cidr {
                    retain_ports(have, ports)
                } else {
                    compile::clone_ports(have)
                };
                NetRule::Direct { cidr: c.clone(), ports: left }
            },
            NetRule::BrokerRoute { .. } => egress[i].clone(),
        };
        let empty = match &rule {
            NetRule::Direct { ports: left, .. } => left.is_empty(),
            NetRule::BrokerRoute { .. } => false,
        };
        if !empty {
            let ghost model = rule@;
            out.push(rule);
            proof {
                assert(compile::views(out@) =~= done.push(model));
            }
        }
        i = i + 1;
    }
    proof {
        assert(all.take(i as int) =~= all);
    }
    out
}

/// Whether an exec allowlist names `path` itself.
fn lists(allow: &Vec<ExecRule>, path: &String) -> (r: bool)
    ensures
        r == lists_path(compile::views(allow@), path@),
{
    let ghost all = compile::views(allow@);
    let mut i: usize = 0;
    while i < allow.len()
        invariant
            i <= allow@.len(),
            all == compile::views(allow@),
            forall|j: int| 0 <= j < i ==> !names_path(#[trigger] all[j], path@),
        decreases allow@.len() - i,
    {
        proof {
            assert(all[i as int] == allow@[i as int]@);
        }
        let here = match &allow[i] {
            ExecRule::Path { path: p, .. } => *p == *path,
            ExecRule::Prefix(_) => false,
        };
        if here {
            proof {
                assert(names_path(all[i as int], path@));
            }
            return true;
        }
        i = i + 1;
    }
    false
}

/// Takes the entries that name `path` itself out of an exec allowlist.
fn revoke_allow(allow: &Vec<ExecRule>, path: &String) -> (r: Vec<ExecRule>)
    ensures
        compile::views(r@) == allow_revoked(compile::views(allow@), path@),
{
    let mut out: Vec<ExecRule> = Vec::new();
    let ghost all = compile::views(allow@);
    let mut i: usize = 0;
    proof {
        assert(compile::views(out@) =~= all.take(0));
    }
    while i < allow.len()
        invariant
            i <= allow@.len(),
            all == compile::views(allow@),
            compile::views(out@) == allow_revoked(all.take(i as int), path@),
        decreases allow@.len() - i,
    {
        let ghost done = compile::views(out@);
        proof {
            assert(all.take(i + 1).drop_last() =~= all.take(i as int));
            assert(all.take(i + 1).last() == allow@[i as int]@);
        }
        let here = match &allow[i] {
            ExecRule::Path { path: p, .. } => *p == *path,
            ExecRule::Prefix(_) => false,
        };
        if !here {
            out.push(allow[i].clone());
            proof {
                assert(compile::views(out@) =~= done.push(all[i as int]));
            }
        }
        i = i + 1;
    }
    proof {
        assert(all.take(i as int) =~= all);
    }
    out
}

impl Policy {
    /// Refuses the capabilities that cannot be changed on a running sandbox: those on the
    /// filesystem, which Landlock fixes at launch.
    pub fn check_runtime_capability(cap: &Capability) -> (r: Result<(), Error>)
        ensures
            r is Ok <==> !(cap is Filesystem),
            r matches Err(e) ==> (e matches Error::Unsupported(m) && m@ == filesystem_refusal(
                cap@->Filesystem_path,
            )),
    {
        match cap {
            Capability::Network { .. } => Ok(()),
            Capability::Exec { .. } => Ok(()),
            Capability::Filesystem { path, .. } => Err(
                Error::Unsupported(
                    text::cat3(
                        "filesystem capability ",
                        text::quote(path.as_str()).as_str(),
                        " cannot be granted or revoked on a running sandbox. Landlock (L3) is the recursive filesystem layer and its ruleset is fixed at launch — restrict_self() is irreversible and only the confined process itself can narrow further — while the L5 file_open hook allows any path it has no exact rule for, so it cannot express a runtime deny either. Change the sandbox's policy and relaunch instead",
                    ),
                ),
            ),
        }
    }

    /// A copy of this policy with `cap` added.
    pub fn with_capability_granted(&self, cap: &Capability) -> (r: Result<Policy, Error>)
        ensures
            r is Ok <==> !(cap is Filesystem),
            r matches Ok(p) ==> p@ == granted(self@, cap@),
            r matches Err(e) ==> (e matches Error::Unsupported(m) && m@ == filesystem_refusal(
                cap@->Filesystem_path,
            )),
    {
        if let Err(e) = Self::check_runtime_capability(cap) {
            return Err(e);
        }
        let mut next = self.clone();
        match cap {
            Capability::Network { cidr, ports } => {
                let net = match next.network {
                    Some(net) => net,
                    None => NetPolicy {
                        default: AccessDefault::Deny,
                        egress: Vec::new(),
                        block_metadata: true,
                        dns_policy: None,
                    },
                };
                proof {
                    assert(net@.egress =~= net_or_deny(self@).egress);
                }
                next.network = Some(
                    NetPolicy {
                        default: net.default,
                        egress: grant_egress(net.egress, cidr, ports),
                        block_metadata: net.block_metadata,
                        dns_policy: net.dns_policy,
                    },
                );
            },
            Capability::Exec { path } => {
                let section = match next.exec_policy {
                    Some(section) => section,
                    None => ExecPolicy { default: AccessDefault::Deny, allow: Vec::new() },
                };
                proof {
                    assert(section@.allow =~= exec_or_deny(self@).allow);
                }
                let mut allow = section.allow;
                if !lists(&allow, path) {
                    let ghost done = compile::views(allow@);
                    allow.push(ExecRule::Path { path: path.clone(), pin: None });
                    proof {
                        assert(compile::views(allow@) =~= done.push(
                            ExecRuleModel::Path { path: path@, pin: None },
                        ));
                    }
                }
                next.exec_policy = Some(ExecPolicy { default: section.default, allow });
            },
            Capability::Filesystem { .. } => {},
        }
        Ok(next)
    }

    /// A copy of this policy with `cap` removed.
    pub fn with_capability_revoked(&self, cap: &Capability) -> (r: Result<Policy, Error>)
        ensures
            r is Ok <==> !(cap is Filesystem),
            r matches Ok(p) ==> p@ == revoked(self@, cap@),
            r matches Err(e) ==> (e matches Error::Unsupported(m) && m@ == filesystem_refusal(
                cap@->Filesystem_path,
            )),
    {
        if let Err(e) = Self::check_runtime_capability(cap) {
            return Err(e);
        }
        let mut next = self.clone();
        match cap {
            Capability::Network { cidr, ports } => {
                if let Some(net) = next.network {
                    next.network = Some(
                        NetPolicy {
                            default: net.default,
                            egress: revoke_egress(&net.egress, cidr, ports),
                            block_metadata: net.block_metadata,
                            dns_policy: net.dns_policy,
                        },
                    );
                }
            },
            Capability::Exec { path } => {
                if let Some(section) = next.exec_policy {
                    next.exec_policy = Some(
                        ExecPolicy { default: section.default, allow: revoke_allow(&section.allow, path) },
                    );
                }
            },
            Capability::Filesystem { .. } => {},
        }
        Ok(next)
    }
}

/// Whether a policy lets a sandbox connect to a port at a network directly: a rule of its BPF
/// plan for that network holds the port.
pub open spec fn plan_allows(p: PolicyModel, cidr: Seq<char>, port: u16) -> bool {
    exists|i: int|
        0 <= i < compile::bpf_plan(p).net_rules.len() && (#[trigger] compile::bpf_plan(p).net_rules[i]).cidr == cidr
            && compile::bpf_plan(p).net_rules[i].ports.contains(port)
}

/// Whether an egress list lets a sandbox connect to a port at a network directly.
pub open spec fn egress_allows(egress: Seq<NetRuleModel>, cidr: Seq<char>, port: u16) -> bool {
    exists|i: int|
        0 <= i < egress.len() && direct_to(#[trigger] egress[i], cidr) && egress[i]->Direct_ports.contains(port)
}

/// Whether an egress list has at most one direct entry for each network.
pub open spec fn one_entry_each(egress: Seq<NetRuleModel>) -> bool {
    forall|i: int, j: int|
        0 <= i < j < egress.len() && #[trigger] egress[i] is Direct && #[trigger] egress[j] is Direct
            ==> egress[i]->Direct_cidr != egress[j]->Direct_cidr
}

proof fn rule_of_entry(egress: Seq<NetRuleModel>, cidr: Seq<char>, port: u16)
    ensures
        egress_allows(egress, cidr, port) <==> exists|i: int|
            0 <= i < compile::bpf_net_rules(egress).len() && (#[trigger] compile::bpf_net_rules(egress)[i]).cidr
                == cidr && compile::bpf_net_rules(egress)[i].ports.contains(port),
    decreases egress.len(),
{
    let rules = compile::bpf_net_rules(egress);
    if egress.len() > 0 {
        let front = egress.drop_last();
        let before = compile::bpf_net_rules(front);
        rule_of_entry(front, cidr, port);
        if egress_allows(egress, cidr, port) {
            let i = choose|i: int|
                0 <= i < egress.len() && direct_to(#[trigger] egress[i], cidr) && egress[i]->Direct_ports.contains(port);
            if i < front.len() {
                assert(direct_to(front[i], cidr));
                assert(egress_allows(front, cidr, port));
                let k = choose|k: int|
                    0 <= k < before.len() && (#[trigger] before[k]).cidr == cidr && before[k].ports.contains(port);
                assert(rules[k] == before[k]);
            } else {
                assert(rules[before.len() as int].cidr == cidr);
            }
        }
        if exists|i: int| 0 <= i < rules.len() && (#[trigger] rules[i]).cidr == cidr && rules[i].ports.contains(port) {
            let k = choose|k: int|
                0 <= k < rules.len() && (#[trigger] rules[k]).cidr == cidr && rules[k].ports.contains(port);
            if k < before.len() {
                assert(before[k] == rules[k]);
                assert(egress_allows(front, cidr, port));
                let i = choose|i: int|
                    0 <= i < front.len() && direct_to(#[trigger] front[i], cidr) && front[i]->Direct_ports.contains(port);
                assert(direct_to(egress[i], cidr));
            } else {
                assert(direct_to(egress[egress.len() - 1], cidr));
            }
        }
    }
}

proof fn with_missing_holds(have: Seq<u16>, more: Seq<u16>, x: u16)
    ensures
        with_missing(have, more).contains(x) <==> have.contains(x) || more.contains(x),
    decreases more.len(),
{
    if more.len() > 0 {
        let front = more.drop_last();
        let before = with_missing(have, front);
        with_missing_holds(have, front, x);
        held_by_push(front, more.last(), x);
        assert(front.push(more.last()) =~= more);
        held_by_push(before, more.last(), x);
    }
}

proof fn held_by_push(s: Seq<u16>, p: u16, x: u16)
    ensures
        s.push(p).contains(x) <==> s.contains(x) || x == p,
{
    if s.contains(x) {
        let i = choose|i: int| 0 <= i < s.len() && s[i] == x;
        assert(s.push(p)[i] == x);
    }
    if x == p {
        assert(s.push(p)[s.len() as int] == x);
    }
    if s.push(p).contains(x) && x != p {
        let i = choose|i: int| 0 <= i < s.len() + 1 && s.push(p)[i] == x;
        assert(s[i] == x);
    }
}

proof fn put_in_holds(s: Seq<u16>, p: u16, x: u16)
    ensures
        put_in(s, p).contains(x) <==> s.contains(x) || x == p,
    decreases s.len(),
{
    if s.len() == 0 || s.last() <= p {
        held_by_push(s, p, x);
    } else {
        let front = s.drop_last();
        put_in_holds(front, p, x);
        held_by_push(put_in(front, p), s.last(), x);
        held_by_push(front, s.last(), x);
        assert(front.push(s.last()) =~= s);
    }
}

proof fn put_in_sorted(s: Seq<u16>, p: u16)
    requires
        forall|i: int, j: int| 0 <= i < j < s.len() ==> s[i] <= s[j],
    ensures
        put_in(s, p).len() == s.len() + 1,
        forall|i: int, j: int| 0 <= i < j < put_in(s, p).len() ==> put_in(s, p)[i] <= put_in(s, p)[j],
        s.len() > 0 ==> put_in(s, p).last() == (if s.last() <= p {
            p
        } else {
            s.last()
        }),
    decreases s.len(),
{
    if s.len() > 0 && s.last() > p {
        put_in_sorted(s.drop_last(), p);
        let before = put_in(s.drop_last(), p);
        assert forall|i: int, j: int| 0 <= i < j < put_in(s, p).len() implies put_in(s, p)[i] <= put_in(s, p)[j] by {
            if j == before.len() {
                assert(before[i] <= before.last());
                if s.len() > 1 {
                    assert(s[s.len() - 2] <= s[s.len() - 1]);
                }
            }
        }
    } else if s.len() > 0 {
        assert forall|i: int| 0 <= i < s.len() implies s[i] <= p by {
            assert(s[i] <= s.last());
        }
    }
}

/// Sorting keeps the ports and puts none behind a greater one.
pub proof fn sorting(s: Seq<u16>)
    ensures
        sorted(s).len() == s.len(),
        forall|x: u16| #[trigger] sorted(s).contains(x) <==> s.contains(x),
        forall|i: int, j: int| 0 <= i < j < sorted(s).len() ==> sorted(s)[i] <= sorted(s)[j],
    decreases s.len(),
{
    if s.len() > 0 {
        let front = s.drop_last();
        sorting(front);
        put_in_sorted(sorted(front), s.last());
        assert forall|x: u16| #[trigger] sorted(s).contains(x) <==> s.contains(x) by {
            put_in_holds(sorted(front), s.last(), x);
            held_by_push(front, s.last(), x);
            assert(front.push(s.last()) =~= s);
        }
    }
}

proof fn without_holds(have: Seq<u16>, gone: Seq<u16>, x: u16)
    ensures
        without(have, gone).contains(x) <==> have.contains(x) && !gone.contains(x),
    decreases have.len(),
{
    if have.len() > 0 {
        let front = have.drop_last();
        without_holds(front, gone, x);
        held_by_push(front, have.last(), x);
        held_by_push(without(front, gone), have.last(), x);
        assert(front.push(have.last()) =~= have);
    }
}

proof fn grant_in_egress(egress: Seq<NetRuleModel>, cidr: Seq<char>, ports: Seq<u16>, c: Seq<char>, q: u16)
    ensures
        egress_allows(egress_granted(egress, cidr, ports), c, q) <==> egress_allows(egress, c, q) || (c == cidr
            && ports.contains(q)),
{
    first_direct_found(egress, cidr);
    let k = first_direct(egress, cidr);
    let after = egress_granted(egress, cidr, ports);
    if k < egress.len() {
        let have = egress[k]->Direct_ports;
        with_missing_holds(have, ports, q);
        sorting(with_missing(have, ports));
        assert(after[k]->Direct_ports.contains(q) <==> have.contains(q) || ports.contains(q));
        assert(direct_to(after[k], cidr));
        if egress_allows(egress, c, q) {
            let i = choose|i: int|
                0 <= i < egress.len() && direct_to(#[trigger] egress[i], c) && egress[i]->Direct_ports.contains(q);
            if i != k {
                assert(after[i] == egress[i]);
            }
            assert(direct_to(after[i], c));
        }
        if egress_allows(after, c, q) {
            let i = choose|i: int|
                0 <= i < after.len() && direct_to(#[trigger] after[i], c) && after[i]->Direct_ports.contains(q);
            if i != k {
                assert(after[i] == egress[i]);
            } else if have.contains(q) {
                assert(direct_to(egress[k], c));
            }
        }
    } else {
        let n = egress.len() as int;
        if egress_allows(egress, c, q) {
            let i = choose|i: int|
                0 <= i < egress.len() && direct_to(#[trigger] egress[i], c) && egress[i]->Direct_ports.contains(q);
            assert(after[i] == egress[i]);
        }
        assert(direct_to(after[n], cidr));
        if egress_allows(after, c, q) {
            let i = choose|i: int|
                0 <= i < after.len() && direct_to(#[trigger] after[i], c) && after[i]->Direct_ports.contains(q);
            if i < n {
                assert(after[i] == egress[i]);
            }
        }
    }
}

/// A network grant lets the sandbox reach exactly what it could reach before and the ports that
/// were granted: no earlier grant is lost, and nothing else is opened.
pub proof fn grant_widens_exactly(p: PolicyModel, cidr: Seq<char>, ports: Seq<u16>, c: Seq<char>, q: u16)
    ensures
        plan_allows(granted(p, CapabilityModel::Network { cidr, ports }), c, q) <==> plan_allows(p, c, q) || (c
            == cidr && ports.contains(q)),
{
    let net = net_or_deny(p);
    let next = granted(p, CapabilityModel::Network { cidr, ports });
    grant_in_egress(net.egress, cidr, ports, c, q);
    rule_of_entry(net.egress, c, q);
    rule_of_entry(egress_granted(net.egress, cidr, ports), c, q);
    assert(compile::bpf_plan(next).net_rules == compile::bpf_net_rules(egress_granted(net.egress, cidr, ports)));
    assert(compile::bpf_plan(p).net_rules =~= compile::bpf_net_rules(net.egress));
}

proof fn revoke_in_egress(egress: Seq<NetRuleModel>, cidr: Seq<char>, ports: Seq<u16>, c: Seq<char>, q: u16)
    ensures
        egress_allows(egress_revoked(egress, cidr, ports), c, q) <==> egress_allows(egress, c, q) && !(c == cidr
            && ports.contains(q)),
    decreases egress.len(),
{
    let after = egress_revoked(egress, cidr, ports);
    if egress.len() > 0 {
        let front = egress.drop_last();
        let before = egress_revoked(front, cidr, ports);
        let last = egress.last();
        let left = narrowed(last, cidr, ports);
        revoke_in_egress(front, cidr, ports, c, q);
        if last is Direct {
            without_holds(last->Direct_ports, ports, q);
        }
        let kept = direct_to(left, c) && left->Direct_ports.contains(q);
        assert(kept <==> direct_to(last, c) && last->Direct_ports.contains(q) && !(c == cidr && ports.contains(q)));
        if egress_allows(egress, c, q) {
            let i = choose|i: int|
                0 <= i < egress.len() && direct_to(#[trigger] egress[i], c) && egress[i]->Direct_ports.contains(q);
            if i < front.len() {
                assert(front[i] == egress[i]);
                assert(egress_allows(front, c, q));
            } else if !(c == cidr && ports.contains(q)) {
                assert(kept);
                assert(after == before.push(left));
                assert(direct_to(after[before.len() as int], c));
            }
        }
        if egress_allows(before, c, q) {
            let i = choose|i: int|
                0 <= i < before.len() && direct_to(#[trigger] before[i], c) && before[i]->Direct_ports.contains(q);
            assert(after[i] == before[i]);
        }
        if egress_allows(front, c, q) {
            let i = choose|i: int|
                0 <= i < front.len() && direct_to(#[trigger] front[i], c) && front[i]->Direct_ports.contains(q);
            assert(egress[i] == front[i]);
        }
        if egress_allows(after, c, q) {
            let i = choose|i: int|
                0 <= i < after.len() && direct_to(#[trigger] after[i], c) && after[i]->Direct_ports.contains(q);
            if i < before.len() {
                assert(before[i] == after[i]);
                assert(egress_allows(before, c, q));
            } else {
                assert(after[i] == left);
                assert(direct_to(egress[egress.len() - 1], c));
            }
        }
    }
}

/// A network revocation takes away exactly the ports that it names.
pub proof fn revoke_narrows_exactly(p: PolicyModel, cidr: Seq<char>, ports: Seq<u16>, c: Seq<char>, q: u16)
    ensures
        plan_allows(revoked(p, CapabilityModel::Network { cidr, ports }), c, q) <==> plan_allows(p, c, q) && !(c
            == cidr && ports.contains(q)),
{
    let next = revoked(p, CapabilityModel::Network { cidr, ports });
    if p.network is Some {
        let egress = p.network->0.egress;
        revoke_in_egress(egress, cidr, ports, c, q);
        rule_of_entry(egress, c, q);
        rule_of_entry(egress_revoked(egress, cidr, ports), c, q);
        assert(compile::bpf_plan(next).net_rules == compile::bpf_net_rules(egress_revoked(egress, cidr, ports)));
        assert(compile::bpf_plan(p).net_rules == compile::bpf_net_rules(egress));
    } else {
        assert(compile::bpf_plan(next).net_rules =~= compile::bpf_plan(p).net_rules);
    }
}

/// No direct entry without a port is left behind by a revocation.
pub proof fn revoke_leaves_no_empty_entry(egress: Seq<NetRuleModel>, cidr: Seq<char>, ports: Seq<u16>, i: int)
    requires
        0 <= i < egress_revoked(egress, cidr, ports).len(),
        egress_revoked(egress, cidr, ports)[i] is Direct,
    ensures
        egress_revoked(egress, cidr, ports)[i]->Direct_ports.len() > 0,
    decreases egress.len(),
{
    let front = egress.drop_last();
    if i < egress_revoked(front, cidr, ports).len() {
        revoke_leaves_no_empty_entry(front, cidr, ports, i);
    }
}

/// Where each network has at most one direct entry, that is still so after a grant: a second
/// entry for the same network would overwrite the first one's ports in the kernel's map.
pub proof fn grant_keeps_one_entry_each(egress: Seq<NetRuleModel>, cidr: Seq<char>, ports: Seq<u16>)
    requires
        one_entry_each(egress),
    ensures
        one_entry_each(egress_granted(egress, cidr, ports)),
{
    first_direct_found(egress, cidr);
    let k = first_direct(egress, cidr);
    let after = egress_granted(egress, cidr, ports);
    assert forall|i: int, j: int|
        0 <= i < j < after.len() && #[trigger] after[i] is Direct && #[trigger] after[j] is Direct implies
        after[i]->Direct_cidr != after[j]->Direct_cidr by {
        if k < egress.len() {
            assert(egress[i] is Direct && egress[j] is Direct);
        } else if j < egress.len() {
            assert(after[i] == egress[i] && after[j] == egress[j]);
        } else {
            assert(after[i] == egress[i]);
            assert(!direct_to(egress[i], cidr));
        }
    }
}

/// Granting never opens the default and never unblocks the metadata endpoint.
pub proof fn grant_keeps_defaults(p: PolicyModel, cap: CapabilityModel)
    ensures
        compile::bpf_plan(granted(p, cap)).block_metadata == compile::bpf_plan(p).block_metadata,
        granted(p, cap).network matches Some(n) ==> n.default == net_or_deny(p).default && n.dns_policy
            == net_or_deny(p).dns_policy,
        p.network is None ==> net_or_deny(p).default == AccessDefault::Deny,
        granted(p, cap).exec_policy matches Some(e) ==> e.default == exec_or_deny(p).default,
        p.exec_policy is None ==> exec_or_deny(p).default == AccessDefault::Deny,
{
}

/// An exec grant allows exactly the path that it names besides what was allowed, and granting it
/// twice is the same as granting it once.
pub proof fn exec_grant_is_idempotent(p: PolicyModel, path: Seq<char>, q: Seq<char>)
    ensures
        ({
            let cap = CapabilityModel::Exec { path };
            let once = granted(p, cap);
            &&& lists_path(once.exec_policy->0.allow, q) <==> lists_path(exec_or_deny(p).allow, q) || q == path
            &&& granted(once, cap) == once
        }),
{
    let cap = CapabilityModel::Exec { path };
    let have = exec_or_deny(p).allow;
    let once = granted(p, cap);
    let allow = once.exec_policy->0.allow;
    if lists_path(have, q) {
        let i = choose|i: int| 0 <= i < have.len() && names_path(#[trigger] have[i], q);
        assert(allow[i] == have[i]);
    }
    if !lists_path(have, path) {
        assert(names_path(allow[have.len() as int], path));
    }
    assert(lists_path(allow, path)) by {
        if lists_path(have, path) {
            let i = choose|i: int| 0 <= i < have.len() && names_path(#[trigger] have[i], path);
            assert(names_path(allow[i], path));
        }
    }
    if lists_path(allow, q) && q != path {
        let i = choose|i: int| 0 <= i < allow.len() && names_path(#[trigger] allow[i], q);
        assert(names_path(have[i], q));
    }
    assert(granted(once, cap).exec_policy == once.exec_policy);
}

/// An exec revocation takes away exactly the path that it names.
pub proof fn exec_revoke_narrows_exactly(allow: Seq<ExecRuleModel>, path: Seq<char>, q: Seq<char>)
    ensures
        lists_path(allow_revoked(allow, path), q) <==> lists_path(allow, q) && q != path,
    decreases allow.len(),
{
    let after = allow_revoked(allow, path);
    if allow.len() > 0 {
        let front = allow.drop_last();
        let before = allow_revoked(front, path);
        exec_revoke_narrows_exactly(front, path, q);
        if lists_path(allow, q) && q != path {
            let i = choose|i: int| 0 <= i < allow.len() && names_path(#[trigger] allow[i], q);
            if i < front.len() {
                assert(names_path(front[i], q));
                let k = choose|k: int| 0 <= k < before.len() && names_path(#[trigger] before[k], q);
                assert(names_path(after[k], q));
            } else {
                assert(names_path(after[before.len() as int], q));
            }
        }
        if lists_path(after, q) {
            let k = choose|k: int| 0 <= k < after.len() && names_path(#[trigger] after[k], q);
            if k < before.len() {
                assert(names_path(before[k], q));
                let i = choose|i: int| 0 <= i < front.len() && names_path(#[trigger] front[i], q);
                assert(names_path(allow[i], q));
            } else {
                assert(names_path(allow[allow.len() - 1], q));
            }
        }
    }
}

/// A path that is granted at run time carries no hash pin: its file was not seen.
pub proof fn exec_grant_claims_no_pin(p: PolicyModel, path: Seq<char>)
    requires
        !lists_path(exec_or_deny(p).allow, path),
    ensures
        ({
            let rules = compile::bpf_plan(granted(p, CapabilityModel::Exec { path })).exec_rules;
            &&& rules.len() == exec_or_deny(p).allow.len() + 1
            &&& rules.last().path == path
            &&& rules.last().hash is None
        }),
{
}

} // verus!
