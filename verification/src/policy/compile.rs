//! A policy and the plans that it compiles to.
use vstd::prelude::*;

use crate::paths;
use crate::policy::landlock_bits;
use crate::text;

verus! {

/// What a section does with what no rule of it names.
#[derive(Debug, Clone, Copy, PartialEq, Eq, Structural)]
pub enum AccessDefault {
    Deny,
    Allow,
}

/// A rule of the filesystem section.
#[derive(Debug)]
pub struct FsRule {
    pub path: String,
    pub access: Vec<String>,
    pub recursive: bool,
}

#[verifier::ext_equal]
pub struct FsRuleModel {
    pub path: Seq<char>,
    pub access: Seq<Seq<char>>,
    pub recursive: bool,
}

impl View for FsRule {
    type V = FsRuleModel;

    open spec fn view(&self) -> FsRuleModel {
        FsRuleModel { path: self.path@, access: text::texts(self.access@), recursive: self.recursive }
    }
}

/// The filesystem section.
#[derive(Debug)]
pub struct FsPolicy {
    pub default: AccessDefault,
    pub rules: Vec<FsRule>,
}

#[verifier::ext_equal]
pub struct FsPolicyModel {
    pub default: AccessDefault,
    pub rules: Seq<FsRuleModel>,
}

impl View for FsPolicy {
    type V = FsPolicyModel;

    open spec fn view(&self) -> FsPolicyModel {
        FsPolicyModel { default: self.default, rules: views(self.rules@) }
    }
}

/// An entry of the exec allowlist.
#[derive(Debug)]
pub enum ExecRule {
    Path { path: String, pin: Option<String> },
    Prefix(String),
}

#[verifier::ext_equal]
pub enum ExecRuleModel {
    Path { path: Seq<char>, pin: Option<Seq<char>> },
    Prefix(Seq<char>),
}

impl View for ExecRule {
    type V = ExecRuleModel;

    open spec fn view(&self) -> ExecRuleModel {
        match *self {
            ExecRule::Path { path, pin } => ExecRuleModel::Path { path: path@, pin: text::opt(pin) },
            ExecRule::Prefix(p) => ExecRuleModel::Prefix(p@),
        }
    }
}

/// The exec section.
#[derive(Debug)]
pub struct ExecPolicy {
    pub default: AccessDefault,
    pub allow: Vec<ExecRule>,
}

#[verifier::ext_equal]
pub struct ExecPolicyModel {
    pub default: AccessDefault,
    pub allow: Seq<ExecRuleModel>,
}

impl View for ExecPolicy {
    type V = ExecPolicyModel;

    open spec fn view(&self) -> ExecPolicyModel {
        ExecPolicyModel { default: self.default, allow: views(self.allow@) }
    }
}

/// An entry of the egress list.
#[derive(Debug)]
pub enum NetRule {
    /// Traffic that goes through the broker.
    BrokerRoute { hosts: Vec<String>, methods: Vec<String> },
    /// Traffic that goes out directly.
    Direct { cidr: String, ports: Vec<u16> },
}

#[verifier::ext_equal]
pub enum NetRuleModel {
    BrokerRoute { hosts: Seq<Seq<char>>, methods: Seq<Seq<char>> },
    Direct { cidr: Seq<char>, ports: Seq<u16> },
}

impl View for NetRule {
    type V = NetRuleModel;

    open spec fn view(&self) -> NetRuleModel {
        match *self {
            NetRule::BrokerRoute { hosts, methods } => NetRuleModel::BrokerRoute {
                hosts: text::texts(hosts@),
                methods: text::texts(methods@),
            },
            NetRule::Direct { cidr, ports } => NetRuleModel::Direct { cidr: cidr@, ports: ports@ },
        }
    }
}

/// The network section.
#[derive(Debug)]
pub struct NetPolicy {
    pub default: AccessDefault,
    pub egress: Vec<NetRule>,
    pub block_metadata: bool,
    pub dns_policy: Option<String>,
}

#[verifier::ext_equal]
pub struct NetPolicyModel {
    pub default: AccessDefault,
    pub egress: Seq<NetRuleModel>,
    pub block_metadata: bool,
    pub dns_policy: Option<Seq<char>>,
}

impl View for NetPolicy {
    type V = NetPolicyModel;

    open spec fn view(&self) -> NetPolicyModel {
        NetPolicyModel {
            default: self.default,
            egress: views(self.egress@),
            block_metadata: self.block_metadata,
            dns_policy: text::opt(self.dns_policy),
        }
    }
}

/// The runtime section.
#[derive(Debug)]
pub struct RuntimeOpts {
    pub seccomp_profile: Option<String>,
    pub landlock_abi_min: Option<u32>,
    pub timeout: Option<String>,
    pub max_idle: Option<String>,
}

#[verifier::ext_equal]
pub struct RuntimeOptsModel {
    pub seccomp_profile: Option<Seq<char>>,
    pub landlock_abi_min: Option<u32>,
    pub timeout: Option<Seq<char>>,
    pub max_idle: Option<Seq<char>>,
}

impl View for RuntimeOpts {
    type V = RuntimeOptsModel;

    open spec fn view(&self) -> RuntimeOptsModel {
        RuntimeOptsModel {
            seccomp_profile: text::opt(self.seccomp_profile),
            landlock_abi_min: self.landlock_abi_min,
            timeout: text::opt(self.timeout),
            max_idle: text::opt(self.max_idle),
        }
    }
}

/// The audit section.
#[derive(Debug)]
pub struct AuditOpts {
    pub level: Option<String>,
    pub sink: Option<String>,
}

#[verifier::ext_equal]
pub struct AuditOptsModel {
    pub level: Option<Seq<char>>,
    pub sink: Option<Seq<char>>,
}

impl View for AuditOpts {
    type V = AuditOptsModel;

    open spec fn view(&self) -> AuditOptsModel {
        AuditOptsModel { level: text::opt(self.level), sink: text::opt(self.sink) }
    }
}

/// A policy document.
#[derive(Debug)]
pub struct Policy {
    pub api_version: String,
    pub kind: String,
    pub metadata_name: String,
    pub filesystem: Option<FsPolicy>,
    pub exec_policy: Option<ExecPolicy>,
    pub network: Option<NetPolicy>,
    pub runtime: Option<RuntimeOpts>,
    pub audit: Option<AuditOpts>,
}

#[verifier::ext_equal]
pub struct PolicyModel {
    pub api_version: Seq<char>,
    pub kind: Seq<char>,
    pub metadata_name: Seq<char>,
    pub filesystem: Option<FsPolicyModel>,
    pub exec_policy: Option<ExecPolicyModel>,
    pub network: Option<NetPolicyModel>,
    pub runtime: Option<RuntimeOptsModel>,
    pub audit: Option<AuditOptsModel>,
}

impl View for Policy {
    type V = PolicyModel;

    open spec fn view(&self) -> PolicyModel {
        PolicyModel {
            api_version: self.api_version@,
            kind: self.kind@,
            metadata_name: self.metadata_name@,
            filesystem: opt_view(self.filesystem),
            exec_policy: opt_view(self.exec_policy),
            network: opt_view(self.network),
            runtime: opt_view(self.runtime),
            audit: opt_view(self.audit),
        }
    }
}

/// The views of the elements of a list.
pub open spec fn views<T: View>(v: Seq<T>) -> Seq<T::V> {
    Seq::new(v.len(), |i: int| v[i]@)
}

/// The view of an optional value.
pub open spec fn opt_view<T: View>(o: Option<T>) -> Option<T::V> {
    match o {
        Some(t) => Some(t@),
        None => None,
    }
}

impl Clone for FsRule {
    fn clone(&self) -> (r: Self)
        ensures
            r@ == self@,
    {
        FsRule { path: self.path.clone(), access: text::clone_texts(&self.access), recursive: self.recursive }
    }
}

impl Clone for FsPolicy {
    fn clone(&self) -> (r: Self)
        ensures
            r@ == self@,
    {
        let mut rules: Vec<FsRule> = Vec::new();
        let mut i: usize = 0;
        while i < self.rules.len()
            invariant
                i <= self.rules@.len(),
                views(rules@) == views(self.rules@).take(i as int),
            decreases self.rules@.len() - i,
        {
            let ghost done = views(rules@);
            rules.push(self.rules[i].clone());
            i = i + 1;
            proof {
                let all = views(self.rules@);
                assert(views(rules@) =~= done.push(all[i - 1]));
                assert(all.take(i as int) =~= all.take(i - 1).push(all[i - 1]));
            }
        }
        proof {
            assert(views(self.rules@).take(i as int) =~= views(self.rules@));
        }
        FsPolicy { default: self.default, rules }
    }
}

impl Clone for ExecRule {
    fn clone(&self) -> (r: Self)
        ensures
            r@ == self@,
    {
        match self {
            ExecRule::Path { path, pin } => ExecRule::Path { path: path.clone(), pin: text::clone_opt(pin) },
            ExecRule::Prefix(p) => ExecRule::Prefix(p.clone()),
        }
    }
}

impl Clone for ExecPolicy {
    fn clone(&self) -> (r: Self)
        ensures
            r@ == self@,
    {
        let mut allow: Vec<ExecRule> = Vec::new();
        let mut i: usize = 0;
        while i < self.allow.len()
            invariant
                i <= self.allow@.len(),
                views(allow@) == views(self.allow@).take(i as int),
            decreases self.allow@.len() - i,
        {
            let ghost done = views(allow@);
            allow.push(self.allow[i].clone());
            i = i + 1;
            proof {
                let all = views(self.allow@);
                assert(views(allow@) =~= done.push(all[i - 1]));
                assert(all.take(i as int) =~= all.take(i - 1).push(all[i - 1]));
            }
        }
        proof {
            assert(views(self.allow@).take(i as int) =~= views(self.allow@));
        }
        ExecPolicy { default: self.default, allow }
    }
}

/// A list of ports, copied.
pub fn clone_ports(ports: &Vec<u16>) -> (r: Vec<u16>)
    ensures
        r@ == ports@,
{
    let mut out: Vec<u16> = Vec::new();
    let mut i: usize = 0;
    while i < ports.len()
        invariant
            i <= ports@.len(),
            out@ == ports@.take(i as int),
        decreases ports@.len() - i,
    {
        out.push(ports[i]);
        i = i + 1;
        proof {
            assert(ports@.take(i as int) =~= ports@.take(i - 1).push(ports@[i - 1]));
        }
    }
    proof {
        assert(ports@.take(i as int) =~= ports@);
    }
    out
}

impl Clone for NetRule {
    fn clone(&self) -> (r: Self)
        ensures
            r@ == self@,
    {
        match self {
            NetRule::BrokerRoute { hosts, methods } => NetRule::BrokerRoute {
                hosts: text::clone_texts(hosts),
                methods: text::clone_texts(methods),
            },
            NetRule::Direct { cidr, ports } => NetRule::Direct { cidr: cidr.clone(), ports: clone_ports(ports) },
        }
    }
}

impl Clone for NetPolicy {
    fn clone(&self) -> (r: Self)
        ensures
            r@ == self@,
    {
        let mut egress: Vec<NetRule> = Vec::new();
        let mut i: usize = 0;
        while i < self.egress.len()
            invariant
                i <= self.egress@.len(),
                views(egress@) == views(self.egress@).take(i as int),
            decreases self.egress@.len() - i,
        {
            let ghost done = views(egress@);
            egress.push(self.egress[i].clone());
            i = i + 1;
            proof {
                let all = views(self.egress@);
                assert(views(egress@) =~= done.push(all[i - 1]));
                assert(all.take(i as int) =~= all.take(i - 1).push(all[i - 1]));
            }
        }
        proof {
            assert(views(self.egress@).take(i as int) =~= views(self.egress@));
        }
        NetPolicy {
            default: self.default,
            egress,
            block_metadata: self.block_metadata,
            dns_policy: text::clone_opt(&self.dns_policy),
        }
    }
}

impl Clone for RuntimeOpts {
    fn clone(&self) -> (r: Self)
        ensures
            r@ == self@,
    {
        RuntimeOpts {
            seccomp_profile: text::clone_opt(&self.seccomp_profile),
            landlock_abi_min: self.landlock_abi_min,
            timeout: text::clone_opt(&self.timeout),
            max_idle: text::clone_opt(&self.max_idle),
        }
    }
}

impl Clone for AuditOpts {
    fn clone(&self) -> (r: Self)
        ensures
            r@ == self@,
    {
        AuditOpts { level: text::clone_opt(&self.level), sink: text::clone_opt(&self.sink) }
    }
}

impl Clone for Policy {
    fn clone(&self) -> (r: Self)
        ensures
            r@ == self@,
    {
        Policy {
            api_version: self.api_version.clone(),
            kind: self.kind.clone(),
            metadata_name: self.metadata_name.clone(),
            filesystem: match &self.filesystem {
                Some(s) => Some(s.clone()),
                None => None,
            },
            exec_policy: match &self.exec_policy {
                Some(s) => Some(s.clone()),
                None => None,
            },
            network: match &self.network {
                Some(s) => Some(s.clone()),
                None => None,
            },
            runtime: match &self.runtime {
                Some(s) => Some(s.clone()),
                None => None,
            },
            audit: match &self.audit {
                Some(s) => Some(s.clone()),
                None => None,
            },
        }
    }
}

/// A Landlock rule: rights on a path and all beneath it.
#[derive(Debug, Clone)]
pub struct LandlockRule {
    pub path: String,
    pub access_mask: u64,
}

#[verifier::ext_equal]
pub struct LandlockRuleModel {
    pub path: Seq<char>,
    pub access_mask: u64,
}

impl View for LandlockRule {
    type V = LandlockRuleModel;

    open spec fn view(&self) -> LandlockRuleModel {
        LandlockRuleModel { path: self.path@, access_mask: self.access_mask }
    }
}

/// What a policy compiles to for Landlock.
#[derive(Debug)]
pub struct LandlockPlan {
    pub rules: Vec<LandlockRule>,
    pub abi: u32,
}

#[verifier::ext_equal]
pub struct LandlockPlanModel {
    pub rules: Seq<LandlockRuleModel>,
    pub abi: u32,
}

impl View for LandlockPlan {
    type V = LandlockPlanModel;

    open spec fn view(&self) -> LandlockPlanModel {
        LandlockPlanModel { rules: views(self.rules@), abi: self.abi }
    }
}

impl Clone for LandlockPlan {
    fn clone(&self) -> (r: Self)
        ensures
            r@ == self@,
    {
        let mut rules: Vec<LandlockRule> = Vec::new();
        let mut i: usize = 0;
        while i < self.rules.len()
            invariant
                i <= self.rules@.len(),
                views(rules@) == views(self.rules@).take(i as int),
            decreases self.rules@.len() - i,
        {
            let ghost done = views(rules@);
            rules.push(LandlockRule { path: self.rules[i].path.clone(), access_mask: self.rules[i].access_mask });
            i = i + 1;
            proof {
                let all = views(self.rules@);
                assert(views(rules@) =~= done.push(all[i - 1]));
                assert(all.take(i as int) =~= all.take(i - 1).push(all[i - 1]));
            }
        }
        proof {
            assert(views(self.rules@).take(i as int) =~= views(self.rules@));
        }
        LandlockPlan { rules, abi: self.abi }
    }
}

/// A filesystem rule as the BPF hook reads it.
#[derive(Debug, Clone, Copy, PartialEq, Eq, Structural)]
pub struct BpfFsRule {
    pub path_hash: u64,
    pub access_mask: u64,
}

/// An exec rule whose path is resolved when the policy is installed.
#[derive(Debug, Clone)]
pub struct BpfExecRule {
    pub path: String,
    pub is_prefix: bool,
    pub hash: Option<[u8; 32]>,
}

#[verifier::ext_equal]
pub struct BpfExecRuleModel {
    pub path: Seq<char>,
    pub is_prefix: bool,
    pub hash: Option<Seq<u8>>,
}

impl View for BpfExecRule {
    type V = BpfExecRuleModel;

    open spec fn view(&self) -> BpfExecRuleModel {
        BpfExecRuleModel { path: self.path@, is_prefix: self.is_prefix, hash: hash_view(self.hash) }
    }
}

/// The bytes of an optional hash.
pub open spec fn hash_view(h: Option<[u8; 32]>) -> Option<Seq<u8>> {
    match h {
        Some(b) => Some(b@),
        None => None,
    }
}

/// A network rule as the BPF hook reads it.
#[derive(Debug, Clone)]
pub struct BpfNetRule {
    pub cidr: String,
    pub ports: Vec<u16>,
}

#[verifier::ext_equal]
pub struct BpfNetRuleModel {
    pub cidr: Seq<char>,
    pub ports: Seq<u16>,
}

impl View for BpfNetRule {
    type V = BpfNetRuleModel;

    open spec fn view(&self) -> BpfNetRuleModel {
        BpfNetRuleModel { cidr: self.cidr@, ports: self.ports@ }
    }
}

/// What a policy compiles to for the BPF hooks.
#[derive(Debug)]
pub struct BpfPlan {
    pub fs_rules: Vec<BpfFsRule>,
    pub exec_rules: Vec<BpfExecRule>,
    pub net_rules: Vec<BpfNetRule>,
    /// Whether the policy has an exec section: an empty list of rules then denies every exec,
    /// and is not to be taken for a policy that says nothing of exec.
    pub exec_policy_present: bool,
    pub block_metadata: bool,
}

#[verifier::ext_equal]
pub struct BpfPlanModel {
    pub fs_rules: Seq<BpfFsRule>,
    pub exec_rules: Seq<BpfExecRuleModel>,
    pub net_rules: Seq<BpfNetRuleModel>,
    pub exec_policy_present: bool,
    pub block_metadata: bool,
}

impl View for BpfPlan {
    type V = BpfPlanModel;

    open spec fn view(&self) -> BpfPlanModel {
        BpfPlanModel {
            fs_rules: self.fs_rules@,
            exec_rules: views(self.exec_rules@),
            net_rules: views(self.net_rules@),
            exec_policy_present: self.exec_policy_present,
            block_metadata: self.block_metadata,
        }
    }
}

/// The seccomp profile that a policy asks for.
#[derive(Debug)]
pub struct SeccompPlan {
    pub profile: String,
}

/// The rights that one access verb stands for; an unknown verb stands for none.
pub open spec fn verb_mask(verb: Seq<char>) -> u64 {
    if verb == "read"@ {
        landlock_bits::READ_FILE | landlock_bits::READ_DIR
    } else if verb == "write"@ {
        landlock_bits::WRITE_FILE
    } else if verb == "execute"@ {
        landlock_bits::EXECUTE
    } else if verb == "create"@ {
        landlock_bits::MAKE_REG | landlock_bits::MAKE_DIR | landlock_bits::MAKE_SYM | landlock_bits::MAKE_FIFO
            | landlock_bits::MAKE_SOCK
    } else if verb == "delete"@ {
        landlock_bits::REMOVE_FILE | landlock_bits::REMOVE_DIR
    } else if verb == "truncate"@ {
        landlock_bits::TRUNCATE
    } else {
        0
    }
}

/// The rights that a list of access verbs stands for.
pub open spec fn access_mask(access: Seq<Seq<char>>) -> u64
    decreases access.len(),
{
    if access.len() == 0 {
        0
    } else {
        access_mask(access.drop_last()) | verb_mask(access.last())
    }
}

/// FNV-1a over bytes, 64 bits wide.
pub open spec fn fnv1a(bytes: Seq<u8>) -> u64
    decreases bytes.len(),
{
    if bytes.len() == 0 {
        0xcbf29ce484222325u64
    } else {
        (fnv1a(bytes.drop_last()) ^ (bytes.last() as u64)).wrapping_mul(0x100000001b3u64)
    }
}

/// The value of a hexadecimal digit.
pub open spec fn hex_value(c: char) -> Option<int> {
    if '0' <= c <= '9' {
        Some(c as int - '0' as int)
    } else if 'a' <= c <= 'f' {
        Some(c as int - 'a' as int + 10)
    } else if 'A' <= c <= 'F' {
        Some(c as int - 'A' as int + 10)
    } else {
        None
    }
}

/// The byte that two characters write in base 16; a plus sign may stand for the first.
pub open spec fn hex_pair(a: char, b: char) -> Option<int> {
    match (hex_value(a), hex_value(b)) {
        (Some(x), Some(y)) => Some(16 * x + y),
        (None, Some(y)) => if a == '+' {
            Some(y)
        } else {
            None
        },
        _ => None,
    }
}

/// The hash that a pin of the form `sha256:<64 digits>` writes.
pub open spec fn pin_hash(pin: Seq<char>) -> Option<Seq<u8>> {
    let lead = "sha256:"@;
    let hex = pin.skip(lead.len() as int);
    if lead.is_prefix_of(pin) && hex.len() == 64 && forall|k: int|
        0 <= k < 32 ==> #[trigger] hex_pair(hex[2 * k], hex[2 * k + 1]) is Some {
        Some(Seq::new(32, |k: int| hex_pair(hex[2 * k], hex[2 * k + 1])->0 as u8))
    } else {
        None
    }
}

/// The Landlock rule of an exec entry.
pub open spec fn exec_path(rule: ExecRuleModel) -> Seq<char> {
    match rule {
        ExecRuleModel::Path { path, .. } => path,
        ExecRuleModel::Prefix(p) => p,
    }
}

/// The Landlock plan of a policy: one rule for each filesystem rule, then one that lets each
/// exec entry be read and executed; no rule asks for a right that the ABI does not know.
pub open spec fn landlock_plan(p: PolicyModel, abi: u32) -> LandlockPlanModel {
    let known = landlock_bits::known(abi);
    let fs = match p.filesystem {
        Some(s) => s.rules.map_values(
            |r: FsRuleModel| LandlockRuleModel { path: r.path, access_mask: access_mask(r.access) & known },
        ),
        None => Seq::empty(),
    };
    let allowed = match p.exec_policy {
        Some(s) => s.allow.map_values(
            |r: ExecRuleModel|
                LandlockRuleModel {
                    path: exec_path(r),
                    access_mask: (landlock_bits::EXECUTE | landlock_bits::READ_FILE) & known,
                },
        ),
        None => Seq::empty(),
    };
    LandlockPlanModel { rules: fs + allowed, abi }
}

/// The BPF rule of an exec entry.
pub open spec fn bpf_exec_rule(rule: ExecRuleModel) -> BpfExecRuleModel {
    match rule {
        ExecRuleModel::Path { path, pin } => BpfExecRuleModel {
            path,
            is_prefix: false,
            hash: match pin {
                Some(t) => pin_hash(t),
                None => None,
            },
        },
        ExecRuleModel::Prefix(p) => BpfExecRuleModel { path: p, is_prefix: true, hash: None },
    }
}

/// The BPF rules of an egress list: those of the direct entries, in order.
pub open spec fn bpf_net_rules(egress: Seq<NetRuleModel>) -> Seq<BpfNetRuleModel>
    decreases egress.len(),
{
    if egress.len() == 0 {
        Seq::empty()
    } else {
        let before = bpf_net_rules(egress.drop_last());
        match egress.last() {
            NetRuleModel::Direct { cidr, ports } => before.push(BpfNetRuleModel { cidr, ports }),
            NetRuleModel::BrokerRoute { .. } => before,
        }
    }
}

/// The BPF plan of a policy.
pub open spec fn bpf_plan(p: PolicyModel) -> BpfPlanModel {
    BpfPlanModel {
        fs_rules: match p.filesystem {
            Some(s) => s.rules.map_values(
                |r: FsRuleModel|
                    BpfFsRule {
                        path_hash: fnv1a(vstd::utf8::encode_utf8(r.path)),
                        access_mask: access_mask(r.access),
                    },
            ),
            None => Seq::empty(),
        },
        exec_rules: match p.exec_policy {
            Some(s) => s.allow.map_values(|r: ExecRuleModel| bpf_exec_rule(r)),
            None => Seq::empty(),
        },
        net_rules: match p.network {
            Some(s) => bpf_net_rules(s.egress),
            None => Seq::empty(),
        },
        exec_policy_present: p.exec_policy is Some,
        block_metadata: match p.network {
            Some(s) => s.block_metadata,
            None => true,
        },
    }
}

/// Hashes a path with FNV-1a: the value is the same in every process.
pub fn hash_path(path: &str) -> (r: u64)
    ensures
        r == fnv1a(vstd::utf8::encode_utf8(path@)),
{
    let bytes = path.as_bytes();
    let mut h: u64 = 0xcbf29ce484222325;
    let mut i: usize = 0;
    while i < bytes.len()
        invariant
            i <= bytes@.len(),
            h == fnv1a(bytes@.take(i as int)),
        decreases bytes@.len() - i,
    {
        proof {
            assert(bytes@.take(i + 1).drop_last() =~= bytes@.take(i as int));
        }
        h = h ^ (bytes[i] as u64);
        h = h.wrapping_mul(0x100000001b3);
        i = i + 1;
    }
    proof {
        assert(bytes@.take(i as int) =~= bytes@);
    }
    h
}

/// The value of a hexadecimal digit.
fn digit_value(c: char) -> (r: Option<u8>)
    ensures
        r is Some <==> hex_value(c) is Some,
        r matches Some(v) ==> v == hex_value(c)->0 && v < 16,
{
    if '0' <= c && c <= '9' {
        Some((c as u32 - 48) as u8)
    } else if 'a' <= c && c <= 'f' {
        Some((c as u32 - 87) as u8)
    } else if 'A' <= c && c <= 'F' {
        Some((c as u32 - 55) as u8)
    } else {
        None
    }
}

/// The byte that two characters write in base 16.
fn pair_value(a: char, b: char) -> (r: Option<u8>)
    ensures
        r is Some <==> hex_pair(a, b) is Some,
        r matches Some(v) ==> v == hex_pair(a, b)->0,
{
    match (digit_value(a), digit_value(b)) {
        (Some(x), Some(y)) => Some(16 * x + y),
        (None, Some(y)) => if a == '+' {
            Some(y)
        } else {
            None
        },
        _ => None,
    }
}

/// Reads a `sha256:` pin.
pub fn parse_sha256_pin(pin: &str) -> (r: Option<[u8; 32]>)
    ensures
        hash_view(r) == pin_hash(pin@),
{
    let rest = match text::strip_prefix(pin, "sha256:") {
        Some(rest) => rest,
        None => {
            return None;
        },
    };
    let hex = text::chars_of(rest.as_str());
    if hex.len() != 64 {
        return None;
    }
    let mut out: [u8; 32] = [0u8; 32];
    let mut i: usize = 0;
    while i < 32
        invariant
            i <= 32,
            hex@.len() == 64,
            hex@ == pin@.skip("sha256:"@.len() as int),
            "sha256:"@.is_prefix_of(pin@),
            forall|k: int|
                0 <= k < i ==> #[trigger] hex_pair(hex@[2 * k], hex@[2 * k + 1]) is Some && out@[k] == hex_pair(
                    hex@[2 * k],
                    hex@[2 * k + 1],
                )->0,
        decreases 32 - i,
    {
        match pair_value(hex[2 * i], hex[2 * i + 1]) {
            Some(v) => {
                out[i] = v;
            },
            None => {
                proof {
                    assert(hex_pair(hex@[2 * i as int], hex@[2 * i as int + 1]) is None);
                }
                return None;
            },
        }
        i = i + 1;
    }
    proof {
        assert(out@ =~= pin_hash(pin@)->0);
    }
    Some(out)
}

impl Policy {
    /// The rights that a list of access verbs stands for.
    pub fn access_to_landlock_mask(access: &Vec<String>) -> (r: u64)
        ensures
            r == access_mask(text::texts(access@)),
    {
        let mut mask: u64 = 0;
        let mut i: usize = 0;
        let ghost all = text::texts(access@);
        while i < access.len()
            invariant
                i <= access@.len(),
                all == text::texts(access@),
                mask == access_mask(all.take(i as int)),
            decreases access@.len() - i,
        {
            proof {
                assert(all.take(i + 1).drop_last() =~= all.take(i as int));
                assert(all.take(i + 1).last() == access@[i as int]@);
            }
            mask = mask | Self::mask_of_verb(access[i].as_str());
            i = i + 1;
        }
        proof {
            assert(all.take(i as int) =~= all);
        }
        mask
    }

    /// The rights that one access verb stands for.
    fn mask_of_verb(verb: &str) -> (r: u64)
        ensures
            r == verb_mask(verb@),
    {
        if text::same(verb, "read") {
            landlock_bits::READ_FILE | landlock_bits::READ_DIR
        } else if text::same(verb, "write") {
            landlock_bits::WRITE_FILE
        } else if text::same(verb, "execute") {
            landlock_bits::EXECUTE
        } else if text::same(verb, "create") {
            landlock_bits::MAKE_REG | landlock_bits::MAKE_DIR | landlock_bits::MAKE_SYM | landlock_bits::MAKE_FIFO
                | landlock_bits::MAKE_SOCK
        } else if text::same(verb, "delete") {
            landlock_bits::REMOVE_FILE | landlock_bits::REMOVE_DIR
        } else if text::same(verb, "truncate") {
            landlock_bits::TRUNCATE
        } else {
            0
        }
    }

    /// What the policy compiles to for Landlock at an ABI.
    pub fn compile_landlock(&self, abi: u32) -> (r: LandlockPlan)
        ensures
            r@ == landlock_plan(self@, abi),
    {
        let known: u64 = landlock_bits::known_at_abi(abi);
        let mut rules: Vec<LandlockRule> = Vec::new();
        let ghost all = landlock_plan(self@, abi).rules;
        let ghost mut fs_len: int = 0;
        proof {
            assert(views(rules@) =~= all.take(0));
        }
        if let Some(fs) = &self.filesystem {
            proof {
                fs_len = fs.rules@.len() as int;
            }
            let mut i: usize = 0;
            while i < fs.rules.len()
                invariant
                    i <= fs.rules@.len(),
                    self.filesystem == Some(*fs),
                    known == landlock_bits::known(abi),
                    all == landlock_plan(self@, abi).rules,
                    views(rules@) == all.take(i as int),
                decreases fs.rules@.len() - i,
            {
                let ghost done = views(rules@);
                let rule = &fs.rules[i];
                let mask: u64 = Self::access_to_landlock_mask(&rule.access) & known;
                rules.push(LandlockRule { path: rule.path.clone(), access_mask: mask });
                proof {
                    assert(all[i as int] == (LandlockRuleModel {
                        path: fs.rules@[i as int].path@,
                        access_mask: mask,
                    }));
                    assert(views(rules@) =~= done.push(all[i as int]));
                    assert(all.take(i + 1) =~= all.take(i as int).push(all[i as int]));
                }
                i = i + 1;
            }
        }
        if let Some(section) = &self.exec_policy {
            let mask: u64 = (landlock_bits::EXECUTE | landlock_bits::READ_FILE) & known;
            let mut i: usize = 0;
            while i < section.allow.len()
                invariant
                    i <= section.allow@.len(),
                    self.exec_policy == Some(*section),
                    mask == (landlock_bits::EXECUTE | landlock_bits::READ_FILE) & landlock_bits::known(abi),
                    all == landlock_plan(self@, abi).rules,
                    fs_len == (match self.filesystem {
                        Some(fs) => fs.rules@.len() as int,
                        None => 0,
                    }),
                    views(rules@) == all.take(fs_len + i),
                decreases section.allow@.len() - i,
            {
                let ghost done = views(rules@);
                let path = match &section.allow[i] {
                    ExecRule::Path { path, .. } => path.clone(),
                    ExecRule::Prefix(p) => p.clone(),
                };
                rules.push(LandlockRule { path, access_mask: mask });
                proof {
                    let k = fs_len + i;
                    assert(views(section.allow@)[i as int] == section.allow@[i as int]@);
                    assert(all[k] == (LandlockRuleModel { path: exec_path(section.allow@[i as int]@), access_mask: mask }));
                    assert(views(rules@) =~= done.push(all[k]));
                    assert(all.take(k + 1) =~= all.take(k).push(all[k]));
                }
                i = i + 1;
            }
        }
        proof {
            assert(all.take(all.len() as int) =~= all);
        }
        LandlockPlan { rules, abi }
    }

    /// The BPF rules of the filesystem section.
    fn compile_fs(&self) -> (r: Vec<BpfFsRule>)
        ensures
            r@ == bpf_plan(self@).fs_rules,
    {
        let mut out: Vec<BpfFsRule> = Vec::new();
        let ghost all = bpf_plan(self@).fs_rules;
        if let Some(fs) = &self.filesystem {
            let mut i: usize = 0;
            while i < fs.rules.len()
                invariant
                    i <= fs.rules@.len(),
                    self.filesystem == Some(*fs),
                    all == bpf_plan(self@).fs_rules,
                    out@ == all.take(i as int),
                decreases fs.rules@.len() - i,
            {
                let rule = &fs.rules[i];
                out.push(
                    BpfFsRule {
                        path_hash: hash_path(rule.path.as_str()),
                        access_mask: Self::access_to_landlock_mask(&rule.access),
                    },
                );
                proof {
                    assert(all.take(i + 1) =~= all.take(i as int).push(all[i as int]));
                }
                i = i + 1;
            }
        }
        proof {
            assert(out@ =~= all);
        }
        out
    }

    /// The BPF rules of the exec section.
    fn compile_exec(&self) -> (r: Vec<BpfExecRule>)
        ensures
            views(r@) == bpf_plan(self@).exec_rules,
    {
        let mut out: Vec<BpfExecRule> = Vec::new();
        let ghost all = bpf_plan(self@).exec_rules;
        if let Some(section) = &self.exec_policy {
            let mut i: usize = 0;
            while i < section.allow.len()
                invariant
                    i <= section.allow@.len(),
                    self.exec_policy == Some(*section),
                    all == bpf_plan(self@).exec_rules,
                    views(out@) == all.take(i as int),
                decreases section.allow@.len() - i,
            {
                let ghost done = views(out@);
                let rule = match &section.allow[i] {
                    ExecRule::Path { path, pin } => BpfExecRule {
                        path: path.clone(),
                        is_prefix: false,
                        hash: match pin {
                            Some(t) => parse_sha256_pin(t.as_str()),
                            None => None,
                        },
                    },
                    ExecRule::Prefix(prefix) => BpfExecRule { path: prefix.clone(), is_prefix: true, hash: None },
                };
                proof {
                    assert(views(section.allow@)[i as int] == section.allow@[i as int]@);
                    assert(rule@ == all[i as int]);
                }
                out.push(rule);
                proof {
                    assert(views(out@) =~= done.push(all[i as int]));
                    assert(all.take(i + 1) =~= all.take(i as int).push(all[i as int]));
                }
                i = i + 1;
            }
        }
        proof {
            assert(views(out@) =~= all);
        }
        out
    }

    /// The BPF rules of the network section.
    fn compile_net(&self) -> (r: Vec<BpfNetRule>)
        ensures
            views(r@) == bpf_plan(self@).net_rules,
    {
        let mut out: Vec<BpfNetRule> = Vec::new();
        if let Some(net) = &self.network {
            let ghost all = views(net.egress@);
            let mut i: usize = 0;
            proof {
                assert(views(out@) =~= bpf_net_rules(all.take(0)));
            }
            while i < net.egress.len()
                invariant
                    i <= net.egress@.len(),
                    all == views(net.egress@),
                    views(out@) == bpf_net_rules(all.take(i as int)),
                decreases net.egress@.len() - i,
            {
                let ghost done = views(out@);
                proof {
                    assert(all.take(i + 1).drop_last() =~= all.take(i as int));
                    assert(all.take(i + 1).last() == net.egress@[i as int]@);
                }
                if let NetRule::Direct { cidr, ports } = &net.egress[i] {
                    out.push(BpfNetRule { cidr: cidr.clone(), ports: clone_ports(ports) });
                    proof {
                        assert(views(out@) =~= done.push(BpfNetRuleModel { cidr: cidr@, ports: ports@ }));
                    }
                }
                i = i + 1;
            }
            proof {
                assert(all.take(i as int) =~= all);
            }
        }
        proof {
            assert(views(out@) =~= bpf_plan(self@).net_rules);
        }
        out
    }

    /// What the policy compiles to for the BPF hooks.
    pub fn compile_bpf(&self) -> (r: BpfPlan)
        ensures
            r@ == bpf_plan(self@),
    {
        let fs_rules = self.compile_fs();
        let exec_rules = self.compile_exec();
        let net_rules = self.compile_net();
        BpfPlan {
            fs_rules,
            exec_rules,
            net_rules,
            exec_policy_present: self.exec_policy.is_some(),
            block_metadata: match &self.network {
                Some(net) => net.block_metadata,
                None => true,
            },
        }
    }

    /// The seccomp profile that the policy asks for, or the default one.
    pub fn compile_seccomp(&self) -> (r: SeccompPlan)
        ensures
            r.profile@ == (match self@.runtime {
                Some(o) => match o.seccomp_profile {
                    Some(p) => p,
                    None => "aivisor-default"@,
                },
                None => "aivisor-default"@,
            }),
    {
        let profile = match &self.runtime {
            Some(o) => match &o.seccomp_profile {
                Some(p) => p.clone(),
                None => "aivisor-default".to_owned(),
            },
            None => "aivisor-default".to_owned(),
        };
        SeccompPlan { profile }
    }
}

/// Whether a plan permits `required` on `path`: one of its rules stands on the path or above it
/// and carries all of those rights. Nothing is always permitted.
pub open spec fn permitted(plan: LandlockPlanModel, path: Seq<char>, required: u64) -> bool {
    required == 0 || exists|i: int|
        0 <= i < plan.rules.len() && paths::beneath(path, (#[trigger] plan.rules[i]).path)
            && plan.rules[i].access_mask & required == required
}

impl LandlockPlan {
    /// Whether the ruleset that this plan describes permits `required` on `path`.
    pub fn permits(&self, path: &str, required: u64) -> (r: bool)
        ensures
            r == permitted(self@, path@, required),
    {
        if required == 0 {
            return true;
        }
        let mut i: usize = 0;
        while i < self.rules.len()
            invariant
                i <= self.rules@.len(),
                required != 0,
                forall|j: int|
                    0 <= j < i ==> !(paths::beneath(path@, (#[trigger] self@.rules[j]).path)
                        && self@.rules[j].access_mask & required == required),
            decreases self.rules@.len() - i,
        {
            let rule = &self.rules[i];
            proof {
                assert(self@.rules[i as int] == rule@);
            }
            if paths::starts_with(path, rule.path.as_str()) && rule.access_mask & required == required {
                return true;
            }
            i = i + 1;
        }
        false
    }
}

/// No rule of a compiled plan asks for a right that the ABI does not know.
pub proof fn plan_within_abi(p: PolicyModel, abi: u32, i: int)
    requires
        0 <= i < landlock_plan(p, abi).rules.len(),
    ensures
        landlock_plan(p, abi).rules[i].access_mask & landlock_bits::known(abi) == landlock_plan(p, abi).rules[i].access_mask,
{
    let k = landlock_bits::known(abi);
    assert(forall|m: u64| #[trigger] (m & k) & k == m & k) by (bit_vector);
    let fs_len = match p.filesystem {
        Some(s) => s.rules.len() as int,
        None => 0,
    };
    if i < fs_len {
        assert(landlock_plan(p, abi).rules[i].access_mask == access_mask(p.filesystem->0.rules[i].access) & k);
    } else {
        assert(landlock_plan(p, abi).rules[i].access_mask == (landlock_bits::EXECUTE | landlock_bits::READ_FILE) & k);
    }
}

/// Every exec entry becomes a Landlock rule that lets its path be executed and read.
pub proof fn exec_entries_reach_landlock(p: PolicyModel, abi: u32, i: int)
    requires
        p.exec_policy is Some,
        0 <= i < p.exec_policy->0.allow.len(),
    ensures
        permitted(
            landlock_plan(p, abi),
            exec_path(p.exec_policy->0.allow[i]),
            landlock_bits::EXECUTE | landlock_bits::READ_FILE,
        ),
{
    let fs_len = match p.filesystem {
        Some(s) => s.rules.len() as int,
        None => 0,
    };
    let want = landlock_bits::EXECUTE | landlock_bits::READ_FILE;
    let rule = landlock_plan(p, abi).rules[fs_len + i];
    assert(rule.path == exec_path(p.exec_policy->0.allow[i]));
    paths::beneath_itself(rule.path);
    let k = landlock_bits::known(abi);
    assert((5u64 & landlock_bits::known(abi)) & 5u64 == 5u64) by (bit_vector);
    assert(1u64 | 4u64 == 5u64) by (bit_vector);
}

/// What is permitted on a path is permitted on everything beneath it.
pub proof fn permits_beneath(plan: LandlockPlanModel, above: Seq<char>, path: Seq<char>, required: u64)
    requires
        permitted(plan, above, required),
        paths::beneath(path, above),
    ensures
        permitted(plan, path, required),
{
    if required != 0 {
        let i = choose|i: int|
            0 <= i < plan.rules.len() && paths::beneath(above, (#[trigger] plan.rules[i]).path)
                && plan.rules[i].access_mask & required == required;
        paths::beneath_transitive(path, above, plan.rules[i].path);
    }
}

/// A verb grants its own rights and no other verb's: reading never lets anything be executed,
/// and executing never lets anything be read.
pub proof fn read_and_execute_are_distinct()
    ensures
        verb_mask("read"@) & landlock_bits::EXECUTE == 0,
        verb_mask("execute"@) & (landlock_bits::READ_FILE | landlock_bits::READ_DIR) == 0,
{
    reveal_strlit("read");
    reveal_strlit("write");
    reveal_strlit("execute");
    assert("execute"@.len() != "read"@.len());
    assert("execute"@.len() != "write"@.len());
    assert((4u64 | 8u64) & 1u64 == 0) by (bit_vector);
    assert(1u64 & (4u64 | 8u64) == 0) by (bit_vector);
}

} // verus!
