//! What a policy allows once it is compiled.
use vstd::prelude::*;

use crate::id;
use crate::laws::launch;
use crate::paths;
use crate::policy::compile;
use crate::policy::compile::BpfNetRuleModel;
use crate::policy::compile::ExecRuleModel;
use crate::policy::compile::FsRuleModel;
use crate::policy::compile::LandlockPlan;
use crate::policy::compile::LandlockPlanModel;
use crate::policy::compile::NetRuleModel;
use crate::policy::compile::Policy;
use crate::policy::compile::PolicyModel;
use crate::policy::compile::SeccompPlan;
use crate::policy::landlock_bits;
use crate::text;

verus! {

/// Whether a number is a single right.
pub open spec fn is_right(right: u64) -> bool {
    right != 0 && right & ((right - 1) as u64) == 0
}

/// Whether an access verb grants a right.
pub open spec fn grants(verb: Seq<char>, right: u64) -> bool {
    ||| verb == "read"@ && (right == 4 || right == 8)
    ||| verb == "write"@ && right == 2
    ||| verb == "execute"@ && right == 1
    ||| verb == "create"@ && (right == 128 || right == 256 || right == 512 || right == 1024 || right == 4096)
    ||| verb == "delete"@ && (right == 16 || right == 32)
    ||| verb == "truncate"@ && right == 16384
}

/// Whether one of some access verbs grants a right.
pub open spec fn one_grants(access: Seq<Seq<char>>, right: u64) -> bool {
    exists|i: int| 0 <= i < access.len() && grants(#[trigger] access[i], right)
}

proof fn verbs_are_six()
    ensures
        "read"@ != "write"@,
        "read"@ != "execute"@,
        "read"@ != "create"@,
        "read"@ != "delete"@,
        "read"@ != "truncate"@,
        "write"@ != "execute"@,
        "write"@ != "create"@,
        "write"@ != "delete"@,
        "write"@ != "truncate"@,
        "execute"@ != "create"@,
        "execute"@ != "delete"@,
        "execute"@ != "truncate"@,
        "create"@ != "delete"@,
        "create"@ != "truncate"@,
        "delete"@ != "truncate"@,
{
    reveal_strlit("read");
    reveal_strlit("write");
    reveal_strlit("execute");
    reveal_strlit("create");
    reveal_strlit("delete");
    reveal_strlit("truncate");
    assert("read"@[0] == 'r' && "write"@[0] == 'w' && "execute"@[0] == 'e' && "create"@[0] == 'c' && "delete"@[0]
        == 'd' && "truncate"@[0] == 't');
}

/// A verb stands for the rights that it grants and for no other.
pub proof fn a_verb_grants_its_rights(verb: Seq<char>, right: u64)
    requires
        is_right(right),
    ensures
        compile::verb_mask(verb) & right != 0 <==> grants(verb, right),
{
    verbs_are_six();
    assert(right != 0 && right & ((right - 1) as u64) == 0 ==> {
        &&& (landlock_bits::READ_FILE | landlock_bits::READ_DIR) & right != 0 <==> right == 4 || right == 8
        &&& landlock_bits::WRITE_FILE & right != 0 <==> right == 2
        &&& landlock_bits::EXECUTE & right != 0 <==> right == 1
        &&& (landlock_bits::MAKE_REG | landlock_bits::MAKE_DIR | landlock_bits::MAKE_SYM | landlock_bits::MAKE_FIFO
            | landlock_bits::MAKE_SOCK) & right != 0 <==> right == 128 || right == 256 || right == 512 || right == 1024
            || right == 4096
        &&& (landlock_bits::REMOVE_FILE | landlock_bits::REMOVE_DIR) & right != 0 <==> right == 16 || right == 32
        &&& landlock_bits::TRUNCATE & right != 0 <==> right == 16384
        &&& 0u64 & right == 0
    }) by (bit_vector);
}

/// A list of verbs stands for what its verbs grant, together.
pub proof fn verbs_grant_together(access: Seq<Seq<char>>, right: u64)
    requires
        is_right(right),
    ensures
        compile::access_mask(access) & right != 0 <==> one_grants(access, right),
    decreases access.len(),
{
    if access.len() == 0 {
        assert(0u64 & right == 0) by (bit_vector);
    } else {
        let front = access.drop_last();
        verbs_grant_together(front, right);
        a_verb_grants_its_rights(access.last(), right);
        let a = compile::access_mask(front);
        let b = compile::verb_mask(access.last());
        assert((a | b) & right != 0 <==> a & right != 0 || b & right != 0) by (bit_vector);
        if one_grants(front, right) {
            let i = choose|i: int| 0 <= i < front.len() && grants(#[trigger] front[i], right);
            assert(grants(access[i], right));
        }
        if one_grants(access, right) {
            let i = choose|i: int| 0 <= i < access.len() && grants(#[trigger] access[i], right);
            if i < front.len() {
                assert(grants(front[i], right));
            }
        }
        if grants(access.last(), right) {
            assert(grants(access[access.len() - 1], right));
        }
    }
}

/// Whether every right of several is among those of a mask.
pub open spec fn each_right_in(required: u64, mask: u64) -> bool {
    forall|right: u64| is_right(right) && #[trigger] (required & right) != 0 ==> mask & right != 0
}

proof fn rights_one_by_one(required: u64, mask: u64)
    ensures
        mask & required == required <==> each_right_in(required, mask),
{
    if mask & required == required {
        assert forall|right: u64| is_right(right) && #[trigger] (required & right) != 0 implies mask & right != 0 by {
            assert(mask & required == required && required & right != 0 ==> mask & right != 0) by (bit_vector);
        }
    }
    if each_right_in(required, mask) && mask & required != required {
        let x = required & !mask;
        assert(mask & required != required ==> required & !mask != 0) by (bit_vector);
        let right = x & !((x - 1) as u64);
        assert(x != 0 && x == required & !mask && right == x & !((x - 1) as u64) ==> right != 0 && right & ((right
            - 1) as u64) == 0 && required & right != 0 && mask & right == 0) by (bit_vector);
        assert(is_right(right) && (required & right) != 0);
    }
}

/// Whether a rule of the filesystem section, at an ABI, lets a path be used in every way that is
/// required: it stands on the path or above it, and its verbs grant each of the rights.
pub open spec fn fs_rule_lets(rule: FsRuleModel, abi: u32, path: Seq<char>, required: u64) -> bool {
    &&& paths::beneath(path, rule.path)
    &&& forall|right: u64|
        is_right(right) && #[trigger] (required & right) != 0 ==> one_grants(rule.access, right)
            && launch::rights_of_abi(abi) & right != 0
}

/// Whether an exec entry lets a path be used in every way that is required: it stands on the path or
/// above it, and no more is required than to read and to execute.
pub open spec fn exec_entry_lets(entry: ExecRuleModel, path: Seq<char>, required: u64) -> bool {
    &&& paths::beneath(
        path,
        match entry {
            ExecRuleModel::Path { path: p, pin: _ } => p,
            ExecRuleModel::Prefix(p) => p,
        },
    )
    &&& required == 1 || required == 4 || required == 5
}

/// What a compiled policy permits: what a rule of its filesystem section lets be done, and reading
/// and executing what an exec entry names. Nothing else.
pub open spec fn policy_lets(p: PolicyModel, abi: u32, path: Seq<char>, required: u64) -> bool {
    ||| required == 0
    ||| p.filesystem matches Some(s) && exists|i: int|
        0 <= i < s.rules.len() && fs_rule_lets(#[trigger] s.rules[i], abi, path, required)
    ||| p.exec_policy matches Some(s) && exists|i: int|
        0 <= i < s.allow.len() && exec_entry_lets(#[trigger] s.allow[i], path, required)
}

proof fn a_rule_lets(rule: FsRuleModel, abi: u32, path: Seq<char>, required: u64)
    ensures
        fs_rule_lets(rule, abi, path, required) <==> paths::beneath(path, rule.path) && (compile::access_mask(rule.access)
            & landlock_bits::known(abi)) & required == required,
{
    launch::rights_are_known(abi);
    let m = compile::access_mask(rule.access);
    let k = landlock_bits::known(abi);
    rights_one_by_one(required, m & k);
    assert forall|right: u64| is_right(right) implies ((m & k) & right != 0 <==> one_grants(rule.access, right) && k
        & right != 0) by {
        verbs_grant_together(rule.access, right);
        assert(right & ((right - 1) as u64) == 0 && right != 0 ==> ((m & k) & right != 0 <==> m & right != 0 && k
            & right != 0)) by (bit_vector);
    }
}

proof fn reading_and_executing(abi: u32, required: u64)
    ensures
        required != 0 ==> (((landlock_bits::EXECUTE | landlock_bits::READ_FILE) & landlock_bits::known(abi)) & required
            == required <==> required == 1 || required == 4 || required == 5),
{
    assert(required != 0 ==> (((landlock_bits::EXECUTE | landlock_bits::READ_FILE) & landlock_bits::known(abi))
        & required == required <==> required == 1 || required == 4 || required == 5)) by (bit_vector);
}

/// A compiled policy permits exactly what the policy lets be done.
pub proof fn plans_permit_what_policies_let(p: PolicyModel, abi: u32, path: Seq<char>, required: u64)
    ensures
        compile::permitted(compile::landlock_plan(p, abi), path, required) <==> policy_lets(p, abi, path, required),
        compile::landlock_plan(p, abi).abi == abi,
{
    let plan = compile::landlock_plan(p, abi);
    let known = landlock_bits::known(abi);
    reading_and_executing(abi, required);
    let n: int = match p.filesystem {
        Some(s) => s.rules.len() as int,
        None => 0,
    };
    if required != 0 {
        if compile::permitted(plan, path, required) {
            let i = choose|i: int|
                0 <= i < plan.rules.len() && paths::beneath(path, (#[trigger] plan.rules[i]).path)
                    && plan.rules[i].access_mask & required == required;
            if i < n {
                let rule = p.filesystem->0.rules[i];
                a_rule_lets(rule, abi, path, required);
                assert(fs_rule_lets(p.filesystem->0.rules[i], abi, path, required));
            } else {
                assert(exec_entry_lets(p.exec_policy->0.allow[i - n], path, required));
            }
        }
        if p.filesystem matches Some(s) && exists|i: int|
            0 <= i < s.rules.len() && fs_rule_lets(#[trigger] s.rules[i], abi, path, required) {
            let s = p.filesystem->0;
            let i = choose|i: int| 0 <= i < s.rules.len() && fs_rule_lets(#[trigger] s.rules[i], abi, path, required);
            a_rule_lets(s.rules[i], abi, path, required);
            assert(plan.rules[i].path == s.rules[i].path);
        }
        if p.exec_policy matches Some(s) && exists|i: int|
            0 <= i < s.allow.len() && exec_entry_lets(#[trigger] s.allow[i], path, required) {
            let s = p.exec_policy->0;
            let i = choose|i: int| 0 <= i < s.allow.len() && exec_entry_lets(#[trigger] s.allow[i], path, required);
            assert(plan.rules[n + i].path == compile::exec_path(s.allow[i]));
        }
    }
}

/// An exec entry lets its program be run and read, and never changed: what is neither reading nor
/// executing is permitted only where a rule of the filesystem section lets it be done.
pub proof fn programs_are_not_writable(p: PolicyModel, abi: u32, path: Seq<char>, required: u64)
    requires
        required != 0,
        required & 5 == 0,
        compile::permitted(compile::landlock_plan(p, abi), path, required),
    ensures
        p.filesystem matches Some(s) && exists|i: int|
            0 <= i < s.rules.len() && fs_rule_lets(#[trigger] s.rules[i], abi, path, required),
{
    plans_permit_what_policies_let(p, abi, path, required);
    assert(required & 5 == 0 ==> required != 1 && required != 4 && required != 5) by (bit_vector);
}

/// Whatever `compile_landlock` and `permits` answer, they permit what the policy lets be done, and
/// nothing else.
pub proof fn compile_landlock_permits(policy: &Policy, abi: u32, plan: LandlockPlan, path: &str, required: u64, yes: bool)
    requires
        call_ensures(Policy::compile_landlock, (policy, abi), plan),
        call_ensures(LandlockPlan::permits, (&plan, path, required), yes),
    ensures
        yes == policy_lets(policy@, abi, path@, required),
        plan.abi == abi,
{
    plans_permit_what_policies_let(policy@, abi, path@, required);
}

/// The hooks are given one filesystem rule for each of the policy's, with the hash of its path and the
/// rights that its verbs grant.
pub proof fn hooks_get_the_filesystem_rules(p: PolicyModel, i: int, right: u64)
    requires
        p.filesystem is Some,
        0 <= i < p.filesystem->0.rules.len(),
        is_right(right),
    ensures
        ({
            let rule = p.filesystem->0.rules[i];
            let got = compile::bpf_plan(p).fs_rules;
            &&& got.len() == p.filesystem->0.rules.len()
            &&& got[i].path_hash == compile::fnv1a(vstd::utf8::encode_utf8(rule.path))
            &&& got[i].access_mask & right != 0 <==> one_grants(rule.access, right)
        }),
{
    verbs_grant_together(p.filesystem->0.rules[i].access, right);
}

/// The hash of bytes is FNV-1a of 64 bits: it begins with the offset basis, and each byte is mixed in
/// before the hash is multiplied by the prime.
pub proof fn hashes_are_fnv1a(bytes: Seq<u8>, b: u8)
    ensures
        compile::fnv1a(Seq::empty()) == 14695981039346656037,
        compile::fnv1a(bytes.push(b)) == ((compile::fnv1a(bytes) ^ (b as u64)) * 1099511628211)
            % 18446744073709551616int,
{
    assert(bytes.push(b).drop_last() =~= bytes);
}

/// The hooks are given one exec rule for each entry: a directory for a prefix, and for a path the
/// file with the digest that its pin writes.
pub proof fn hooks_get_the_exec_entries(p: PolicyModel, i: int)
    requires
        p.exec_policy is Some,
        0 <= i < p.exec_policy->0.allow.len(),
    ensures
        ({
            let entry = p.exec_policy->0.allow[i];
            let got = compile::bpf_plan(p).exec_rules;
            &&& got.len() == p.exec_policy->0.allow.len()
            &&& compile::bpf_plan(p).exec_policy_present
            &&& match entry {
                ExecRuleModel::Prefix(d) => got[i].path == d && got[i].is_prefix && got[i].hash is None,
                ExecRuleModel::Path { path, pin } => {
                    &&& got[i].path == path && !got[i].is_prefix
                    &&& pin is None ==> got[i].hash is None
                    &&& forall|b: Seq<u8>|
                        b.len() == 32 && pin == Some("sha256:"@ + #[trigger] id::hex_run(b, 0, 32)) ==> got[i].hash
                            == Some(b)
                },
            }
        }),
{
    if let ExecRuleModel::Path { path, pin } = p.exec_policy->0.allow[i] {
        assert forall|b: Seq<u8>| b.len() == 32 && pin == Some("sha256:"@ + #[trigger] id::hex_run(b, 0, 32)) implies compile::bpf_plan(
            p,
        ).exec_rules[i].hash == Some(b) by {
            pins_read_back(b);
        }
    }
}

/// A pin reads back as the digest that it writes.
pub proof fn pins_read_back(b: Seq<u8>)
    requires
        b.len() == 32,
    ensures
        compile::pin_hash("sha256:"@ + id::hex_run(b, 0, 32)) == Some(b),
{
    reveal_strlit("sha256:");
    let lead = "sha256:"@;
    let run = id::hex_run(b, 0, 32);
    let pin = lead + run;
    assert(pin.subrange(0, lead.len() as int) =~= lead);
    let hex = pin.skip(lead.len() as int);
    assert(hex =~= run);
    assert forall|k: int| 0 <= k < 32 implies #[trigger] compile::hex_pair(hex[2 * k], hex[2 * k + 1]) == Some(
        b[k] as int,
    ) by {
        assert(run[2 * k] == id::hex_digit(b[k] as int / 16));
        assert(run[2 * k + 1] == id::hex_digit(b[k] as int % 16));
    }
    assert(compile::pin_hash(pin)->0 =~= b);
}

/// The hooks are given the direct entries of the egress list and no others, in their order.
pub proof fn hooks_get_the_direct_entries(egress: Seq<NetRuleModel>)
    ensures
        compile::bpf_net_rules(egress) == egress.filter(|r: NetRuleModel| r is Direct).map_values(
            |r: NetRuleModel| BpfNetRuleModel { cidr: r->cidr, ports: r->ports },
        ),
    decreases egress.len(),
{
    let keep = |r: NetRuleModel| r is Direct;
    let f = |r: NetRuleModel| BpfNetRuleModel { cidr: r->cidr, ports: r->ports };
    reveal(Seq::filter);
    if egress.len() > 0 {
        hooks_get_the_direct_entries(egress.drop_last());
        assert(egress.filter(keep).map_values(f) =~= compile::bpf_net_rules(egress));
    } else {
        assert(egress.filter(keep).map_values(f) =~= Seq::<BpfNetRuleModel>::empty());
    }
}

/// A section that a policy lacks gives no rules; a policy that says nothing of the network still
/// keeps the metadata endpoints closed, and one without an exec section says so.
pub proof fn what_is_not_said(p: PolicyModel)
    ensures
        ({
            let plan = compile::bpf_plan(p);
            &&& p.filesystem is None ==> plan.fs_rules.len() == 0
            &&& p.exec_policy is None ==> plan.exec_rules.len() == 0 && !plan.exec_policy_present
            &&& p.network is None ==> plan.net_rules.len() == 0 && plan.block_metadata
            &&& p.network matches Some(s) ==> plan.block_metadata == s.block_metadata && plan.net_rules
                == compile::bpf_net_rules(s.egress)
        }),
{
}

/// Whatever `compile_seccomp` answers with is the profile that the policy names, or the default one.
pub proof fn compile_seccomp_chooses(policy: &Policy, plan: SeccompPlan)
    requires
        call_ensures(Policy::compile_seccomp, (policy,), plan),
    ensures
        policy@.runtime matches Some(o) && o.seccomp_profile is Some ==> plan.profile@
            == policy@.runtime->0.seccomp_profile->0,
        policy@.runtime is None || policy@.runtime->0.seccomp_profile is None ==> plan.profile@ == "aivisor-default"@,
{
}

/// The names of an absolute path, each behind a slash.
pub open spec fn rooted(names: Seq<Seq<char>>) -> Seq<char>
    decreases names.len(),
{
    if names.len() == 0 {
        Seq::empty()
    } else {
        rooted(names.drop_last()) + "/"@ + names.last()
    }
}

/// Whether a text is a name in a path.
pub open spec fn is_name(name: Seq<char>) -> bool {
    name.len() > 0 && !name.contains('/') && name != "."@
}

proof fn pieces_of_rooted(names: Seq<Seq<char>>)
    requires
        forall|i: int| 0 <= i < names.len() ==> is_name(#[trigger] names[i]),
    ensures
        text::pieces(rooted(names), '/') == seq![Seq::<char>::empty()] + names,
        names.len() > 0 ==> rooted(names).len() > 0 && rooted(names)[0] == '/',
    decreases names.len(),
{
    reveal_strlit("/");
    if names.len() == 0 {
        assert(seq![Seq::<char>::empty()] + names =~= seq![Seq::<char>::empty()]);
    } else {
        let front = names.drop_last();
        assert forall|i: int| 0 <= i < front.len() implies is_name(#[trigger] front[i]) by {
            assert(front[i] == names[i]);
        }
        pieces_of_rooted(front);
        assert(is_name(names[names.len() - 1]));
        assert("/"@ =~= seq!['/']);
        text::pieces_of_appended(rooted(front), names.last(), '/');
        assert((seq![Seq::<char>::empty()] + front).push(names.last()) =~= seq![Seq::<char>::empty()] + names);
        if front.len() == 0 {
            assert(rooted(front) =~= Seq::<char>::empty());
        }
    }
}

proof fn names_are_kept(names: Seq<Seq<char>>)
    requires
        forall|i: int| 0 <= i < names.len() ==> is_name(#[trigger] names[i]),
    ensures
        paths::kept_pieces(seq![Seq::<char>::empty()] + names, true) == names,
    decreases names.len(),
{
    let all = seq![Seq::<char>::empty()] + names;
    if names.len() == 0 {
        assert(all.drop_last() =~= Seq::<Seq<char>>::empty());
        assert(paths::kept_pieces(all.drop_last(), true) =~= names);
    } else {
        let front = names.drop_last();
        assert forall|i: int| 0 <= i < front.len() implies is_name(#[trigger] front[i]) by {
            assert(front[i] == names[i]);
        }
        names_are_kept(front);
        assert(all.drop_last() =~= seq![Seq::<char>::empty()] + front);
        assert(is_name(names[names.len() - 1]));
        assert(front.push(names.last()) =~= names);
    }
}

/// A path lies beneath another where that other's names are the first of its own: whole names are
/// compared.
pub proof fn paths_compare_by_their_names(path: Seq<Seq<char>>, base: Seq<Seq<char>>)
    requires
        path.len() > 0,
        base.len() > 0,
        forall|i: int| 0 <= i < path.len() ==> is_name(#[trigger] path[i]),
        forall|i: int| 0 <= i < base.len() ==> is_name(#[trigger] base[i]),
    ensures
        paths::beneath(rooted(path), rooted(base)) <==> base.is_prefix_of(path),
{
    pieces_of_rooted(path);
    pieces_of_rooted(base);
    names_are_kept(path);
    names_are_kept(base);
    let (x, y) = (paths::components(rooted(path)), paths::components(rooted(base)));
    assert(x == seq!["/"@] + path);
    assert(y == seq!["/"@] + base);
    if base.is_prefix_of(path) {
        assert(y =~= x.subrange(0, y.len() as int));
    }
    if y.is_prefix_of(x) {
        assert forall|i: int| 0 <= i < base.len() implies base[i] == path[i] by {
            assert(y[i + 1] == x.subrange(0, y.len() as int)[i + 1]);
        }
        assert(base =~= path.subrange(0, base.len() as int));
    }
}

} // verus!
