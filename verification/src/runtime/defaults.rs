//! The policy of a sandbox that has none of its own.
use vstd::prelude::*;

use crate::paths;
use crate::policy::compile;
use crate::policy::compile::AccessDefault;
use crate::policy::compile::FsPolicy;
use crate::policy::compile::FsPolicyModel;
use crate::policy::compile::FsRule;
use crate::policy::compile::FsRuleModel;
use crate::policy::compile::NetPolicy;
use crate::policy::compile::NetPolicyModel;
use crate::policy::compile::Policy;
use crate::policy::compile::PolicyModel;
use crate::policy::landlock_bits;
use crate::text;

verus! {

/// A rule on a directory and all beneath it.
pub open spec fn rule(path: Seq<char>, access: Seq<Seq<char>>) -> FsRuleModel {
    FsRuleModel { path, access, recursive: true }
}

/// The rules on files: the workspace and the temporary directory can be written, the base image
/// can be read and executed.
pub open spec fn default_rules() -> Seq<FsRuleModel> {
    seq![
        rule("/workspace"@, seq!["read"@, "write"@, "create"@, "delete"@, "truncate"@]),
        rule("/usr"@, seq!["read"@, "execute"@]),
        rule("/lib"@, seq!["read"@, "execute"@]),
        rule("/lib64"@, seq!["read"@, "execute"@]),
        rule("/etc/ssl/certs"@, seq!["read"@]),
        rule("/tmp"@, seq!["read"@, "write"@, "create"@, "delete"@]),
    ]
}

/// The policy of a sandbox that has none of its own.
pub open spec fn default_model() -> PolicyModel {
    PolicyModel {
        api_version: "aivisor/v1"@,
        kind: "SandboxPolicy"@,
        metadata_name: "aivisor-runtime-default"@,
        filesystem: Some(FsPolicyModel { default: AccessDefault::Deny, rules: default_rules() }),
        exec_policy: None,
        network: Some(
            NetPolicyModel { default: AccessDefault::Deny, egress: Seq::empty(), block_metadata: true, dns_policy: None },
        ),
        runtime: None,
        audit: None,
    }
}

fn access_of(verbs: &[&str]) -> (r: Vec<String>)
    ensures
        text::texts(r@) == Seq::new(verbs@.len(), |i: int| verbs@[i]@),
{
    let mut v: Vec<String> = Vec::new();
    let ghost all = Seq::new(verbs@.len(), |i: int| verbs@[i]@);
    let mut i: usize = 0;
    while i < verbs.len()
        invariant
            i <= verbs@.len(),
            all == Seq::new(verbs@.len(), |i: int| verbs@[i]@),
            text::texts(v@) == all.take(i as int),
        decreases verbs@.len() - i,
    {
        let ghost done = text::texts(v@);
        v.push(verbs[i].to_owned());
        proof {
            assert(text::texts(v@) =~= done.push(all[i as int]));
            assert(all.take(i + 1) =~= all.take(i as int).push(all[i as int]));
        }
        i = i + 1;
    }
    proof {
        assert(all.take(i as int) =~= all);
    }
    v
}

fn rule_on(path: &str, verbs: &[&str]) -> (r: FsRule)
    ensures
        r@ == rule(path@, Seq::new(verbs@.len(), |i: int| verbs@[i]@)),
{
    FsRule { path: path.to_owned(), access: access_of(verbs), recursive: true }
}

/// The policy of a sandbox that has none of its own: the workspace can be written, the base image
/// read and executed, and nothing else is allowed. Which program may run is left to the launch.
pub fn default_policy() -> (r: Policy)
    ensures
        r@ == default_model(),
{
    let workspace: [&str; 5] = ["read", "write", "create", "delete", "truncate"];
    let image: [&str; 2] = ["read", "execute"];
    let certs: [&str; 1] = ["read"];
    let tmp: [&str; 4] = ["read", "write", "create", "delete"];
    let mut rules: Vec<FsRule> = Vec::new();
    rules.push(rule_on("/workspace", workspace.as_slice()));
    rules.push(rule_on("/usr", image.as_slice()));
    rules.push(rule_on("/lib", image.as_slice()));
    rules.push(rule_on("/lib64", image.as_slice()));
    rules.push(rule_on("/etc/ssl/certs", certs.as_slice()));
    rules.push(rule_on("/tmp", tmp.as_slice()));
    proof {
        assert(Seq::new(workspace@.len(), |i: int| workspace@[i]@) =~= default_rules()[0].access);
        assert(Seq::new(image@.len(), |i: int| image@[i]@) =~= default_rules()[1].access);
        assert(Seq::new(certs@.len(), |i: int| certs@[i]@) =~= default_rules()[4].access);
        assert(Seq::new(tmp@.len(), |i: int| tmp@[i]@) =~= default_rules()[5].access);
        assert(compile::views(rules@) =~= default_rules());
    }
    let egress: Vec<compile::NetRule> = Vec::new();
    proof {
        assert(compile::views(egress@) =~= Seq::empty());
    }
    Policy {
        api_version: "aivisor/v1".to_owned(),
        kind: "SandboxPolicy".to_owned(),
        metadata_name: "aivisor-runtime-default".to_owned(),
        filesystem: Some(FsPolicy { default: AccessDefault::Deny, rules }),
        exec_policy: None,
        network: Some(NetPolicy { default: AccessDefault::Deny, egress, block_metadata: true, dns_policy: None }),
        runtime: None,
        audit: None,
    }
}

proof fn masks_of_default_rules()
    ensures
        compile::access_mask(seq!["read"@]) == 0x0c,
        compile::access_mask(seq!["read"@, "execute"@]) == 0x0d,
        compile::access_mask(seq!["read"@, "write"@, "create"@, "delete"@]) == 0x17be,
        compile::access_mask(seq!["read"@, "write"@, "create"@, "delete"@, "truncate"@]) == 0x57be,
{
    reveal_strlit("read");
    reveal_strlit("write");
    reveal_strlit("execute");
    reveal_strlit("create");
    reveal_strlit("delete");
    reveal_strlit("truncate");
    assert("read"@[0] == 'r' && "write"@[0] == 'w' && "execute"@[0] == 'e' && "create"@[0] == 'c' && "delete"@[0]
        == 'd' && "truncate"@[0] == 't');
    let a = seq!["read"@];
    let b = seq!["read"@, "execute"@];
    let c1 = seq!["read"@, "write"@];
    let c2 = seq!["read"@, "write"@, "create"@];
    let c = seq!["read"@, "write"@, "create"@, "delete"@];
    let d = seq!["read"@, "write"@, "create"@, "delete"@, "truncate"@];
    assert(a.drop_last() =~= Seq::<Seq<char>>::empty());
    assert(b.drop_last() =~= a);
    assert(c1.drop_last() =~= a);
    assert(c2.drop_last() =~= c1);
    assert(c.drop_last() =~= c2);
    assert(d.drop_last() =~= c);
    assert(compile::access_mask(Seq::<Seq<char>>::empty()) == 0);
    assert(compile::verb_mask("read"@) == landlock_bits::READ_FILE | landlock_bits::READ_DIR);
    assert(compile::verb_mask("write"@) == landlock_bits::WRITE_FILE);
    assert(compile::verb_mask("execute"@) == landlock_bits::EXECUTE);
    assert(compile::verb_mask("create"@) == landlock_bits::MAKE_REG | landlock_bits::MAKE_DIR
        | landlock_bits::MAKE_SYM | landlock_bits::MAKE_FIFO | landlock_bits::MAKE_SOCK);
    assert(compile::verb_mask("delete"@) == landlock_bits::REMOVE_FILE | landlock_bits::REMOVE_DIR);
    assert(compile::verb_mask("truncate"@) == landlock_bits::TRUNCATE);
    assert(compile::access_mask(a) == compile::access_mask(a.drop_last()) | compile::verb_mask("read"@));
    assert(compile::access_mask(b) == compile::access_mask(a) | compile::verb_mask("execute"@));
    assert(compile::access_mask(c1) == compile::access_mask(a) | compile::verb_mask("write"@));
    assert(compile::access_mask(c2) == compile::access_mask(c1) | compile::verb_mask("create"@));
    assert(compile::access_mask(c) == compile::access_mask(c2) | compile::verb_mask("delete"@));
    assert(compile::access_mask(d) == compile::access_mask(c) | compile::verb_mask("truncate"@));
    assert(0u64 | (landlock_bits::READ_FILE | landlock_bits::READ_DIR) == 0x0c) by (bit_vector);
    assert(0x0cu64 | landlock_bits::EXECUTE == 0x0d) by (bit_vector);
    assert(0x0cu64 | landlock_bits::WRITE_FILE == 0x0e) by (bit_vector);
    assert(0x0eu64 | (landlock_bits::MAKE_REG | landlock_bits::MAKE_DIR | landlock_bits::MAKE_SYM
        | landlock_bits::MAKE_FIFO | landlock_bits::MAKE_SOCK) == 0x178e) by (bit_vector);
    assert(0x178eu64 | (landlock_bits::REMOVE_FILE | landlock_bits::REMOVE_DIR) == 0x17be) by (bit_vector);
    assert(0x17beu64 | landlock_bits::TRUNCATE == 0x57be) by (bit_vector);
}

/// Under the default policy a file can be written exactly beneath the workspace and the temporary
/// directory.
pub proof fn writes_stay_in_the_workspace(abi: u32, path: Seq<char>)
    ensures
        compile::permitted(compile::landlock_plan(default_model(), abi), path, landlock_bits::WRITE_FILE) <==> (
        paths::beneath(path, "/workspace"@) || paths::beneath(path, "/tmp"@)),
{
    masks_of_default_rules();
    let plan = compile::landlock_plan(default_model(), abi);
    let known = landlock_bits::known(abi);
    assert(plan.rules.len() == 6);
    assert(plan.rules[0].path == "/workspace"@ && plan.rules[0].access_mask == 0x57be & known);
    assert(plan.rules[1].access_mask == 0x0d & known);
    assert(plan.rules[2].access_mask == 0x0d & known);
    assert(plan.rules[3].access_mask == 0x0d & known);
    assert(plan.rules[4].access_mask == 0x0c & known);
    assert(plan.rules[5].path == "/tmp"@ && plan.rules[5].access_mask == 0x17be & known);
    assert(landlock_bits::known(abi) & 2 == 2) by (bit_vector);
    assert((0x0du64 & known) & 2 == 0) by (bit_vector);
    assert((0x0cu64 & known) & 2 == 0) by (bit_vector);
    assert((0x57beu64 & known) & 2 == 2) by (bit_vector)
        requires
            known & 2 == 2,
    ;
    assert((0x17beu64 & known) & 2 == 2) by (bit_vector)
        requires
            known & 2 == 2,
    ;
    let w = landlock_bits::WRITE_FILE;
    if paths::beneath(path, "/workspace"@) {
        assert(paths::beneath(path, plan.rules[0].path) && plan.rules[0].access_mask & w == w);
    }
    if paths::beneath(path, "/tmp"@) {
        assert(paths::beneath(path, plan.rules[5].path) && plan.rules[5].access_mask & w == w);
    }
}

} // verus!
