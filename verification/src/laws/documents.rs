//! What a policy document says, and how it is read.
use vstd::prelude::*;

use crate::error::Error;
use crate::policy::compile::AccessDefault;
use crate::policy::compile::AuditOptsModel;
use crate::policy::compile::ExecPolicyModel;
use crate::policy::compile::ExecRuleModel;
use crate::policy::compile::FsPolicyModel;
use crate::policy::compile::FsRuleModel;
use crate::policy::compile::NetPolicyModel;
use crate::policy::compile::NetRuleModel;
use crate::policy::compile::Policy;
use crate::policy::compile::PolicyModel;
use crate::policy::compile::RuntimeOptsModel;
use crate::policy::parser;
use crate::policy::yaml;
use crate::policy::yaml::Yaml;
use crate::text;

verus! {

/// What a mapping says under a key is what its first entry with that key says; and a tag before a
/// mapping changes nothing of that.
pub proof fn the_first_entry_counts(m: Vec<(Yaml, Yaml)>, key: Seq<char>, k: int, tag: String)
    requires
        0 <= k <= m@.len(),
        forall|j: int| 0 <= j < k ==> !((#[trigger] m@[j]).0 matches Yaml::Text(s) && s@ == key),
        k < m@.len() ==> (m@[k].0 matches Yaml::Text(s) && s@ == key),
    ensures
        yaml::field(Yaml::Mapping(m), key) == (if k < m@.len() {
            Some(m@[k].1)
        } else {
            None
        }),
        yaml::field(Yaml::Tagged(tag, Box::new(Yaml::Mapping(m))), key) == yaml::field(Yaml::Mapping(m), key),
{
    entries_count(m@, key, k);
    reveal_with_fuel(yaml::untagged, 3);
}

proof fn entries_count(m: Seq<(Yaml, Yaml)>, key: Seq<char>, k: int)
    requires
        0 <= k <= m.len(),
        forall|j: int| 0 <= j < k ==> !((#[trigger] m[j]).0 matches Yaml::Text(s) && s@ == key),
        k < m.len() ==> (m[k].0 matches Yaml::Text(s) && s@ == key),
    ensures
        yaml::entry(m, key) == (if k < m.len() {
            Some(m[k].1)
        } else {
            None
        }),
    decreases k,
{
    if k > 0 {
        let rest = m.skip(1);
        assert forall|j: int| 0 <= j < k - 1 implies !((#[trigger] rest[j]).0 matches Yaml::Text(s) && s@ == key) by {
            assert(rest[j] == m[j + 1]);
        }
        assert(!(m[0].0 matches Yaml::Text(s) && s@ == key));
        entries_count(rest, key, k - 1);
    }
}

/// Whether a value says a text under a key, or nothing.
pub open spec fn says_text(y: Yaml, key: Seq<char>, said: Option<Seq<char>>) -> bool {
    match said {
        Some(t) => yaml::field(y, key) matches Some(Yaml::Text(s)) && s@ == t,
        None => yaml::field(y, key) is None,
    }
}

/// Whether a value says yes or no under a key, or nothing.
pub open spec fn says_truth(y: Yaml, key: Seq<char>, said: Option<bool>) -> bool {
    match said {
        Some(b) => yaml::field(y, key) == Some(Yaml::Bool(b)),
        None => yaml::field(y, key) is None,
    }
}

/// Whether a value says a number under a key, or nothing.
pub open spec fn says_number(y: Yaml, key: Seq<char>, said: Option<u64>) -> bool {
    match said {
        Some(n) => yaml::field(y, key) matches Some(Yaml::Number(Some(m), _)) && m == n,
        None => yaml::field(y, key) is None,
    }
}

/// Whether a value lists some texts under a key.
pub open spec fn lists_texts(y: Yaml, key: Seq<char>, said: Seq<Seq<char>>) -> bool {
    yaml::field(y, key) matches Some(Yaml::List(v)) && v@.len() == said.len() && forall|i: int|
        0 <= i < v@.len() ==> (#[trigger] v@[i] matches Yaml::Text(s) && s@ == said[i])
}

/// Whether a value lists some numbers under a key.
pub open spec fn lists_numbers(y: Yaml, key: Seq<char>, said: Seq<u16>) -> bool {
    yaml::field(y, key) matches Some(Yaml::List(v)) && v@.len() == said.len() && forall|i: int|
        0 <= i < v@.len() ==> (#[trigger] v@[i] matches Yaml::Number(Some(n), _) && n == said[i])
}

/// The list that a value holds under a key.
pub open spec fn holds_list(y: Yaml, key: Seq<char>, list: Seq<Yaml>) -> bool {
    yaml::field(y, key) matches Some(Yaml::List(v)) && v@ == list
}

proof fn texts_read_back(list: Seq<Yaml>, said: Seq<Seq<char>>)
    requires
        list.len() == said.len(),
        forall|i: int| 0 <= i < list.len() ==> (#[trigger] list[i] matches Yaml::Text(s) && s@ == said[i]),
    ensures
        yaml::texts_among(list) == said,
    decreases list.len(),
{
    if list.len() == 0 {
        assert(said =~= Seq::<Seq<char>>::empty());
    } else {
        let (front, before) = (list.drop_last(), said.drop_last());
        assert forall|i: int| 0 <= i < front.len() implies (#[trigger] front[i] matches Yaml::Text(s) && s@
            == before[i]) by {
            assert(front[i] == list[i]);
        }
        texts_read_back(front, before);
        assert(list[list.len() - 1] == list.last());
        assert(before.push(said.last()) =~= said);
    }
}

proof fn numbers_read_back(list: Seq<Yaml>, said: Seq<u16>)
    requires
        list.len() == said.len(),
        forall|i: int| 0 <= i < list.len() ==> (#[trigger] list[i] matches Yaml::Number(Some(n), _) && n == said[i]),
    ensures
        parser::ports_among(list) == said,
    decreases list.len(),
{
    if list.len() == 0 {
        assert(said =~= Seq::<u16>::empty());
    } else {
        let (front, before) = (list.drop_last(), said.drop_last());
        assert forall|i: int| 0 <= i < front.len() implies (#[trigger] front[i] matches Yaml::Number(Some(n), _) && n
            == before[i]) by {
            assert(front[i] == list[i]);
        }
        numbers_read_back(front, before);
        assert(list[list.len() - 1] == list.last());
        assert(before.push(said.last()) =~= said);
    }
}

/// Whether an entry of an egress list says a rule: a route has `via`, and lists hosts and methods; a
/// direct entry has `direct`, and says a network and lists ports.
pub open spec fn says_egress(y: Yaml, rule: NetRuleModel) -> bool {
    match rule {
        NetRuleModel::BrokerRoute { hosts, methods } => {
            &&& yaml::field(y, "via"@) is Some
            &&& lists_texts(y, "hosts"@, hosts)
            &&& lists_texts(y, "methods"@, methods)
        },
        NetRuleModel::Direct { cidr, ports } => {
            &&& yaml::field(y, "via"@) is None
            &&& yaml::field(y, "direct"@) is Some
            &&& says_text(y, "cidr"@, Some(cidr))
            &&& lists_numbers(y, "ports"@, ports)
        },
    }
}

/// An entry of an egress list is read as the rule that it says; one with neither `via` nor `direct`
/// says none.
pub proof fn egress_entries_read_back(y: Yaml, rule: NetRuleModel)
    ensures
        says_egress(y, rule) ==> parser::read_egress_entry(y) == Some(rule),
        yaml::field(y, "via"@) is None && yaml::field(y, "direct"@) is None ==> parser::read_egress_entry(y) is None,
{
    if says_egress(y, rule) {
        match rule {
            NetRuleModel::BrokerRoute { hosts, methods } => {
                let h = yaml::field(y, "hosts"@)->0;
                let m = yaml::field(y, "methods"@)->0;
                texts_read_back(h->List_0@, hosts);
                texts_read_back(m->List_0@, methods);
            },
            NetRuleModel::Direct { cidr, ports } => {
                let p = yaml::field(y, "ports"@)->0;
                numbers_read_back(p->List_0@, ports);
            },
        }
    }
}

proof fn egress_lists_read_back(list: Seq<Yaml>, rules: Seq<NetRuleModel>)
    requires
        list.len() == rules.len(),
        forall|i: int| 0 <= i < list.len() ==> says_egress(#[trigger] list[i], rules[i]),
    ensures
        parser::read_egress(list) == rules,
    decreases list.len(),
{
    if list.len() == 0 {
        assert(rules =~= Seq::<NetRuleModel>::empty());
    } else {
        let (front, before) = (list.drop_last(), rules.drop_last());
        assert forall|i: int| 0 <= i < front.len() implies says_egress(#[trigger] front[i], before[i]) by {
            assert(front[i] == list[i]);
        }
        egress_lists_read_back(front, before);
        assert(says_egress(list[list.len() - 1], rules[rules.len() - 1]));
        egress_entries_read_back(list.last(), rules.last());
        assert(before.push(rules.last()) =~= rules);
    }
}

/// Whether a policy's body says a network section.
pub open spec fn says_network(doc: Yaml, net: Option<NetPolicyModel>) -> bool {
    match net {
        None => yaml::field(doc, "network"@) is None,
        Some(m) => yaml::field(doc, "network"@) matches Some(y) && {
            &&& m.default is Deny
            &&& says_text(y, "default"@, Some("deny"@)) || yaml::field(y, "default"@) is None
            &&& exists|list: Seq<Yaml>| #[trigger]
                holds_list(y, "egress"@, list) && list.len() == m.egress.len() && forall|i: int|
                    0 <= i < list.len() ==> says_egress(#[trigger] list[i], m.egress[i])
            &&& says_truth(y, "blockMetadata"@, Some(m.block_metadata)) || (m.block_metadata && yaml::field(
                y,
                "blockMetadata"@,
            ) is None)
            &&& says_text(y, "dnsPolicy"@, m.dns_policy)
        },
    }
}

/// A network section is read as it is said; one that is open by default is refused.
pub proof fn network_sections_read_back(doc: Yaml, net: Option<NetPolicyModel>)
    ensures
        says_network(doc, net) ==> parser::read_net_policy(doc) == Ok::<Option<NetPolicyModel>, Seq<char>>(net),
        yaml::field(doc, "network"@) is Some && says_text(yaml::field(doc, "network"@)->0, "default"@, Some("allow"@))
            ==> parser::read_net_policy(doc) == Err::<Option<NetPolicyModel>, Seq<char>>(
            "network default: allow is not supported in Phase 2; use default: deny"@,
        ),
{
    reveal_strlit("deny");
    reveal_strlit("allow");
    assert("deny"@.len() == 4 && "allow"@.len() == 5);
    if says_network(doc, net) {
        if let Some(m) = net {
            let y = yaml::field(doc, "network"@)->0;
            let list = choose|list: Seq<Yaml>| #[trigger]
                holds_list(y, "egress"@, list) && list.len() == m.egress.len() && forall|i: int|
                    0 <= i < list.len() ==> says_egress(#[trigger] list[i], m.egress[i]);
            egress_lists_read_back(list, m.egress);
            assert(parser::list_or_empty(y, "egress"@) == list);
        }
    }
}

/// Whether a path goes up anywhere.
pub open spec fn climbs(path: Seq<char>) -> bool {
    exists|i: int| 0 <= i < path.len() - 1 && #[trigger] path[i] == '.' && path[i + 1] == '.'
}

proof fn climbing_is_two_dots(path: Seq<char>)
    ensures
        climbs(path) <==> text::has_part(path, ".."@),
{
    reveal_strlit("..");
    if climbs(path) {
        let i = choose|i: int| 0 <= i < path.len() - 1 && #[trigger] path[i] == '.' && path[i + 1] == '.';
        assert(path.skip(i).take(2) =~= ".."@);
    }
    if text::has_part(path, ".."@) {
        let i = choose|i: int|
            0 <= i <= path.len() - ".."@.len() && #[trigger] path.skip(i).take(".."@.len() as int) == ".."@;
        assert(path.skip(i).take(2)[0] == path[i]);
        assert(path.skip(i).take(2)[1] == path[i + 1]);
        assert(path[i] == '.' && path[i + 1] == '.');
    }
}

/// Whether a verb changes files.
pub open spec fn changes(verb: Seq<char>) -> bool {
    verb == "write"@ || verb == "create"@ || verb == "delete"@ || verb == "truncate"@
}

/// Whether a path is one that no policy lets be changed.
pub open spec fn is_the_systems(path: Seq<char>) -> bool {
    path == "/"@ || path == "/usr"@ || path == "/etc"@ || path == "/proc"@ || path == "/sys"@ || path == "/dev"@
}

/// Whether a rule of the filesystem section says a path, verbs, and whether what lies beneath is
/// meant too.
pub open spec fn says_fs_rule(y: Yaml, rule: FsRuleModel) -> bool {
    &&& says_text(y, "path"@, Some(rule.path))
    &&& lists_texts(y, "access"@, rule.access)
    &&& says_truth(y, "recursive"@, Some(rule.recursive)) || (!rule.recursive && yaml::field(y, "recursive"@) is None)
}

/// What is wrong with a rule of the filesystem section.
pub open spec fn fs_fault(y: Yaml, rule: FsRuleModel) -> Option<Seq<char>> {
    if rule.path.len() == 0 || rule.path[0] != '/' {
        Some("filesystem path must be absolute: "@ + rule.path)
    } else if climbs(rule.path) {
        Some("filesystem path must not contain '..': "@ + rule.path)
    } else if rule.path == "/workspace"@ && rule.access.contains("execute"@) && !says_truth(
        y,
        "allowWorkspaceExec"@,
        Some(true),
    ) {
        Some("execute on /workspace requires allowWorkspaceExec: true"@)
    } else if is_the_systems(rule.path) && exists|i: int|
        0 <= i < rule.access.len() && changes(#[trigger] rule.access[i]) {
        Some("cannot grant write access to system path: "@ + rule.path)
    } else {
        None
    }
}

/// A rule of the filesystem section is read as it is said, unless something is wrong with it; and one
/// without a path is refused.
pub proof fn fs_rules_read_back(y: Yaml, rule: FsRuleModel)
    requires
        yaml::field(y, "allowWorkspaceExec"@) matches Some(v) ==> v is Bool,
    ensures
        says_fs_rule(y, rule) ==> parser::read_fs_rule(y) == (match fs_fault(y, rule) {
            Some(m) => Err::<FsRuleModel, Seq<char>>(m),
            None => Ok(rule),
        }),
        yaml::field(y, "path"@) is None ==> parser::read_fs_rule(y) == Err::<FsRuleModel, Seq<char>>(
            "filesystem rule missing path"@,
        ),
{
    if says_fs_rule(y, rule) {
        climbing_is_two_dots(rule.path);
        let a = yaml::field(y, "access"@)->0;
        texts_read_back(a->List_0@, rule.access);
        assert(parser::writes(rule.access) <==> exists|i: int|
            0 <= i < rule.access.len() && changes(#[trigger] rule.access[i])) by {
            assert forall|i: int| 0 <= i < rule.access.len() implies (changes(#[trigger] rule.access[i])
                <==> parser::is_write_verb(rule.access[i])) by {}
        }
    }
}

proof fn fs_lists_read_back(list: Seq<Yaml>, rules: Seq<FsRuleModel>)
    requires
        list.len() == rules.len(),
        forall|i: int|
            0 <= i < list.len() ==> says_fs_rule(#[trigger] list[i], rules[i]) && fs_fault(list[i], rules[i]) is None
                && (yaml::field(list[i], "allowWorkspaceExec"@) matches Some(v) ==> v is Bool),
    ensures
        parser::read_fs_rules(list) == Ok::<Seq<FsRuleModel>, Seq<char>>(rules),
    decreases list.len(),
{
    if list.len() == 0 {
        assert(rules =~= Seq::<FsRuleModel>::empty());
    } else {
        let (front, before) = (list.drop_last(), rules.drop_last());
        assert forall|i: int| 0 <= i < front.len() implies says_fs_rule(#[trigger] front[i], before[i]) && fs_fault(
            front[i],
            before[i],
        ) is None && (yaml::field(front[i], "allowWorkspaceExec"@) matches Some(v) ==> v is Bool) by {
            assert(front[i] == list[i]);
        }
        fs_lists_read_back(front, before);
        assert(says_fs_rule(list[list.len() - 1], rules[rules.len() - 1]));
        fs_rules_read_back(list.last(), rules.last());
        assert(before.push(rules.last()) =~= rules);
    }
}

/// The first rule with something wrong decides what the document is answered.
pub proof fn the_first_faulty_rule_decides(list: Seq<Yaml>, k: int, rules: Seq<FsRuleModel>, rule: FsRuleModel)
    requires
        0 <= k < list.len(),
        rules.len() == k,
        forall|i: int|
            0 <= i < k ==> says_fs_rule(#[trigger] list[i], rules[i]) && fs_fault(list[i], rules[i]) is None && (
            yaml::field(list[i], "allowWorkspaceExec"@) matches Some(v) ==> v is Bool),
        says_fs_rule(list[k], rule),
        yaml::field(list[k], "allowWorkspaceExec"@) matches Some(v) ==> v is Bool,
        fs_fault(list[k], rule) is Some,
    ensures
        parser::read_fs_rules(list) == Err::<Seq<FsRuleModel>, Seq<char>>(fs_fault(list[k], rule)->0),
    decreases list.len(),
{
    let front = list.drop_last();
    if k == front.len() {
        assert forall|i: int| 0 <= i < front.len() implies says_fs_rule(#[trigger] front[i], rules[i]) && fs_fault(
            front[i],
            rules[i],
        ) is None && (yaml::field(front[i], "allowWorkspaceExec"@) matches Some(v) ==> v is Bool) by {
            assert(front[i] == list[i]);
        }
        fs_lists_read_back(front, rules);
        fs_rules_read_back(list[k], rule);
    } else {
        assert(front[k] == list[k]);
        assert forall|i: int| 0 <= i < k implies says_fs_rule(#[trigger] front[i], rules[i]) && fs_fault(
            front[i],
            rules[i],
        ) is None && (yaml::field(front[i], "allowWorkspaceExec"@) matches Some(v) ==> v is Bool) by {
            assert(front[i] == list[i]);
        }
        the_first_faulty_rule_decides(front, k, rules, rule);
    }
}

/// Whether a policy's author says that they know what an open default means.
pub open spec fn says_they_know(doc: Yaml) -> bool {
    yaml::field(doc, "runtime"@) matches Some(rt) && says_truth(rt, "iKnowWhatImDoing"@, Some(true))
}

/// Whether a section says its default: closed where it says so or says nothing.
pub open spec fn says_default(y: Yaml, default: AccessDefault) -> bool {
    match default {
        AccessDefault::Allow => says_text(y, "default"@, Some("allow"@)),
        AccessDefault::Deny => says_text(y, "default"@, Some("deny"@)) || yaml::field(y, "default"@) is None,
    }
}

proof fn defaults_read_back(doc: Yaml, y: Yaml, default: AccessDefault, refusal: Seq<char>)
    requires
        says_default(y, default),
        yaml::field(doc, "runtime"@) matches Some(rt) ==> (yaml::field(rt, "iKnowWhatImDoing"@) matches Some(v)
            ==> v is Bool),
    ensures
        parser::read_default(doc, y, refusal) == (if default is Allow && !says_they_know(doc) {
            Err::<AccessDefault, Seq<char>>(refusal)
        } else {
            Ok(default)
        }),
{
    reveal_strlit("deny");
    reveal_strlit("allow");
    assert("deny"@.len() == 4 && "allow"@.len() == 5);
    match yaml::field(doc, "runtime"@) {
        Some(rt) => {
            assert(yaml::at(doc, "runtime"@) == rt);
        },
        None => {
            assert(yaml::at(doc, "runtime"@) is Null);
            assert(yaml::field(Yaml::Null, "iKnowWhatImDoing"@) is None);
        },
    }
}

/// Whether a policy's body says a filesystem section.
pub open spec fn says_filesystem(doc: Yaml, fs: Option<FsPolicyModel>) -> bool {
    match fs {
        None => yaml::field(doc, "filesystem"@) is None,
        Some(m) => yaml::field(doc, "filesystem"@) matches Some(y) && {
            &&& says_default(y, m.default)
            &&& exists|list: Seq<Yaml>| #[trigger]
                holds_list(y, "rules"@, list) && list.len() == m.rules.len() && forall|i: int|
                    0 <= i < list.len() ==> says_fs_rule(#[trigger] list[i], m.rules[i]) && fs_fault(
                        list[i],
                        m.rules[i],
                    ) is None && (yaml::field(list[i], "allowWorkspaceExec"@) matches Some(v) ==> v is Bool)
        },
    }
}

/// Whether what a policy's author says of knowing what they do is yes or no.
pub open spec fn knowledge_is_plain(doc: Yaml) -> bool {
    yaml::field(doc, "runtime"@) matches Some(rt) ==> (yaml::field(rt, "iKnowWhatImDoing"@) matches Some(v)
        ==> v is Bool)
}

/// A filesystem section is read as it is said; one that is open by default takes an author who says
/// that they know what that means.
pub proof fn filesystem_sections_read_back(doc: Yaml, fs: Option<FsPolicyModel>)
    requires
        says_filesystem(doc, fs),
        knowledge_is_plain(doc),
    ensures
        parser::read_fs_policy(doc) == (if fs is Some && fs->0.default is Allow && !says_they_know(doc) {
            Err::<Option<FsPolicyModel>, Seq<char>>(
                "default: allow on filesystem requires spec.runtime.iKnowWhatImDoing: true"@,
            )
        } else {
            Ok(fs)
        }),
{
    if let Some(m) = fs {
        let y = yaml::field(doc, "filesystem"@)->0;
        defaults_read_back(
            doc,
            y,
            m.default,
            "default: allow on filesystem requires spec.runtime.iKnowWhatImDoing: true"@,
        );
        let list = choose|list: Seq<Yaml>| #[trigger]
            holds_list(y, "rules"@, list) && list.len() == m.rules.len() && forall|i: int|
                0 <= i < list.len() ==> says_fs_rule(#[trigger] list[i], m.rules[i]) && fs_fault(list[i], m.rules[i])
                    is None && (yaml::field(list[i], "allowWorkspaceExec"@) matches Some(v) ==> v is Bool);
        fs_lists_read_back(list, m.rules);
        assert(parser::list_or_empty(y, "rules"@) == list);
    }
}

/// Whether an entry of the exec list says a rule.
pub open spec fn says_exec(y: Yaml, rule: ExecRuleModel) -> bool {
    match rule {
        ExecRuleModel::Path { path, pin } => says_text(y, "path"@, Some(path)) && says_text(y, "pin"@, pin),
        ExecRuleModel::Prefix(p) => yaml::field(y, "path"@) is None && says_text(y, "prefix"@, Some(p)),
    }
}

/// What is wrong with an entry of the exec list.
pub open spec fn exec_fault(rule: ExecRuleModel) -> Option<Seq<char>> {
    match rule {
        ExecRuleModel::Path { path, pin: _ } => if path.len() == 0 || path[0] != '/' {
            Some("exec rule path must be absolute: "@ + path)
        } else if climbs(path) {
            Some("exec rule path must not contain '..': "@ + path)
        } else {
            None
        },
        ExecRuleModel::Prefix(p) => if p.len() == 0 || p[0] != '/' {
            Some("exec rule prefix must be absolute: "@ + p)
        } else if climbs(p) {
            Some("exec rule prefix must not contain '..': "@ + p)
        } else {
            None
        },
    }
}

/// An entry of the exec list is read as it is said, unless something is wrong with it; one that names
/// neither a path nor a prefix says nothing.
pub proof fn exec_entries_read_back(y: Yaml, rule: ExecRuleModel)
    ensures
        says_exec(y, rule) ==> parser::read_exec_entry(y) == (match exec_fault(rule) {
            Some(m) => Err::<Option<ExecRuleModel>, Seq<char>>(m),
            None => Ok(Some(rule)),
        }),
        yaml::field(y, "path"@) is None && yaml::field(y, "prefix"@) is None ==> parser::read_exec_entry(y) == Ok::<
            Option<ExecRuleModel>,
            Seq<char>,
        >(None),
{
    match rule {
        ExecRuleModel::Path { path, pin: _ } => climbing_is_two_dots(path),
        ExecRuleModel::Prefix(p) => climbing_is_two_dots(p),
    }
}

proof fn exec_lists_read_back(list: Seq<Yaml>, rules: Seq<ExecRuleModel>)
    requires
        list.len() == rules.len(),
        forall|i: int|
            0 <= i < list.len() ==> says_exec(#[trigger] list[i], rules[i]) && exec_fault(rules[i]) is None,
    ensures
        parser::read_exec_entries(list) == Ok::<Seq<ExecRuleModel>, Seq<char>>(rules),
    decreases list.len(),
{
    if list.len() == 0 {
        assert(rules =~= Seq::<ExecRuleModel>::empty());
    } else {
        let (front, before) = (list.drop_last(), rules.drop_last());
        assert forall|i: int| 0 <= i < front.len() implies says_exec(#[trigger] front[i], before[i]) && exec_fault(
            before[i],
        ) is None by {
            assert(front[i] == list[i]);
        }
        exec_lists_read_back(front, before);
        assert(says_exec(list[list.len() - 1], rules[rules.len() - 1]));
        exec_entries_read_back(list.last(), rules.last());
        assert(before.push(rules.last()) =~= rules);
    }
}

/// Whether a policy's body says an exec section.
pub open spec fn says_programs(doc: Yaml, programs: Option<ExecPolicyModel>) -> bool {
    match programs {
        None => yaml::field(doc, "exec"@) is None,
        Some(m) => yaml::field(doc, "exec"@) matches Some(y) && {
            &&& says_default(y, m.default)
            &&& exists|list: Seq<Yaml>| #[trigger]
                holds_list(y, "allow"@, list) && list.len() == m.allow.len() && forall|i: int|
                    0 <= i < list.len() ==> says_exec(#[trigger] list[i], m.allow[i]) && exec_fault(m.allow[i]) is None
        },
    }
}

/// An exec section is read as it is said; one that is open by default takes an author who says that
/// they know what that means.
pub proof fn exec_sections_read_back(doc: Yaml, programs: Option<ExecPolicyModel>)
    requires
        says_programs(doc, programs),
        knowledge_is_plain(doc),
    ensures
        parser::read_exec_policy(doc) == (if programs is Some && programs->0.default is Allow && !says_they_know(doc) {
            Err::<Option<ExecPolicyModel>, Seq<char>>(
                "default: allow on exec requires spec.runtime.iKnowWhatImDoing: true"@,
            )
        } else {
            Ok(programs)
        }),
{
    if let Some(m) = programs {
        let y = yaml::field(doc, "exec"@)->0;
        defaults_read_back(doc, y, m.default, "default: allow on exec requires spec.runtime.iKnowWhatImDoing: true"@);
        let list = choose|list: Seq<Yaml>| #[trigger]
            holds_list(y, "allow"@, list) && list.len() == m.allow.len() && forall|i: int|
                0 <= i < list.len() ==> says_exec(#[trigger] list[i], m.allow[i]) && exec_fault(m.allow[i]) is None;
        exec_lists_read_back(list, m.allow);
        assert(parser::list_or_empty(y, "allow"@) == list);
    }
}

/// Whether a policy's body says a runtime section.
pub open spec fn says_runtime(doc: Yaml, runtime: Option<RuntimeOptsModel>) -> bool {
    match runtime {
        None => yaml::field(doc, "runtime"@) is None,
        Some(m) => yaml::field(doc, "runtime"@) matches Some(y) && {
            &&& says_text(y, "seccompProfile"@, m.seccomp_profile)
            &&& says_number(
                y,
                "landlockAbiMin"@,
                match m.landlock_abi_min {
                    Some(n) => Some(n as u64),
                    None => None,
                },
            )
            &&& says_text(y, "timeout"@, m.timeout)
            &&& says_text(y, "maxIdle"@, m.max_idle)
        },
    }
}

/// Whether a policy's body says an audit section.
pub open spec fn says_audit(doc: Yaml, audit: Option<AuditOptsModel>) -> bool {
    match audit {
        None => yaml::field(doc, "audit"@) is None,
        Some(m) => yaml::field(doc, "audit"@) matches Some(y) && says_text(y, "level"@, m.level) && says_text(
            y,
            "sink"@,
            m.sink,
        ),
    }
}

/// The runtime and the audit section are read as they are said.
pub proof fn other_sections_read_back(doc: Yaml, runtime: Option<RuntimeOptsModel>, audit: Option<AuditOptsModel>)
    ensures
        says_runtime(doc, runtime) ==> parser::read_runtime_opts(doc) == runtime,
        says_audit(doc, audit) ==> parser::read_audit_opts(doc) == audit,
{
}

/// Whether a document says a policy: its kind and version, its name, and its sections in its body.
pub open spec fn says_policy(raw: Yaml, p: PolicyModel) -> bool {
    &&& p.api_version == "aivisor/v1"@ && (says_text(raw, "apiVersion"@, Some("aivisor/v1"@)) || yaml::field(
        raw,
        "apiVersion"@,
    ) is None)
    &&& p.kind == "SandboxPolicy"@ && (says_text(raw, "kind"@, Some("SandboxPolicy"@)) || yaml::field(raw, "kind"@)
        is None)
    &&& (yaml::field(raw, "metadata"@) matches Some(y) && says_text(y, "name"@, Some(p.metadata_name))) || (
    p.metadata_name == "default"@ && yaml::field(raw, "metadata"@) is None)
    &&& yaml::field(raw, "spec"@) matches Some(doc) && {
        &&& says_filesystem(doc, p.filesystem)
        &&& says_programs(doc, p.exec_policy)
        &&& says_network(doc, p.network)
        &&& says_runtime(doc, p.runtime)
        &&& says_audit(doc, p.audit)
        &&& knowledge_is_plain(doc)
        &&& p.filesystem is Some && p.filesystem->0.default is Allow ==> says_they_know(doc)
        &&& p.exec_policy is Some && p.exec_policy->0.default is Allow ==> says_they_know(doc)
    }
}

/// A document is read as the policy that it says.
pub proof fn policies_read_back(raw: Yaml, p: PolicyModel)
    requires
        says_policy(raw, p),
    ensures
        parser::read_policy(raw) == Ok::<PolicyModel, Seq<char>>(p),
{
    let doc = yaml::field(raw, "spec"@)->0;
    filesystem_sections_read_back(doc, p.filesystem);
    exec_sections_read_back(doc, p.exec_policy);
    network_sections_read_back(doc, p.network);
    other_sections_read_back(doc, p.runtime, p.audit);
    assert(yaml::field(Yaml::Null, "name"@) is None);
}

/// A document of another version or of another kind is refused.
pub proof fn other_documents_are_refused(raw: Yaml, said: Seq<char>)
    ensures
        says_text(raw, "apiVersion"@, Some(said)) && said != "aivisor/v1"@ ==> parser::read_policy(raw) == Err::<
            PolicyModel,
            Seq<char>,
        >("unsupported apiVersion: "@ + said),
        (says_text(raw, "apiVersion"@, Some("aivisor/v1"@)) || yaml::field(raw, "apiVersion"@) is None) && says_text(
            raw,
            "kind"@,
            Some(said),
        ) && said != "SandboxPolicy"@ ==> parser::read_policy(raw) == Err::<PolicyModel, Seq<char>>(
            "unsupported kind: "@ + said,
        ),
{
}

/// Whatever `parse_policy_str` answers with, a text whose YAML says a policy is read as that policy.
pub proof fn parse_policy_str_reads(doc: &str, answer: Result<Policy, Error>, p: PolicyModel)
    requires
        call_ensures(parser::parse_policy_str, (doc,), answer),
        yaml::parsed_yaml(doc@) matches Ok(raw) && says_policy(raw, p),
    ensures
        answer matches Ok(got) && got@ == p,
{
    policies_read_back(yaml::parsed_yaml(doc@)->Ok_0, p);
}

} // verus!
