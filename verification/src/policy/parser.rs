//! Reads policy documents.
use vstd::prelude::*;

use crate::error::Error;
use crate::policy::compile;
use crate::policy::compile::AccessDefault;
use crate::policy::compile::AuditOpts;
use crate::policy::compile::AuditOptsModel;
use crate::policy::compile::ExecPolicy;
use crate::policy::compile::ExecPolicyModel;
use crate::policy::compile::ExecRule;
use crate::policy::compile::ExecRuleModel;
use crate::policy::compile::FsPolicy;
use crate::policy::compile::FsPolicyModel;
use crate::policy::compile::FsRule;
use crate::policy::compile::FsRuleModel;
use crate::policy::compile::NetPolicy;
use crate::policy::compile::NetPolicyModel;
use crate::policy::compile::NetRule;
use crate::policy::compile::NetRuleModel;
use crate::policy::compile::Policy;
use crate::policy::compile::PolicyModel;
use crate::policy::compile::RuntimeOpts;
use crate::policy::compile::RuntimeOptsModel;
use crate::policy::yaml;
use crate::policy::yaml::Yaml;
use crate::text;

verus! {

/// `o`, or `d` where there is none.
pub open spec fn or<T>(o: Option<T>, d: T) -> T {
    match o {
        Some(t) => t,
        None => d,
    }
}

/// Whether a policy's author has said that they know what an open default means.
pub open spec fn knows(doc: Yaml) -> bool {
    or(yaml::as_truth(yaml::at(yaml::at(doc, "runtime"@), "iKnowWhatImDoing"@)), false)
}

/// Whether a path is one of the system's own.
pub open spec fn is_system_path(path: Seq<char>) -> bool {
    ||| path == "/"@
    ||| path == "/usr"@
    ||| path == "/etc"@
    ||| path == "/proc"@
    ||| path == "/sys"@
    ||| path == "/dev"@
}

/// Whether an access verb changes something.
pub open spec fn is_write_verb(verb: Seq<char>) -> bool {
    ||| verb == "write"@
    ||| verb == "create"@
    ||| verb == "delete"@
    ||| verb == "truncate"@
}

/// Whether a list of access verbs holds one that changes something.
pub open spec fn writes(access: Seq<Seq<char>>) -> bool {
    exists|i: int| 0 <= i < access.len() && is_write_verb(#[trigger] access[i])
}

/// Whether `path` is absolute.
pub open spec fn is_absolute(path: Seq<char>) -> bool {
    path.len() > 0 && path[0] == '/'
}

/// A filesystem rule, or what it is answered.
pub open spec fn read_fs_rule(rule: Yaml) -> Result<FsRuleModel, Seq<char>> {
    match yaml::as_text(yaml::at(rule, "path"@)) {
        None => Err("filesystem rule missing path"@),
        Some(path) => {
            let access = yaml::texts_at(rule, "access"@);
            if !is_absolute(path) {
                Err("filesystem path must be absolute: "@ + path)
            } else if text::has_part(path, ".."@) {
                Err("filesystem path must not contain '..': "@ + path)
            } else if access.contains("execute"@) && path == "/workspace"@ && !or(
                yaml::as_truth(yaml::at(rule, "allowWorkspaceExec"@)),
                false,
            ) {
                Err("execute on /workspace requires allowWorkspaceExec: true"@)
            } else if is_system_path(path) && writes(access) {
                Err("cannot grant write access to system path: "@ + path)
            } else {
                Ok(
                    FsRuleModel {
                        path,
                        access,
                        recursive: or(yaml::as_truth(yaml::at(rule, "recursive"@)), false),
                    },
                )
            }
        },
    }
}

/// The filesystem rules of a list, or what the first that is refused is answered.
pub open spec fn read_fs_rules(list: Seq<Yaml>) -> Result<Seq<FsRuleModel>, Seq<char>>
    decreases list.len(),
{
    if list.len() == 0 {
        Ok(Seq::empty())
    } else {
        match read_fs_rules(list.drop_last()) {
            Err(m) => Err(m),
            Ok(before) => match read_fs_rule(list.last()) {
                Err(m) => Err(m),
                Ok(rule) => Ok(before.push(rule)),
            },
        }
    }
}

/// The default of the filesystem or the exec section: open only where the author knows.
pub open spec fn read_default(doc: Yaml, section: Yaml, refusal: Seq<char>) -> Result<AccessDefault, Seq<char>> {
    if yaml::as_text(yaml::at(section, "default"@)) == Some("allow"@) {
        if knows(doc) {
            Ok(AccessDefault::Allow)
        } else {
            Err(refusal)
        }
    } else {
        Ok(AccessDefault::Deny)
    }
}

/// The list under `key`, or the empty one.
pub open spec fn list_or_empty(y: Yaml, key: Seq<char>) -> Seq<Yaml> {
    or(yaml::as_list(yaml::at(y, key)), Seq::empty())
}

/// The filesystem section of a policy's body, or what it is answered.
pub open spec fn read_fs_policy(doc: Yaml) -> Result<Option<FsPolicyModel>, Seq<char>> {
    match yaml::field(doc, "filesystem"@) {
        None => Ok(None),
        Some(fs) => match read_default(
            doc,
            fs,
            "default: allow on filesystem requires spec.runtime.iKnowWhatImDoing: true"@,
        ) {
            Err(m) => Err(m),
            Ok(default) => match read_fs_rules(list_or_empty(fs, "rules"@)) {
                Err(m) => Err(m),
                Ok(rules) => Ok(Some(FsPolicyModel { default, rules })),
            },
        },
    }
}

/// An exec entry, or what it is answered; an entry that names nothing is passed over.
pub open spec fn read_exec_entry(entry: Yaml) -> Result<Option<ExecRuleModel>, Seq<char>> {
    match yaml::as_text(yaml::at(entry, "path"@)) {
        Some(path) => if !is_absolute(path) {
            Err("exec rule path must be absolute: "@ + path)
        } else if text::has_part(path, ".."@) {
            Err("exec rule path must not contain '..': "@ + path)
        } else {
            Ok(Some(ExecRuleModel::Path { path, pin: yaml::as_text(yaml::at(entry, "pin"@)) }))
        },
        None => match yaml::as_text(yaml::at(entry, "prefix"@)) {
            Some(prefix) => if !is_absolute(prefix) {
                Err("exec rule prefix must be absolute: "@ + prefix)
            } else if text::has_part(prefix, ".."@) {
                Err("exec rule prefix must not contain '..': "@ + prefix)
            } else {
                Ok(Some(ExecRuleModel::Prefix(prefix)))
            },
            None => Ok(None),
        },
    }
}

/// The exec entries of a list, or what the first that is refused is answered.
pub open spec fn read_exec_entries(list: Seq<Yaml>) -> Result<Seq<ExecRuleModel>, Seq<char>>
    decreases list.len(),
{
    if list.len() == 0 {
        Ok(Seq::empty())
    } else {
        match read_exec_entries(list.drop_last()) {
            Err(m) => Err(m),
            Ok(before) => match read_exec_entry(list.last()) {
                Err(m) => Err(m),
                Ok(Some(rule)) => Ok(before.push(rule)),
                Ok(None) => Ok(before),
            },
        }
    }
}

/// The exec section of a policy's body, or what it is answered.
pub open spec fn read_exec_policy(doc: Yaml) -> Result<Option<ExecPolicyModel>, Seq<char>> {
    match yaml::field(doc, "exec"@) {
        None => Ok(None),
        Some(section) => match read_default(
            doc,
            section,
            "default: allow on exec requires spec.runtime.iKnowWhatImDoing: true"@,
        ) {
            Err(m) => Err(m),
            Ok(default) => match read_exec_entries(list_or_empty(section, "allow"@)) {
                Err(m) => Err(m),
                Ok(allow) => Ok(Some(ExecPolicyModel { default, allow })),
            },
        },
    }
}

/// The numbers among the elements of a list as ports: each modulo the number of ports.
pub open spec fn ports_among(list: Seq<Yaml>) -> Seq<u16>
    decreases list.len(),
{
    if list.len() == 0 {
        Seq::empty()
    } else {
        let before = ports_among(list.drop_last());
        match yaml::as_number(list.last()) {
            Some(n) => before.push((n % 65536) as u16),
            None => before,
        }
    }
}

/// An egress entry; one that is neither `via` nor `direct` is passed over.
pub open spec fn read_egress_entry(entry: Yaml) -> Option<NetRuleModel> {
    if yaml::field(entry, "via"@) is Some {
        Some(
            NetRuleModel::BrokerRoute {
                hosts: yaml::texts_at(entry, "hosts"@),
                methods: yaml::texts_at(entry, "methods"@),
            },
        )
    } else if yaml::field(entry, "direct"@) is Some {
        Some(
            NetRuleModel::Direct {
                cidr: or(yaml::as_text(yaml::at(entry, "cidr"@)), Seq::empty()),
                ports: ports_among(list_or_empty(entry, "ports"@)),
            },
        )
    } else {
        None
    }
}

/// The egress entries of a list.
pub open spec fn read_egress(list: Seq<Yaml>) -> Seq<NetRuleModel>
    decreases list.len(),
{
    if list.len() == 0 {
        Seq::empty()
    } else {
        let before = read_egress(list.drop_last());
        match read_egress_entry(list.last()) {
            Some(rule) => before.push(rule),
            None => before,
        }
    }
}

/// The network section of a policy's body, or what it is answered.
pub open spec fn read_net_policy(doc: Yaml) -> Result<Option<NetPolicyModel>, Seq<char>> {
    match yaml::field(doc, "network"@) {
        None => Ok(None),
        Some(net) => if yaml::as_text(yaml::at(net, "default"@)) == Some("allow"@) {
            Err("network default: allow is not supported in Phase 2; use default: deny"@)
        } else {
            Ok(
                Some(
                    NetPolicyModel {
                        default: AccessDefault::Deny,
                        egress: read_egress(list_or_empty(net, "egress"@)),
                        block_metadata: or(yaml::as_truth(yaml::at(net, "blockMetadata"@)), true),
                        dns_policy: yaml::as_text(yaml::at(net, "dnsPolicy"@)),
                    },
                ),
            )
        },
    }
}

/// The runtime section of a policy's body.
pub open spec fn read_runtime_opts(doc: Yaml) -> Option<RuntimeOptsModel> {
    match yaml::field(doc, "runtime"@) {
        None => None,
        Some(rt) => Some(
            RuntimeOptsModel {
                seccomp_profile: yaml::as_text(yaml::at(rt, "seccompProfile"@)),
                landlock_abi_min: match yaml::as_number(yaml::at(rt, "landlockAbiMin"@)) {
                    Some(n) => Some((n % 4294967296) as u32),
                    None => None,
                },
                timeout: yaml::as_text(yaml::at(rt, "timeout"@)),
                max_idle: yaml::as_text(yaml::at(rt, "maxIdle"@)),
            },
        ),
    }
}

/// The audit section of a policy's body.
pub open spec fn read_audit_opts(doc: Yaml) -> Option<AuditOptsModel> {
    match yaml::field(doc, "audit"@) {
        None => None,
        Some(a) => Some(
            AuditOptsModel {
                level: yaml::as_text(yaml::at(a, "level"@)),
                sink: yaml::as_text(yaml::at(a, "sink"@)),
            },
        ),
    }
}

/// The policy that a document writes, or what the document is answered.
pub open spec fn read_policy(raw: Yaml) -> Result<PolicyModel, Seq<char>> {
    let api_version = or(yaml::as_text(yaml::at(raw, "apiVersion"@)), "aivisor/v1"@);
    let kind = or(yaml::as_text(yaml::at(raw, "kind"@)), "SandboxPolicy"@);
    let doc = yaml::at(raw, "spec"@);
    if api_version != "aivisor/v1"@ {
        Err("unsupported apiVersion: "@ + api_version)
    } else if kind != "SandboxPolicy"@ {
        Err("unsupported kind: "@ + kind)
    } else {
        match (read_fs_policy(doc), read_exec_policy(doc), read_net_policy(doc)) {
            (Err(m), _, _) => Err(m),
            (_, Err(m), _) => Err(m),
            (_, _, Err(m)) => Err(m),
            (Ok(filesystem), Ok(exec_policy), Ok(network)) => Ok(
                PolicyModel {
                    api_version,
                    kind,
                    metadata_name: or(
                        yaml::as_text(yaml::at(yaml::at(raw, "metadata"@), "name"@)),
                        "default"@,
                    ),
                    filesystem,
                    exec_policy,
                    network,
                    runtime: read_runtime_opts(doc),
                    audit: read_audit_opts(doc),
                },
            ),
        }
    }
}

/// What a reader returned, as plain values; every error is that the policy is invalid.
pub open spec fn result_is<T: View>(r: Result<T, Error>, want: Result<T::V, Seq<char>>) -> bool {
    match (r, want) {
        (Ok(t), Ok(m)) => t@ == m,
        (Err(Error::PolicyInvalid(text)), Err(m)) => text@ == m,
        _ => false,
    }
}

/// As `result_is`, for an optional value.
pub open spec fn optional_is<T: View>(r: Result<Option<T>, Error>, want: Result<Option<T::V>, Seq<char>>) -> bool {
    match (r, want) {
        (Ok(t), Ok(m)) => compile::opt_view(t) == m,
        (Err(Error::PolicyInvalid(text)), Err(m)) => text@ == m,
        _ => false,
    }
}

/// As `result_is`, for a list.
pub open spec fn list_is<T: View>(r: Result<Vec<T>, Error>, want: Result<Seq<T::V>, Seq<char>>) -> bool {
    match (r, want) {
        (Ok(t), Ok(m)) => compile::views(t@) == m,
        (Err(Error::PolicyInvalid(text)), Err(m)) => text@ == m,
        _ => false,
    }
}

/// The error with a text and what it is about.
fn invalid(what: &str, about: &str) -> (r: Error)
    ensures
        r matches Error::PolicyInvalid(m) && m@ == what@ + about@,
{
    let mut m = what.to_owned();
    m.append(about);
    Error::PolicyInvalid(m)
}

/// Whether `path` is absolute.
fn absolute(path: &str) -> (r: bool)
    ensures
        r == is_absolute(path@),
{
    proof {
        reveal_strlit("/");
        if is_absolute(path@) {
            assert("/"@ =~= path@.subrange(0, 1));
        }
        if "/"@.is_prefix_of(path@) {
            assert(path@.subrange(0, 1)[0] == '/');
        }
    }
    text::starts_with(path, "/")
}

/// Whether a path is one of the system's own.
fn system_path(path: &str) -> (r: bool)
    ensures
        r == is_system_path(path@),
{
    text::same(path, "/") || text::same(path, "/usr") || text::same(path, "/etc") || text::same(path, "/proc")
        || text::same(path, "/sys") || text::same(path, "/dev")
}

/// Whether a list of access verbs holds one that changes something, and whether it holds
/// `execute`.
fn scan_access(access: &Vec<String>) -> (r: (bool, bool))
    ensures
        r.0 == writes(text::texts(access@)),
        r.1 == text::texts(access@).contains("execute"@),
{
    let ghost all = text::texts(access@);
    let mut changes = false;
    let mut executes = false;
    let mut i: usize = 0;
    while i < access.len()
        invariant
            i <= access@.len(),
            all == text::texts(access@),
            changes <==> exists|j: int| 0 <= j < i && is_write_verb(#[trigger] all[j]),
            executes <==> exists|j: int| 0 <= j < i && #[trigger] all[j] == "execute"@,
        decreases access@.len() - i,
    {
        let verb = access[i].as_str();
        proof {
            assert(all[i as int] == verb@);
        }
        if text::same(verb, "write") || text::same(verb, "create") || text::same(verb, "delete") || text::same(
            verb,
            "truncate",
        ) {
            changes = true;
        }
        if text::same(verb, "execute") {
            executes = true;
        }
        i = i + 1;
    }
    (changes, executes)
}

/// Reads a filesystem rule.
fn parse_fs_rule(rule: &Yaml) -> (r: Result<FsRule, Error>)
    ensures
        result_is(r, read_fs_rule(*rule)),
{
    let path = match rule.text_at("path") {
        Some(p) => p,
        None => {
            return Err(Error::PolicyInvalid("filesystem rule missing path".to_owned()));
        },
    };
    if !absolute(path.as_str()) {
        return Err(invalid("filesystem path must be absolute: ", path.as_str()));
    }
    if text::contains(path.as_str(), "..") {
        return Err(invalid("filesystem path must not contain '..': ", path.as_str()));
    }
    let access = rule.strings_at("access");
    let (changes, executes) = scan_access(&access);
    if executes {
        let allow_ws = rule.truth_at("allowWorkspaceExec").unwrap_or(false);
        if text::same(path.as_str(), "/workspace") && !allow_ws {
            return Err(
                Error::PolicyInvalid("execute on /workspace requires allowWorkspaceExec: true".to_owned()),
            );
        }
    }
    if system_path(path.as_str()) && changes {
        return Err(invalid("cannot grant write access to system path: ", path.as_str()));
    }
    let recursive = rule.truth_at("recursive").unwrap_or(false);
    Ok(FsRule { path, access, recursive })
}

/// A rule that is refused decides, whatever follows it.
proof fn fs_rules_stuck(list: Seq<Yaml>, i: int)
    requires
        0 <= i < list.len(),
        read_fs_rules(list.take(i + 1)) is Err,
    ensures
        read_fs_rules(list) == read_fs_rules(list.take(i + 1)),
    decreases list.len(),
{
    if i + 1 < list.len() {
        assert(list.drop_last().take(i + 1) =~= list.take(i + 1));
        fs_rules_stuck(list.drop_last(), i);
    } else {
        assert(list.take(i + 1) =~= list);
    }
}

/// Reads a list of filesystem rules.
fn parse_fs_rules(list: &Vec<Yaml>) -> (r: Result<Vec<FsRule>, Error>)
    ensures
        list_is(r, read_fs_rules(list@)),
{
    let mut rules: Vec<FsRule> = Vec::new();
    let mut i: usize = 0;
    proof {
        assert(compile::views(rules@) =~= Seq::<FsRuleModel>::empty());
    }
    while i < list.len()
        invariant
            i <= list@.len(),
            read_fs_rules(list@.take(i as int)) == Ok::<Seq<FsRuleModel>, Seq<char>>(compile::views(rules@)),
        decreases list@.len() - i,
    {
        proof {
            assert(list@.take(i + 1).drop_last() =~= list@.take(i as int));
        }
        match parse_fs_rule(&list[i]) {
            Ok(rule) => {
                let ghost done = compile::views(rules@);
                let ghost model = rule@;
                rules.push(rule);
                proof {
                    assert(compile::views(rules@) =~= done.push(model));
                }
            },
            Err(e) => {
                proof {
                    fs_rules_stuck(list@, i as int);
                }
                return Err(e);
            },
        }
        i = i + 1;
    }
    proof {
        assert(list@.take(i as int) =~= list@);
    }
    Ok(rules)
}

/// Reads the default of the filesystem or the exec section.
fn parse_default(doc: &Yaml, section: &Yaml, refusal: &str) -> (r: Result<AccessDefault, Error>)
    ensures
        match (r, read_default(*doc, *section, refusal@)) {
            (Ok(d), Ok(want)) => d == want,
            (Err(Error::PolicyInvalid(m)), Err(want)) => m@ == want,
            _ => false,
        },
{
    let knows = match doc.get("runtime") {
        Some(rt) => rt.truth_at("iKnowWhatImDoing").unwrap_or(false),
        None => false,
    };
    let open = match section.text_at("default") {
        Some(d) => text::same(d.as_str(), "allow"),
        None => false,
    };
    if open {
        if knows {
            Ok(AccessDefault::Allow)
        } else {
            Err(Error::PolicyInvalid(refusal.to_owned()))
        }
    } else {
        Ok(AccessDefault::Deny)
    }
}

/// Reads the filesystem section.
pub fn parse_fs_policy(doc: &Yaml) -> (r: Result<Option<FsPolicy>, Error>)
    ensures
        optional_is(r, read_fs_policy(*doc)),
{
    let fs = match doc.get("filesystem") {
        Some(v) => v,
        None => {
            return Ok(None);
        },
    };
    let default = match parse_default(
        doc,
        fs,
        "default: allow on filesystem requires spec.runtime.iKnowWhatImDoing: true",
    ) {
        Ok(d) => d,
        Err(e) => {
            return Err(e);
        },
    };
    let rules = match fs.list_at("rules") {
        Some(list) => match parse_fs_rules(list) {
            Ok(rules) => rules,
            Err(e) => {
                return Err(e);
            },
        },
        None => Vec::new(),
    };
    proof {
        if yaml::as_list(yaml::at(*fs, "rules"@)) is None {
            assert(compile::views(rules@) =~= Seq::<FsRuleModel>::empty());
        }
    }
    Ok(Some(FsPolicy { default, rules }))
}

/// Reads an exec entry.
fn parse_exec_entry(entry: &Yaml) -> (r: Result<Option<ExecRule>, Error>)
    ensures
        optional_is(r, read_exec_entry(*entry)),
{
    if let Some(path) = entry.text_at("path") {
        if !absolute(path.as_str()) {
            return Err(invalid("exec rule path must be absolute: ", path.as_str()));
        }
        if text::contains(path.as_str(), "..") {
            return Err(invalid("exec rule path must not contain '..': ", path.as_str()));
        }
        return Ok(Some(ExecRule::Path { path, pin: entry.text_at("pin") }));
    }
    if let Some(prefix) = entry.text_at("prefix") {
        if !absolute(prefix.as_str()) {
            return Err(invalid("exec rule prefix must be absolute: ", prefix.as_str()));
        }
        if text::contains(prefix.as_str(), "..") {
            return Err(invalid("exec rule prefix must not contain '..': ", prefix.as_str()));
        }
        return Ok(Some(ExecRule::Prefix(prefix)));
    }
    Ok(None)
}

/// An entry that is refused decides, whatever follows it.
proof fn exec_entries_stuck(list: Seq<Yaml>, i: int)
    requires
        0 <= i < list.len(),
        read_exec_entries(list.take(i + 1)) is Err,
    ensures
        read_exec_entries(list) == read_exec_entries(list.take(i + 1)),
    decreases list.len(),
{
    if i + 1 < list.len() {
        assert(list.drop_last().take(i + 1) =~= list.take(i + 1));
        exec_entries_stuck(list.drop_last(), i);
    } else {
        assert(list.take(i + 1) =~= list);
    }
}

/// Reads a list of exec entries.
fn parse_exec_entries(list: &Vec<Yaml>) -> (r: Result<Vec<ExecRule>, Error>)
    ensures
        list_is(r, read_exec_entries(list@)),
{
    let mut allow: Vec<ExecRule> = Vec::new();
    let mut i: usize = 0;
    proof {
        assert(compile::views(allow@) =~= Seq::<ExecRuleModel>::empty());
    }
    while i < list.len()
        invariant
            i <= list@.len(),
            read_exec_entries(list@.take(i as int)) == Ok::<Seq<ExecRuleModel>, Seq<char>>(compile::views(allow@)),
        decreases list@.len() - i,
    {
        proof {
            assert(list@.take(i + 1).drop_last() =~= list@.take(i as int));
        }
        match parse_exec_entry(&list[i]) {
            Ok(Some(rule)) => {
                let ghost done = compile::views(allow@);
                let ghost model = rule@;
                allow.push(rule);
                proof {
                    assert(compile::views(allow@) =~= done.push(model));
                }
            },
            Ok(None) => {},
            Err(e) => {
                proof {
                    exec_entries_stuck(list@, i as int);
                }
                return Err(e);
            },
        }
        i = i + 1;
    }
    proof {
        assert(list@.take(i as int) =~= list@);
    }
    Ok(allow)
}

/// Reads the exec section.
pub fn parse_exec_policy(doc: &Yaml) -> (r: Result<Option<ExecPolicy>, Error>)
    ensures
        optional_is(r, read_exec_policy(*doc)),
{
    let section = match doc.get("exec") {
        Some(v) => v,
        None => {
            return Ok(None);
        },
    };
    let default = match parse_default(
        doc,
        section,
        "default: allow on exec requires spec.runtime.iKnowWhatImDoing: true",
    ) {
        Ok(d) => d,
        Err(e) => {
            return Err(e);
        },
    };
    let allow = match section.list_at("allow") {
        Some(list) => match parse_exec_entries(list) {
            Ok(allow) => allow,
            Err(e) => {
                return Err(e);
            },
        },
        None => Vec::new(),
    };
    proof {
        if yaml::as_list(yaml::at(*section, "allow"@)) is None {
            assert(compile::views(allow@) =~= Seq::<ExecRuleModel>::empty());
        }
    }
    Ok(Some(ExecPolicy { default, allow }))
}

/// The ports under `ports`.
fn parse_ports(entry: &Yaml) -> (r: Vec<u16>)
    ensures
        r@ == ports_among(list_or_empty(*entry, "ports"@)),
{
    let mut ports: Vec<u16> = Vec::new();
    if let Some(list) = entry.list_at("ports") {
        let mut i: usize = 0;
        while i < list.len()
            invariant
                i <= list@.len(),
                ports@ == ports_among(list@.take(i as int)),
            decreases list@.len() - i,
        {
            proof {
                assert(list@.take(i + 1).drop_last() =~= list@.take(i as int));
            }
            if let Yaml::Number(Some(n), _) = list[i].untag() {
                ports.push((*n % 65536) as u16);
            }
            i = i + 1;
        }
        proof {
            assert(list@.take(i as int) =~= list@);
        }
    }
    ports
}

/// Reads an egress entry.
fn parse_egress_entry(entry: &Yaml) -> (r: Option<NetRule>)
    ensures
        compile::opt_view(r) == read_egress_entry(*entry),
{
    if entry.get("via").is_some() {
        Some(NetRule::BrokerRoute { hosts: entry.strings_at("hosts"), methods: entry.strings_at("methods") })
    } else if entry.get("direct").is_some() {
        let cidr = match entry.text_at("cidr") {
            Some(c) => c,
            None => String::new(),
        };
        Some(NetRule::Direct { cidr, ports: parse_ports(entry) })
    } else {
        None
    }
}

/// Reads the network section.
pub fn parse_net_policy(doc: &Yaml) -> (r: Result<Option<NetPolicy>, Error>)
    ensures
        optional_is(r, read_net_policy(*doc)),
{
    let net = match doc.get("network") {
        Some(v) => v,
        None => {
            return Ok(None);
        },
    };
    let open = match net.text_at("default") {
        Some(d) => text::same(d.as_str(), "allow"),
        None => false,
    };
    if open {
        return Err(
            Error::PolicyInvalid(
                "network default: allow is not supported in Phase 2; use default: deny".to_owned(),
            ),
        );
    }
    let mut egress: Vec<NetRule> = Vec::new();
    proof {
        assert(compile::views(egress@) =~= Seq::<NetRuleModel>::empty());
    }
    if let Some(list) = net.list_at("egress") {
        let mut i: usize = 0;
        while i < list.len()
            invariant
                i <= list@.len(),
                compile::views(egress@) == read_egress(list@.take(i as int)),
            decreases list@.len() - i,
        {
            proof {
                assert(list@.take(i + 1).drop_last() =~= list@.take(i as int));
            }
            if let Some(rule) = parse_egress_entry(&list[i]) {
                let ghost done = compile::views(egress@);
                let ghost model = rule@;
                egress.push(rule);
                proof {
                    assert(compile::views(egress@) =~= done.push(model));
                }
            }
            i = i + 1;
        }
        proof {
            assert(list@.take(i as int) =~= list@);
        }
    }
    Ok(
        Some(
            NetPolicy {
                default: AccessDefault::Deny,
                egress,
                block_metadata: net.truth_at("blockMetadata").unwrap_or(true),
                dns_policy: net.text_at("dnsPolicy"),
            },
        ),
    )
}

/// Reads the runtime section.
pub fn parse_runtime_opts(doc: &Yaml) -> (r: Option<RuntimeOpts>)
    ensures
        compile::opt_view(r) == read_runtime_opts(*doc),
{
    match doc.get("runtime") {
        None => None,
        Some(rt) => Some(
            RuntimeOpts {
                seccomp_profile: rt.text_at("seccompProfile"),
                landlock_abi_min: match rt.number_at("landlockAbiMin") {
                    Some(n) => Some((n % 4294967296) as u32),
                    None => None,
                },
                timeout: rt.text_at("timeout"),
                max_idle: rt.text_at("maxIdle"),
            },
        ),
    }
}

/// Reads the audit section.
pub fn parse_audit_opts(doc: &Yaml) -> (r: Option<AuditOpts>)
    ensures
        compile::opt_view(r) == read_audit_opts(*doc),
{
    match doc.get("audit") {
        None => None,
        Some(a) => Some(AuditOpts { level: a.text_at("level"), sink: a.text_at("sink") }),
    }
}

/// Reads a policy from a document's value.
pub fn policy_from_value(raw: &Yaml) -> (r: Result<Policy, Error>)
    ensures
        result_is(r, read_policy(*raw)),
{
    let null = Yaml::Null;
    let api_version = match raw.text_at("apiVersion") {
        Some(v) => v,
        None => "aivisor/v1".to_owned(),
    };
    if !text::same(api_version.as_str(), "aivisor/v1") {
        return Err(invalid("unsupported apiVersion: ", api_version.as_str()));
    }
    let kind = match raw.text_at("kind") {
        Some(v) => v,
        None => "SandboxPolicy".to_owned(),
    };
    if !text::same(kind.as_str(), "SandboxPolicy") {
        return Err(invalid("unsupported kind: ", kind.as_str()));
    }
    let metadata = match raw.get("metadata") {
        Some(v) => v,
        None => &null,
    };
    let metadata_name = match metadata.text_at("name") {
        Some(v) => v,
        None => "default".to_owned(),
    };
    let doc = match raw.get("spec") {
        Some(v) => v,
        None => &null,
    };
    let filesystem = match parse_fs_policy(doc) {
        Ok(s) => s,
        Err(e) => {
            return Err(e);
        },
    };
    let exec_policy = match parse_exec_policy(doc) {
        Ok(s) => s,
        Err(e) => {
            return Err(e);
        },
    };
    let network = match parse_net_policy(doc) {
        Ok(s) => s,
        Err(e) => {
            return Err(e);
        },
    };
    let runtime = parse_runtime_opts(doc);
    let audit = parse_audit_opts(doc);
    Ok(Policy { api_version, kind, metadata_name, filesystem, exec_policy, network, runtime, audit })
}

/// Reads a policy from YAML text.
pub fn parse_policy_str(text: &str) -> (r: Result<Policy, Error>)
    ensures
        match yaml::parsed_yaml(text@) {
            Ok(raw) => result_is(r, read_policy(raw)),
            Err(m) => r matches Err(Error::PolicyInvalid(got)) && got@ == "YAML parse: "@ + m,
        },
{
    match yaml::read_yaml(text) {
        Ok(raw) => policy_from_value(&raw),
        Err(m) => Err(invalid("YAML parse: ", m.as_str())),
    }
}

/// A filesystem rule of a policy that was read names an absolute path without `..`, and never
/// lets a system path be changed.
pub proof fn read_rules_are_safe(list: Seq<Yaml>, i: int)
    requires
        read_fs_rules(list) is Ok,
        0 <= i < read_fs_rules(list)->Ok_0.len(),
    ensures
        ({
            let rule = read_fs_rules(list)->Ok_0[i];
            &&& is_absolute(rule.path)
            &&& !text::has_part(rule.path, ".."@)
            &&& !(is_system_path(rule.path) && writes(rule.access))
        }),
    decreases list.len(),
{
    if list.len() > 0 {
        let before = read_fs_rules(list.drop_last())->Ok_0;
        if i < before.len() {
            read_rules_are_safe(list.drop_last(), i);
            assert(read_fs_rules(list)->Ok_0[i] == before[i]);
        }
    }
}

/// A policy that was read denies by default, unless its author has said that they know what an
/// open default means; the network is denied by default in any case.
pub proof fn read_policy_denies_by_default(raw: Yaml)
    requires
        read_policy(raw) is Ok,
    ensures
        ({
            let p = read_policy(raw)->Ok_0;
            let doc = yaml::at(raw, "spec"@);
            &&& p.filesystem matches Some(s) ==> s.default == AccessDefault::Deny || knows(doc)
            &&& p.exec_policy matches Some(s) ==> s.default == AccessDefault::Deny || knows(doc)
            &&& p.network matches Some(s) ==> s.default == AccessDefault::Deny
        }),
{
}

} // verus!
