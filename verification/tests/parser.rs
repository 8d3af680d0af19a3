use aivisor::policy::compile::{AccessDefault, ExecRule, NetRule};
use aivisor::policy::parser::{
    parse_audit_opts, parse_exec_policy, parse_fs_policy, parse_net_policy, parse_policy_str, parse_runtime_opts,
    policy_from_value,
};
use aivisor::policy::yaml::{read_yaml, Yaml};

fn minimal_yaml() -> &'static str {
    r#"
apiVersion: aivisor/v1
kind: SandboxPolicy
metadata:
  name: test-policy
spec:
  filesystem:
    default: deny
    rules:
      - path: /workspace
        access: [read, write, create, delete]
        recursive: true
  exec:
    default: deny
    allow:
      - path: /usr/bin/python3
"#
}

#[test]
fn test_parse_minimal_policy() {
    let policy = parse_policy_str(minimal_yaml()).unwrap();
    assert_eq!(policy.metadata_name, "test-policy");
    assert!(policy.filesystem.is_some());
    assert!(policy.exec_policy.is_some());
    assert!(policy.network.is_none());
}

#[test]
fn test_parse_full_policy() {
    let yaml = r#"
apiVersion: aivisor/v1
kind: SandboxPolicy
metadata:
  name: full-policy
spec:
  filesystem:
    default: deny
    rules:
      - path: /workspace
        access: [read, write, create, delete, truncate]
      - path: /usr
        access: [read, execute]
      - path: /tmp
        access: [read, write, create, delete]
      - path: /etc/ssl/certs
        access: [read]
  exec:
    default: deny
    allow:
      - path: /usr/bin/python3
        pin: sha256:abcdef1234567890abcdef1234567890abcdef1234567890abcdef1234567890
      - path: /usr/bin/bash
      - prefix: /usr/lib/python3.12/
  network:
    default: deny
    egress:
      - via: broker
        hosts: [pypi.org, github.com]
        methods: [GET]
      - direct:
        cidr: 10.42.0.0/16
        ports: [5432]
    blockMetadata: true
    dnsPolicy: broker-pinned
  runtime:
    seccompProfile: aivisor-default
    landlockAbiMin: 3
    timeout: 30m
    maxIdle: 10m
  audit:
    level: allow+deny
    sink: otlp
"#;
    let policy = parse_policy_str(yaml).unwrap();
    assert_eq!(policy.metadata_name, "full-policy");

    // Filesystem
    let fs = policy.filesystem.unwrap();
    assert_eq!(fs.rules.len(), 4);
    assert!(fs.rules.iter().any(|r| r.path == "/workspace"));

    // Exec
    let exec_policy = policy.exec_policy.unwrap();
    assert_eq!(exec_policy.allow.len(), 3);
    assert!(
        matches!(&exec_policy.allow[0], ExecRule::Path { path, .. } if path == "/usr/bin/python3")
    );

    // Network
    let net = policy.network.unwrap();
    assert!(net.block_metadata);
    assert_eq!(net.dns_policy.as_deref(), Some("broker-pinned"));
    assert_eq!(net.egress.len(), 2);
    assert!(
        matches!(&net.egress[0], NetRule::BrokerRoute { hosts, .. } if hosts.contains(&"pypi.org".into()))
    );

    // Runtime
    let rt = policy.runtime.unwrap();
    assert_eq!(rt.seccomp_profile.as_deref(), Some("aivisor-default"));
    assert_eq!(rt.landlock_abi_min, Some(3));

    // Audit
    let audit = policy.audit.unwrap();
    assert_eq!(audit.level.as_deref(), Some("allow+deny"));
}

#[test]
fn test_reject_fs_default_allow_without_flag() {
    let yaml = r#"
apiVersion: aivisor/v1
kind: SandboxPolicy
metadata:
  name: bad
spec:
  filesystem:
    default: allow
"#;
    let err = parse_policy_str(yaml).unwrap_err();
    assert!(err.to_string().contains("iKnowWhatImDoing"));
}

#[test]
fn test_reject_exec_default_allow_without_flag() {
    let yaml = r#"
apiVersion: aivisor/v1
kind: SandboxPolicy
metadata:
  name: bad
spec:
  exec:
    default: allow
"#;
    let err = parse_policy_str(yaml).unwrap_err();
    assert!(err.to_string().contains("iKnowWhatImDoing"));
}

#[test]
fn test_accept_default_allow_with_flag() {
    let yaml = r#"
apiVersion: aivisor/v1
kind: SandboxPolicy
metadata:
  name: permissive
spec:
  runtime:
    iKnowWhatImDoing: true
  filesystem:
    default: allow
  exec:
    default: allow
"#;
    let policy = parse_policy_str(yaml).unwrap();
    assert_eq!(
        policy.filesystem.unwrap().default,
        AccessDefault::Allow
    );
    assert_eq!(
        policy.exec_policy.unwrap().default,
        AccessDefault::Allow
    );
}

#[test]
fn test_reject_relative_path() {
    let yaml = r#"
apiVersion: aivisor/v1
kind: SandboxPolicy
metadata:
  name: bad
spec:
  filesystem:
    rules:
      - path: relative/path
        access: [read]
"#;
    assert!(parse_policy_str(yaml).is_err());
}

#[test]
fn test_reject_path_traversal() {
    let yaml = r#"
apiVersion: aivisor/v1
kind: SandboxPolicy
metadata:
  name: bad
spec:
  filesystem:
    rules:
      - path: /workspace/../../etc
        access: [read]
"#;
    assert!(parse_policy_str(yaml).is_err());
}

#[test]
fn test_reject_system_path_write() {
    let yaml = r#"
apiVersion: aivisor/v1
kind: SandboxPolicy
metadata:
  name: bad
spec:
  filesystem:
    rules:
      - path: /etc
        access: [write]
"#;
    assert!(parse_policy_str(yaml).is_err());
}

#[test]
fn test_accept_system_path_read() {
    let yaml = r#"
apiVersion: aivisor/v1
kind: SandboxPolicy
metadata:
  name: ok
spec:
  filesystem:
    rules:
      - path: /etc/ssl/certs
        access: [read]
"#;
    assert!(parse_policy_str(yaml).is_ok());
}

#[test]
fn test_reject_exec_relative_path() {
    let yaml = r#"
apiVersion: aivisor/v1
kind: SandboxPolicy
metadata:
  name: bad
spec:
  exec:
    allow:
      - path: relative/bin
"#;
    assert!(parse_policy_str(yaml).is_err());
}

#[test]
fn test_reject_exec_path_traversal() {
    let yaml = r#"
apiVersion: aivisor/v1
kind: SandboxPolicy
metadata:
  name: bad
spec:
  exec:
    allow:
      - path: /usr/bin/../../etc
"#;
    assert!(parse_policy_str(yaml).is_err());
}

#[test]
fn test_reject_net_default_allow() {
    let yaml = r#"
apiVersion: aivisor/v1
kind: SandboxPolicy
metadata:
  name: bad
spec:
  network:
    default: allow
"#;
    assert!(parse_policy_str(yaml).is_err());
}

#[test]
fn test_reject_workspace_exec_without_flag() {
    let yaml = r#"
apiVersion: aivisor/v1
kind: SandboxPolicy
metadata:
  name: bad
spec:
  filesystem:
    rules:
      - path: /workspace
        access: [execute]
"#;
    let err = parse_policy_str(yaml).unwrap_err();
    assert!(err.to_string().contains("allowWorkspaceExec"));
}

#[test]
fn test_accept_workspace_exec_with_flag() {
    let yaml = r#"
apiVersion: aivisor/v1
kind: SandboxPolicy
metadata:
  name: ws-exec
spec:
  filesystem:
    rules:
      - path: /workspace
        access: [execute]
        allowWorkspaceExec: true
"#;
    let policy = parse_policy_str(yaml).unwrap();
    let fs = policy.filesystem.unwrap();
    let ws_rule = fs.rules.iter().find(|r| r.path == "/workspace").unwrap();
    assert!(ws_rule.access.contains(&"execute".to_string()));
}

#[test]
fn test_reject_bad_api_version() {
    let yaml = r#"
apiVersion: aivisor/v2
kind: SandboxPolicy
metadata:
  name: bad
spec: {}
"#;
    assert!(parse_policy_str(yaml).is_err());
}

#[test]
fn test_reject_bad_kind() {
    let yaml = r#"
apiVersion: aivisor/v1
kind: OtherPolicy
metadata:
  name: bad
spec: {}
"#;
    assert!(parse_policy_str(yaml).is_err());
}

#[test]
fn test_parse_empty_policy_sections() {
    let yaml = r#"
apiVersion: aivisor/v1
kind: SandboxPolicy
metadata:
  name: empty
spec: {}
"#;
    let policy = parse_policy_str(yaml).unwrap();
    assert!(policy.filesystem.is_none());
    assert!(policy.exec_policy.is_none());
    assert!(policy.network.is_none());
    assert!(policy.runtime.is_none());
    assert!(policy.audit.is_none());
}

/// A policy document around a `spec` section.
fn document(spec: &str) -> String {
    format!("apiVersion: aivisor/v1\nkind: SandboxPolicy\nmetadata:\n  name: t\nspec:\n{spec}")
}

fn refusal(spec: &str) -> String {
    parse_policy_str(&document(spec)).unwrap_err().to_string()
}

#[test]
fn a_text_that_is_no_document_is_refused() {
    let e = parse_policy_str("a: [").unwrap_err().to_string();
    assert!(e.starts_with("invalid policy: YAML parse: "), "{e}");
    assert!(read_yaml("a: [").is_err());
}

#[test]
fn values_are_read_as_what_they_are() {
    let doc = read_yaml("t: text\nb: true\nn: 7\nf: 1.5\nneg: -1\nz: null\nl: [a, 1, b]\nm: {k: v}\ntag: !x y\n").unwrap();
    assert_eq!(doc.text_at("t").as_deref(), Some("text"));
    assert_eq!(doc.truth_at("b"), Some(true));
    assert_eq!(doc.number_at("n"), Some(7));
    assert_eq!(doc.number_at("f"), None);
    assert_eq!(doc.number_at("neg"), None);
    assert_eq!(doc.text_at("n"), None);
    assert!(matches!(doc.get("z"), Some(Yaml::Null)));
    assert_eq!(doc.list_at("l").map(|l| l.len()), Some(3));
    assert_eq!(doc.strings_at("l"), vec!["a".to_string(), "b".to_string()]);
    assert_eq!(doc.get("m").and_then(|m| m.text_at("k")).as_deref(), Some("v"));
    assert_eq!(doc.text_at("tag").as_deref(), Some("y"));
    assert!(doc.get("missing").is_none());
    assert!(doc.strings_at("t").is_empty());
}

#[test]
fn a_value_that_was_read_is_parsed_without_its_text() {
    let raw = read_yaml(minimal_yaml()).unwrap();
    let policy = policy_from_value(&raw).unwrap();
    assert_eq!(policy.metadata_name, "test-policy");
    // Nothing at all is the policy without sections.
    let empty = policy_from_value(&Yaml::Null).unwrap();
    assert_eq!(empty.api_version, "aivisor/v1");
    assert_eq!(empty.kind, "SandboxPolicy");
    assert_eq!(empty.metadata_name, "default");
    assert!(empty.filesystem.is_none());
}

#[test]
fn a_rule_is_refused_for_what_is_wrong_with_it() {
    let fs = |rule: &str| refusal(&format!("  filesystem:\n    rules:\n      - {rule}\n"));
    let exec = |rule: &str| refusal(&format!("  exec:\n    allow:\n      - {rule}\n"));
    assert_eq!(fs("access: [read]"), "invalid policy: filesystem rule missing path");
    assert_eq!(fs("path: a/b"), "invalid policy: filesystem path must be absolute: a/b");
    assert_eq!(fs("path: /a/../b"), "invalid policy: filesystem path must not contain '..': /a/../b");
    for verb in ["write", "create", "delete", "truncate"] {
        for path in ["/", "/usr", "/etc", "/proc", "/sys", "/dev"] {
            assert_eq!(
                fs(&format!("{{path: {path}, access: [read, {verb}]}}")),
                format!("invalid policy: cannot grant write access to system path: {path}")
            );
        }
    }
    assert_eq!(
        fs("{path: /workspace, access: [execute]}"),
        "invalid policy: execute on /workspace requires allowWorkspaceExec: true"
    );
    assert_eq!(exec("path: a"), "invalid policy: exec rule path must be absolute: a");
    assert_eq!(exec("path: /a/.."), "invalid policy: exec rule path must not contain '..': /a/..");
    assert_eq!(exec("prefix: a"), "invalid policy: exec rule prefix must be absolute: a");
    assert_eq!(exec("prefix: /a/.."), "invalid policy: exec rule prefix must not contain '..': /a/..");
    assert_eq!(
        refusal("  network:\n    default: allow\n"),
        "invalid policy: network default: allow is not supported in Phase 2; use default: deny"
    );
    assert_eq!(
        refusal("  filesystem:\n    default: allow\n"),
        "invalid policy: default: allow on filesystem requires spec.runtime.iKnowWhatImDoing: true"
    );
    assert_eq!(
        parse_policy_str("apiVersion: v2").unwrap_err().to_string(),
        "invalid policy: unsupported apiVersion: v2"
    );
    assert_eq!(
        parse_policy_str("kind: Other").unwrap_err().to_string(),
        "invalid policy: unsupported kind: Other"
    );
}

#[test]
fn sections_parse_on_their_own() {
    let doc = read_yaml(
        "filesystem:\n  rules:\n    - path: /data\n      access: [read, 5]\nexec:\n  allow:\n    - pin: x\n    - path: /a\n      pin: y\nnetwork:\n  egress:\n    - other: x\n    - via: broker\n      hosts: [h]\nruntime:\n  landlockAbiMin: 4294967297\naudit:\n  sink: file\n",
    )
    .unwrap();
    let fs = parse_fs_policy(&doc).unwrap().unwrap();
    assert_eq!(fs.rules[0].path, "/data");
    assert_eq!(fs.rules[0].access, vec!["read".to_string()]);
    assert!(!fs.rules[0].recursive);
    let exec = parse_exec_policy(&doc).unwrap().unwrap();
    // An entry that names nothing is passed over.
    assert_eq!(exec.allow.len(), 1);
    assert!(matches!(&exec.allow[0], ExecRule::Path { path, pin: Some(pin) } if path == "/a" && pin == "y"));
    let net = parse_net_policy(&doc).unwrap().unwrap();
    assert_eq!(net.egress.len(), 1);
    assert!(matches!(&net.egress[0], NetRule::BrokerRoute { methods, .. } if methods.is_empty()));
    assert_eq!(parse_runtime_opts(&doc).unwrap().landlock_abi_min, Some(1));
    let audit = parse_audit_opts(&doc).unwrap();
    assert_eq!(audit.sink.as_deref(), Some("file"));
    assert_eq!(audit.level, None);

    assert!(parse_fs_policy(&Yaml::Null).unwrap().is_none());
    assert!(parse_exec_policy(&Yaml::Null).unwrap().is_none());
    assert!(parse_net_policy(&Yaml::Null).unwrap().is_none());
    assert!(parse_runtime_opts(&Yaml::Null).is_none());
    assert!(parse_audit_opts(&Yaml::Null).is_none());
}

#[test]
fn ports_and_metadata_have_defaults() {
    let policy = parse_policy_str(&document("  network:\n    egress:\n      - direct:\n        cidr: 10.0.0.0/8\n        ports: [53, 65616]\n")).unwrap();
    let net = policy.network.unwrap();
    assert_eq!(net.default, AccessDefault::Deny);
    assert!(net.block_metadata);
    assert!(matches!(&net.egress[0], NetRule::Direct { cidr, ports } if cidr == "10.0.0.0/8" && *ports == vec![53, 80]));
}

#[test]
fn numbers_and_tags_are_kept_as_they_are_written() {
    let doc = read_yaml("a: -3\nb: 1.5\nc: 7\nd: !unit 4\ne: .inf\n").unwrap();
    assert!(matches!(doc.get("a"), Some(Yaml::Number(None, t)) if t == "-3"));
    assert!(matches!(doc.get("b"), Some(Yaml::Number(None, t)) if t == "1.5"));
    assert!(matches!(doc.get("c"), Some(Yaml::Number(Some(7), t)) if t == "7"));
    assert!(matches!(doc.get("e"), Some(Yaml::Number(None, t)) if t == ".inf"));
    match doc.get("d") {
        Some(Yaml::Tagged(tag, inner)) => {
            assert_eq!(tag, "!unit");
            assert!(matches!(&**inner, Yaml::Number(Some(4), t) if t == "4"));
        }
        _ => panic!("the tag is gone"),
    }
    assert_eq!(doc.number_at("d"), Some(4));
}
