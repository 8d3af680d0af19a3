use aivisor::capability::Capability;
use aivisor::policy::compile::{
    hash_path, parse_sha256_pin, AccessDefault, ExecPolicy, ExecRule, FsPolicy, FsRule, NetPolicy, NetRule, Policy,
    RuntimeOpts,
};
use aivisor::policy::landlock_bits;

fn test_policy() -> Policy {
    Policy {
        api_version: "aivisor/v1".into(),
        kind: "SandboxPolicy".into(),
        metadata_name: "test".into(),
        filesystem: None,
        exec_policy: None,
        network: None,
        runtime: None,
        audit: None,
    }
}

#[test]
fn test_compile_landlock_empty() {
    let policy = test_policy();
    let plan = policy.compile_landlock(1);
    assert!(plan.rules.is_empty());
    assert_eq!(plan.abi, 1);
}

#[test]
fn test_compile_seccomp_default() {
    let policy = test_policy();
    let plan = policy.compile_seccomp();
    assert_eq!(plan.profile, "aivisor-default");
}

#[test]
fn test_compile_bpf_empty_policy_has_no_rules() {
    let policy = test_policy();
    let plan = policy.compile_bpf();
    assert!(plan.fs_rules.is_empty());
    assert!(plan.exec_rules.is_empty());
    assert!(!plan.exec_policy_present);
}

#[test]
fn test_compile_landlock_with_rules() {
    let policy = Policy {
        filesystem: Some(FsPolicy {
            default: AccessDefault::Deny,
            rules: vec![FsRule {
                path: "/workspace".into(),
                access: vec!["read".into(), "write".into()],
                recursive: true,
            }],
        }),
        ..test_policy()
    };
    let plan = policy.compile_landlock(1);
    assert_eq!(plan.rules.len(), 1);
    assert_eq!(plan.rules[0].path, "/workspace");
    assert_eq!(
        plan.rules[0].access_mask,
        landlock_bits::READ_FILE | landlock_bits::READ_DIR | landlock_bits::WRITE_FILE
    );
}

#[test]
fn test_compile_seccomp_custom() {
    let policy = Policy {
        runtime: Some(RuntimeOpts {
            seccomp_profile: Some("strict".into()),
            landlock_abi_min: Some(3),
            timeout: None,
            max_idle: None,
        }),
        ..test_policy()
    };
    let plan = policy.compile_seccomp();
    assert_eq!(plan.profile, "strict");
}

#[test]
fn test_access_mask_matches_kernel_bits_not_sequential_indices() {
    // The verbs stand for the LANDLOCK_ACCESS_FS_* values, not for positions in the list of verbs.
    assert_eq!(
        Policy::access_to_landlock_mask(&vec!["read".to_string()]),
        landlock_bits::READ_FILE | landlock_bits::READ_DIR
    );
    assert_eq!(
        Policy::access_to_landlock_mask(&vec!["execute".to_string()]),
        landlock_bits::EXECUTE
    );
    assert_ne!(
        Policy::access_to_landlock_mask(&vec!["read".to_string()]),
        landlock_bits::EXECUTE,
        "read must never grant execute"
    );
    assert_ne!(
        Policy::access_to_landlock_mask(&vec!["execute".to_string()]),
        landlock_bits::READ_FILE,
        "execute must never grant read"
    );
}

#[test]
fn test_landlock_mask_respects_abi_ceiling() {
    // truncate (ABI>=3) requested against an ABI-1 kernel must be masked
    // off, not passed through: an unknown right is EINVAL, and nothing would be confined.
    let policy = Policy {
        filesystem: Some(FsPolicy {
            default: AccessDefault::Deny,
            rules: vec![FsRule {
                path: "/workspace".into(),
                access: vec!["truncate".into()],
                recursive: false,
            }],
        }),
        ..test_policy()
    };
    let plan = policy.compile_landlock(1);
    assert_eq!(plan.rules[0].access_mask, 0);

    let plan_abi3 = policy.compile_landlock(3);
    assert_eq!(plan_abi3.rules[0].access_mask, landlock_bits::TRUNCATE);
}

#[test]
fn test_compile_bpf_with_fs_and_exec_rules() {
    let policy = Policy {
        filesystem: Some(FsPolicy {
            default: AccessDefault::Deny,
            rules: vec![FsRule {
                path: "/workspace".into(),
                access: vec!["read".into(), "write".into()],
                recursive: true,
            }],
        }),
        exec_policy: Some(ExecPolicy {
            default: AccessDefault::Deny,
            allow: vec![
                ExecRule::Path {
                    path: "/usr/bin/python3".into(),
                    pin: Some(
                        "sha256:abcdef1234567890abcdef1234567890abcdef1234567890abcdef1234567890"
                            .into(),
                    ),
                },
                ExecRule::Prefix("/usr/lib/python3.12/".into()),
            ],
        }),
        ..test_policy()
    };
    let plan = policy.compile_bpf();
    assert_eq!(plan.fs_rules.len(), 1);
    assert!(plan.exec_policy_present);
    assert_eq!(plan.exec_rules.len(), 2);
    assert_eq!(plan.exec_rules[0].path, "/usr/bin/python3");
    assert!(!plan.exec_rules[0].is_prefix);
    assert!(plan.exec_rules[0].hash.is_some());
    assert_eq!(plan.exec_rules[0].hash.unwrap()[0], 0xab);
    assert!(plan.exec_rules[1].is_prefix);
}

#[test]
fn test_compile_bpf_net_direct_rules_only() {
    let policy = Policy {
        network: Some(NetPolicy {
            default: AccessDefault::Deny,
            egress: vec![
                NetRule::Direct {
                    cidr: "10.42.0.0/16".into(),
                    ports: vec![5432],
                },
                NetRule::BrokerRoute {
                    hosts: vec!["pypi.org".into()],
                    methods: vec!["GET".into()],
                },
            ],
            block_metadata: true,
            dns_policy: None,
        }),
        ..test_policy()
    };
    let plan = policy.compile_bpf();
    assert_eq!(plan.net_rules.len(), 1);
    assert_eq!(plan.net_rules[0].cidr, "10.42.0.0/16");
    assert_eq!(plan.net_rules[0].ports, vec![5432]);
    assert!(plan.block_metadata);
}

#[test]
fn test_compile_landlock_includes_exec_allow_entries() {
    // The exec policy must reach Landlock too.
    let policy = Policy {
        exec_policy: Some(ExecPolicy {
            default: AccessDefault::Deny,
            allow: vec![
                ExecRule::Path {
                    path: "/usr/bin/python3".into(),
                    pin: None,
                },
                ExecRule::Prefix("/usr/lib/python3.12/".into()),
            ],
        }),
        ..test_policy()
    };
    let plan = policy.compile_landlock(3);
    assert_eq!(plan.rules.len(), 2);
    assert!(plan
        .rules
        .iter()
        .any(|r| r.path == "/usr/bin/python3"
            && r.access_mask & landlock_bits::EXECUTE != 0
            && r.access_mask & landlock_bits::READ_FILE != 0));
}

#[test]
fn test_path_hash_stable_and_distinct() {
    assert_eq!(hash_path("/workspace"), hash_path("/workspace"));
    assert_ne!(hash_path("/workspace"), hash_path("/etc"));
}

#[test]
fn test_parse_sha256_pin_valid_and_invalid() {
    let valid = "sha256:abcdef1234567890abcdef1234567890abcdef1234567890abcdef1234567890";
    assert!(parse_sha256_pin(valid).is_some());
    assert!(parse_sha256_pin("sha256:tooshort").is_none());
    assert!(parse_sha256_pin("md5:abcdef").is_none());
}

fn net_cap(cidr: &str, ports: &[u16]) -> Capability {
    Capability::Network {
        cidr: cidr.into(),
        ports: ports.to_vec(),
    }
}

#[test]
fn granting_a_network_capability_reaches_the_bpf_plan() {
    let policy = test_policy();
    let granted = policy
        .with_capability_granted(&net_cap("203.0.113.7/32", &[53]))
        .unwrap();
    let plan = granted.compile_bpf();
    assert_eq!(plan.net_rules.len(), 1);
    assert_eq!(plan.net_rules[0].cidr, "203.0.113.7/32");
    assert_eq!(plan.net_rules[0].ports, vec![53]);
    // The original is untouched — grants produce a new policy so a
    // failed install can leave the live one in place.
    assert!(policy.compile_bpf().net_rules.is_empty());
}

#[test]
fn a_grant_defaults_to_deny_and_keeps_metadata_blocked() {
    // Materialising a NetPolicy for a document that had none must not
    // accidentally open the default or unblock the metadata endpoint.
    let granted = test_policy()
        .with_capability_granted(&net_cap("10.0.0.0/8", &[53]))
        .unwrap();
    let net = granted.network.as_ref().unwrap();
    assert_eq!(net.default, AccessDefault::Deny);
    assert!(net.block_metadata);
    assert!(granted.compile_bpf().block_metadata);
}

#[test]
fn repeated_grants_for_one_cidr_merge_instead_of_shadowing() {
    // Two Direct rules for the same CIDR compile to two writes of the
    // same LPM key, so the second would overwrite the first's bitmap
    // and silently revoke the earlier grant.
    let policy = test_policy()
        .with_capability_granted(&net_cap("10.0.0.0/8", &[53]))
        .unwrap()
        .with_capability_granted(&net_cap("10.0.0.0/8", &[7]))
        .unwrap();
    let plan = policy.compile_bpf();
    assert_eq!(plan.net_rules.len(), 1);
    assert_eq!(plan.net_rules[0].ports, vec![7, 53]);
}

#[test]
fn revoking_removes_only_the_named_ports() {
    let policy = test_policy()
        .with_capability_granted(&net_cap("10.0.0.0/8", &[7, 53]))
        .unwrap()
        .with_capability_revoked(&net_cap("10.0.0.0/8", &[53]))
        .unwrap();
    let plan = policy.compile_bpf();
    assert_eq!(plan.net_rules.len(), 1);
    assert_eq!(plan.net_rules[0].ports, vec![7]);
}

#[test]
fn revoking_the_last_port_drops_the_rule_entirely() {
    // An all-zero port bitmap is an LPM entry that exists only to be
    // rejected; it should not be left in the map.
    let policy = test_policy()
        .with_capability_granted(&net_cap("10.0.0.0/8", &[53]))
        .unwrap()
        .with_capability_revoked(&net_cap("10.0.0.0/8", &[53]))
        .unwrap();
    assert!(policy.compile_bpf().net_rules.is_empty());
}

#[test]
fn granting_an_exec_capability_is_idempotent() {
    let cap = Capability::Exec {
        path: "/usr/bin/git".into(),
    };
    let policy = test_policy()
        .with_capability_granted(&cap)
        .unwrap()
        .with_capability_granted(&cap)
        .unwrap();
    assert_eq!(policy.exec_policy.as_ref().unwrap().allow.len(), 1);
    assert_eq!(policy.compile_bpf().exec_rules.len(), 1);

    let revoked = policy.with_capability_revoked(&cap).unwrap();
    assert!(revoked.exec_policy.as_ref().unwrap().allow.is_empty());
}

#[test]
fn a_runtime_exec_grant_never_claims_a_hash_pin() {
    // The granting side cannot see the binary (it lives in the
    // sandbox's mount namespace), so it must not assert integrity it
    // did not verify.
    let policy = test_policy()
        .with_capability_granted(&Capability::Exec {
            path: "/usr/bin/git".into(),
        })
        .unwrap();
    assert_eq!(policy.compile_bpf().exec_rules[0].hash, None);
}

#[test]
fn filesystem_capabilities_are_refused_in_both_directions() {
    // Not a missing feature: neither direction can be made to mean what
    // its name says. See check_runtime_capability.
    let cap = Capability::Filesystem {
        path: "/data".into(),
        access: vec!["read".into()],
    };
    let granted = test_policy().with_capability_granted(&cap).unwrap_err();
    assert!(granted.to_string().contains("cannot be granted or revoked"));
    assert!(test_policy().with_capability_revoked(&cap).is_err());
}

#[test]
fn landlock_ceiling_covers_paths_beneath_a_granted_directory() {
    let policy = Policy {
        filesystem: Some(FsPolicy {
            default: AccessDefault::Deny,
            rules: vec![FsRule {
                path: "/usr".into(),
                access: vec!["read".into(), "execute".into()],
                recursive: true,
            }],
        }),
        ..test_policy()
    };
    let plan = policy.compile_landlock(3);
    let exec_read = landlock_bits::EXECUTE | landlock_bits::READ_FILE;

    // path_beneath: a rule on /usr covers /usr/bin/git.
    assert!(plan.permits("/usr/bin/git", exec_read));
    // Outside the tree: no rule, so no ceiling.
    assert!(!plan.permits("/opt/tool", exec_read));
    // Inside the tree but asking for a right the rule does not carry.
    assert!(!plan.permits(
        "/usr/bin/git",
        landlock_bits::WRITE_FILE
    ));
}

#[test]
fn paths_are_hashed_byte_by_byte() {
    assert_eq!(hash_path(""), 0xcbf29ce484222325);
    assert_eq!(hash_path("a"), 0xaf63dc4c8601ec8c);
    assert_eq!(hash_path("foobar"), 0x85944171f73967e8);
}

#[test]
fn a_pin_is_read_digit_by_digit() {
    let mut text = "sha256:".to_string();
    text.push_str(&"0f".repeat(31));
    text.push_str("A0");
    let pin = parse_sha256_pin(&text).unwrap();
    assert_eq!(pin[0], 0x0f);
    assert_eq!(pin[31], 0xa0);
    assert!(parse_sha256_pin(&format!("sha256:{}", "0g".repeat(32))).is_none());
    assert!(parse_sha256_pin(&format!("sha256:{}", "0".repeat(65))).is_none());
}

#[test]
fn each_verb_has_its_rights() {
    let of = |verb: &str| Policy::access_to_landlock_mask(&vec![verb.to_string()]);
    assert_eq!(of("write"), landlock_bits::WRITE_FILE);
    assert_eq!(of("truncate"), landlock_bits::TRUNCATE);
    assert_eq!(of("nonsense"), 0);
    assert_eq!(of("create") & landlock_bits::MAKE_REG, landlock_bits::MAKE_REG);
    assert_eq!(of("delete"), landlock_bits::REMOVE_DIR | landlock_bits::REMOVE_FILE);
    let both = Policy::access_to_landlock_mask(&vec!["read".to_string(), "write".to_string()]);
    assert_eq!(both, of("read") | of("write"));
}

#[test]
fn every_generation_knows_all_rights_of_the_one_before() {
    assert_eq!(landlock_bits::known_at_abi(1), 0x1fff);
    assert_eq!(landlock_bits::known_at_abi(2), 0x3fff);
    assert_eq!(landlock_bits::known_at_abi(3), 0x7fff);
    assert_eq!(landlock_bits::known_at_abi(5) & landlock_bits::IOCTL_DEV, landlock_bits::IOCTL_DEV);
    for abi in 1..8 {
        let (a, b) = (landlock_bits::known_at_abi(abi), landlock_bits::known_at_abi(abi + 1));
        assert_eq!(a & b, a);
    }
}

#[test]
fn beneath_is_told_by_components_not_by_letters() {
    let policy = Policy {
        filesystem: Some(FsPolicy {
            default: AccessDefault::Deny,
            rules: vec![FsRule { path: "/usr".into(), access: vec!["read".into()], recursive: true }],
        }),
        ..test_policy()
    };
    let plan = policy.compile_landlock(3);
    assert!(plan.permits("/usr", landlock_bits::READ_FILE));
    assert!(plan.permits("/usr//bin/./git", landlock_bits::READ_FILE));
    assert!(!plan.permits("/usrlocal/bin", landlock_bits::READ_FILE));
}

#[test]
fn an_exec_prefix_reaches_landlock_too() {
    let policy = Policy {
        exec_policy: Some(ExecPolicy {
            default: AccessDefault::Deny,
            allow: vec![ExecRule::Prefix("/usr/lib/".into())],
        }),
        ..test_policy()
    };
    let plan = policy.compile_landlock(1);
    assert_eq!(plan.rules.len(), 1);
    assert_eq!(plan.rules[0].path, "/usr/lib/");
    assert_eq!(plan.rules[0].access_mask & landlock_bits::EXECUTE, landlock_bits::EXECUTE);
}

#[test]
fn revoking_what_was_granted_leaves_the_plan_as_it_was() {
    let before = test_policy().with_capability_granted(&net_cap("10.0.0.0/8", &[7])).unwrap();
    let after = before
        .with_capability_granted(&net_cap("10.0.0.0/8", &[53]))
        .unwrap()
        .with_capability_revoked(&net_cap("10.0.0.0/8", &[53]))
        .unwrap();
    assert_eq!(after.compile_bpf().net_rules[0].ports, before.compile_bpf().net_rules[0].ports);
    // Another network is not touched.
    let other = before.with_capability_revoked(&net_cap("10.0.0.0/9", &[7])).unwrap();
    assert_eq!(other.compile_bpf().net_rules[0].ports, vec![7]);
}

#[test]
fn a_runtime_capability_is_checked_on_its_own() {
    assert!(Policy::check_runtime_capability(&net_cap("10.0.0.0/8", &[53])).is_ok());
    assert!(Policy::check_runtime_capability(&Capability::Exec { path: "/bin/sh".into() }).is_ok());
    let fs = Capability::Filesystem { path: "/data".into(), access: vec!["read".into()] };
    assert!(Policy::check_runtime_capability(&fs).is_err());
}

#[test]
fn revoking_from_a_policy_without_sections_changes_nothing() {
    let p = test_policy().with_capability_revoked(&net_cap("10.0.0.0/8", &[53])).unwrap();
    assert!(p.compile_bpf().net_rules.is_empty());
    let p = test_policy().with_capability_revoked(&Capability::Exec { path: "/bin/sh".into() }).unwrap();
    assert!(p.compile_bpf().exec_rules.is_empty());
}
