use aivisor::bpf::exec_rules::{
    check_pin, hex, resolve_exec_rule, resolve_exec_rules, to_kernel_dev, verify_sha256_pin, DirEntry, ExecLookup,
};
use aivisor::bpf::maps::{
    check_rule_count, BpfManager, ExecSource, MapName, EXEC_RULES_CAPACITY, FS_RULES_CAPACITY, MAX_RULES_PER_SANDBOX,
};
use aivisor::bpf::net_rules::{parse_cidr, resolve_net_rules, NET_KEY_CGID_BITS};
use aivisor::bpf::ranges::RuleAllocator;
use aivisor::bpf::records::{encode_fs_rule, ExecRecord, NetKey, SandboxCtx};
use aivisor::error::Error;
use aivisor::id::CgroupId;
use aivisor::policy::compile::{BpfExecRule, BpfFsRule, BpfNetRule, BpfPlan};
use aivisor::policy_ref::ExecIdentity;

#[test]
fn sandbox_ctx_roundtrips_through_its_wire_bytes() {
    let ctx = SandboxCtx {
        sandbox_seq: 7,
        flags: SandboxCtx::FLAG_ENFORCING | SandboxCtx::FLAG_DIRTY,
        policy_gen: 3,
        fs_rules_base: 10,
        fs_rules_count: 2,
        exec_rules_base: 20,
        exec_rules_count: 4,
        net_rules_base: 0,
        net_rules_count: 1,
        turn_id: 99,
    };
    let bytes = ctx.to_bytes();
    assert_eq!(bytes.len(), SandboxCtx::SIZE);
    assert_eq!(SandboxCtx::from_bytes(&bytes), Some(ctx));
}

#[test]
fn sandbox_ctx_size_matches_the_c_layout() {
    // 8 + 4*8 + 8, no padding.
    assert_eq!(std::mem::size_of::<SandboxCtx>(), SandboxCtx::SIZE);
}

#[test]
fn deny_all_placeholder_has_empty_rule_ranges() {
    let ctx = SandboxCtx::deny_all();
    assert!(ctx.flags & SandboxCtx::FLAG_ENFORCING != 0);
    // An empty range can never contain a matching rule index.
    assert_eq!(ctx.fs_rules_count, 0);
    assert_eq!(ctx.exec_rules_count, 0);
    assert_eq!(ctx.net_rules_count, 0);
}

#[test]
fn allocator_hands_out_non_overlapping_ranges() {
    let mut alloc = RuleAllocator::new("test", 100);
    let a = alloc.allocate(10).unwrap();
    let b = alloc.allocate(5).unwrap();
    assert_eq!(a, 0);
    assert_eq!(b, 10);
}

#[test]
fn allocator_reclaims_and_coalesces_released_ranges() {
    let mut alloc = RuleAllocator::new("test", 100);
    let a = alloc.allocate(10).unwrap();
    let b = alloc.allocate(10).unwrap();
    alloc.release(a, 10);
    alloc.release(b, 10);
    // Both halves must have merged back into one hole.
    assert_eq!(alloc.free, vec![(0, 100)]);
    assert_eq!(alloc.allocate(20).unwrap(), 0);
}

#[test]
fn allocator_reuses_freed_space_instead_of_exhausting_the_map() {
    let mut alloc = RuleAllocator::new("test", 16);
    for _ in 0..1000 {
        let base = alloc.allocate(16).unwrap();
        alloc.release(base, 16);
    }
    assert_eq!(alloc.allocate(16).unwrap(), 0);
}

#[test]
fn allocator_refuses_when_no_contiguous_range_is_left() {
    let mut alloc = RuleAllocator::new("test", 10);
    alloc.allocate(6).unwrap();
    assert!(alloc.allocate(6).is_err());
}

#[test]
fn zero_length_allocation_reserves_nothing() {
    let mut alloc = RuleAllocator::new("test", 10);
    assert_eq!(alloc.allocate(0).unwrap(), 0);
    assert_eq!(alloc.free, vec![(0, 10)]);
}

#[test]
fn rule_counts_over_the_unrolled_loop_bound_are_refused() {
    assert!(check_rule_count("filesystem", MAX_RULES_PER_SANDBOX).is_ok());
    let err = check_rule_count("filesystem", MAX_RULES_PER_SANDBOX + 1).unwrap_err();
    assert!(err.to_string().contains("silently unenforced"));
}

#[test]
fn net_key_is_scoped_to_one_cgroup() {
    let a = resolve_net_rules(
        CgroupId::new(1),
        &vec![BpfNetRule {
            cidr: "10.0.0.1/32".into(),
            ports: vec![443],
        }],
    );
    // Port 443 is outside the bitmap and must be refused rather than installed as a rule that
    // can never match.
    assert!(a.is_err());

    let a = resolve_net_rules(
        CgroupId::new(1),
        &vec![BpfNetRule {
            cidr: "10.0.0.1/32".into(),
            ports: vec![53],
        }],
    )
    .unwrap();
    let b = resolve_net_rules(
        CgroupId::new(2),
        &vec![BpfNetRule {
            cidr: "10.0.0.1/32".into(),
            ports: vec![53],
        }],
    )
    .unwrap();
    // Same destination, different sandbox: the keys must differ.
    assert_ne!(a[0].0, b[0].0);
    assert_eq!(a[0].0.prefixlen, NET_KEY_CGID_BITS + 32);
}

#[test]
fn cidr_parses_to_network_byte_order() {
    let (addr, prefix) = parse_cidr("10.0.0.0/8").unwrap();
    assert_eq!(prefix, 8);
    assert_eq!(addr, u32::from_be_bytes([10, 0, 0, 0]).to_be());
    assert!(parse_cidr("10.0.0.0/33").is_err());
    assert!(parse_cidr("not-an-ip/8").is_err());
    assert!(parse_cidr("::1/128").is_err());
}

#[test]
fn kernel_dev_encoding_differs_from_userspace_st_dev() {
    // major 253, minor 1 as glibc encodes it.
    let st_dev = nix::sys::stat::makedev(253, 1);
    assert_eq!(to_kernel_dev(st_dev), (253u64 << 20) | 1);
}

#[test]
fn kernel_dev_keeps_large_majors_and_minors_apart() {
    for (major, minor) in [(0u64, 0u64), (8, 17), (259, 300), (4095, 0xfffff)] {
        assert_eq!(to_kernel_dev(nix::sys::stat::makedev(major, minor)), (major << 20) | minor);
    }
}

#[test]
fn a_context_is_cut_from_its_bytes_in_order() {
    let mut c = SandboxCtx::registered_for_setup();
    assert_eq!(c.to_bytes(), vec![0u8; 48]);
    c.flags = 0x01020304;
    c.turn_id = u64::MAX;
    let b = c.to_bytes();
    assert_eq!(b[8..12], 0x01020304u32.to_ne_bytes());
    assert_eq!(b[40..48], [0xff; 8]);
    assert_eq!(SandboxCtx::from_bytes(&b[..47]), None);
    let mut longer = b.clone();
    longer.push(9);
    assert_eq!(SandboxCtx::from_bytes(&longer), Some(c));
}

#[test]
fn rule_records_have_the_layout_of_the_maps() {
    let fs = encode_fs_rule(1, 2);
    assert_eq!(fs.len(), 16);
    assert_eq!(fs[0..8], 1u64.to_ne_bytes());
    assert_eq!(fs[8..16], 2u64.to_ne_bytes());
    let ex = ExecRecord { dev: 3, inode: 4, hash: [5; 32] }.to_bytes();
    assert_eq!(ex[0..8], 3u64.to_ne_bytes());
    assert_eq!(ex[8..16], 4u64.to_ne_bytes());
    assert_eq!(ex[16..48], [5; 32]);
    let key = NetKey { prefixlen: 96, cgid: 6, addr: 7 }.to_bytes();
    assert_eq!(key.len(), 16);
    assert_eq!(key[0..4], 96u32.to_ne_bytes());
    assert_eq!(key[4..12], 6u64.to_ne_bytes());
    assert_eq!(key[12..16], 7u32.to_ne_bytes());
}

#[test]
fn the_first_hole_that_is_wide_enough_is_taken() {
    let mut a = RuleAllocator::new("test", 30);
    for _ in 0..3 {
        a.allocate(10).unwrap();
    }
    a.release(0, 5);
    a.release(10, 10);
    assert_eq!(a.free, vec![(0, 5), (10, 10)]);
    assert_eq!(a.allocate(6).unwrap(), 10);
    assert_eq!(a.free, vec![(0, 5), (16, 4)]);
    match a.allocate(6) {
        Err(Error::PolicyInvalid(m)) => assert!(m.contains("test"), "{m}"),
        other => panic!("{other:?}"),
    }
    a.release(5, 5);
    assert_eq!(a.free, vec![(0, 10), (16, 4)]);
}

#[test]
fn ports_become_bits() {
    let rules = vec![
        BpfNetRule { cidr: "10.0.0.0/8".into(), ports: vec![0, 53, 63] },
        BpfNetRule { cidr: "192.0.2.1".into(), ports: vec![7] },
    ];
    let entries = resolve_net_rules(CgroupId::new(9), &rules).unwrap();
    assert_eq!(entries[0].1, 1 | (1 << 53) | (1 << 63));
    assert_eq!(entries[0].0.prefixlen, 72);
    assert_eq!(entries[0].0.cgid, 9);
    // An address alone is the network of that address.
    assert_eq!(entries[1].0.prefixlen, 96);
    assert_eq!(entries[1].0.addr, u32::from_be_bytes([192, 0, 2, 1]).to_be());
    assert_eq!(entries[1].1, 1 << 7);
    let e = parse_cidr("10.0.0.0/33").unwrap_err();
    assert_eq!(e.to_string(), "invalid policy: network rule \"10.0.0.0/33\": prefix length 33 exceeds 32");
    let e = parse_cidr("10.0.0.0/x").unwrap_err();
    assert_eq!(e.to_string(), "invalid policy: network rule \"10.0.0.0/x\": bad prefix length");
}

fn rule(path: &str, is_prefix: bool, hash: Option<[u8; 32]>) -> BpfExecRule {
    BpfExecRule { path: path.to_string(), is_prefix, hash }
}

/// The SHA-256 of `abc`.
fn abc_digest() -> [u8; 32] {
    [
        0xba, 0x78, 0x16, 0xbf, 0x8f, 0x01, 0xcf, 0xea, 0x41, 0x41, 0x40, 0xde, 0x5d, 0xae, 0x22, 0x23, 0xb0, 0x03,
        0x61, 0xa3, 0x96, 0x17, 0x7a, 0x9c, 0xb4, 0x10, 0xff, 0x61, 0xf2, 0x00, 0x15, 0xad,
    ]
}

#[test]
fn a_pin_is_held_against_the_file() {
    let contents: Result<Vec<u8>, String> = Ok(b"abc".to_vec());
    assert!(verify_sha256_pin("/bin/x", &abc_digest(), &contents).is_ok());
    let other: Result<Vec<u8>, String> = Ok(b"abd".to_vec());
    let e = verify_sha256_pin("/bin/x", &abc_digest(), &other).unwrap_err();
    assert!(e.to_string().contains("/bin/x"), "{}", e.to_string());
    assert!(e.to_string().contains("ba7816bf"), "{}", e.to_string());
    let gone: Result<Vec<u8>, String> = Err("no such file".to_string());
    let e = verify_sha256_pin("/bin/x", &abc_digest(), &gone).unwrap_err();
    assert!(e.to_string().contains("no such file"), "{}", e.to_string());
    assert!(check_pin("/bin/x", &[1; 32], &[1; 32]).is_ok());
    assert!(check_pin("/bin/x", &[1; 32], &[2; 32]).is_err());
}

#[test]
fn digests_are_shown_in_hexadecimal() {
    assert_eq!(hex(&abc_digest()), "ba7816bf8f01cfea414140de5dae2223b00361a396177a9cb410ff61f20015ad");
    assert_eq!(hex(&[0; 32]), "0".repeat(64));
}

#[test]
fn an_exec_rule_names_one_file_or_the_programs_of_a_directory() {
    let file = ExecLookup::File {
        dev: nix::sys::stat::makedev(8, 1),
        inode: 42,
        contents: Ok(b"abc".to_vec()),
    };
    let got = resolve_exec_rule(&rule("/bin/x", false, Some(abc_digest())), &file).unwrap();
    assert_eq!(got.len(), 1);
    assert_eq!(got[0].dev, (8 << 20) | 1);
    assert_eq!(got[0].inode, 42);
    assert_eq!(got[0].hash, abc_digest());
    assert!(resolve_exec_rule(&rule("/bin/x", false, Some([0; 32])), &file).is_err());
    // Without a pin the contents do not matter.
    let unread = ExecLookup::File { dev: 0, inode: 1, contents: Err("unreadable".to_string()) };
    assert_eq!(resolve_exec_rule(&rule("/bin/x", false, None), &unread).unwrap()[0].hash, [0; 32]);
    assert!(resolve_exec_rule(&rule("/bin/x", false, None), &ExecLookup::NoFile("gone".to_string())).is_err());

    let dir = ExecLookup::Directory(vec![
        DirEntry::Found { is_file: true, mode: 0o755, dev: 1, inode: 10 },
        DirEntry::Found { is_file: true, mode: 0o644, dev: 1, inode: 11 },
        DirEntry::Found { is_file: false, mode: 0o755, dev: 1, inode: 12 },
        DirEntry::Hidden,
        DirEntry::Found { is_file: true, mode: 0o001, dev: 1, inode: 13 },
    ]);
    let got = resolve_exec_rule(&rule("/usr/lib/", true, None), &dir).unwrap();
    let inodes: Vec<u64> = got.iter().map(|r| r.inode).collect();
    assert_eq!(inodes, vec![10, 13]);
    let broken = ExecLookup::Directory(vec![DirEntry::Failed("io".to_string())]);
    assert!(resolve_exec_rule(&rule("/usr/lib/", true, None), &broken).is_err());
    assert!(resolve_exec_rule(&rule("/usr/lib/", true, None), &ExecLookup::NoDirectory("gone".to_string())).is_err());
}

#[test]
fn one_unresolved_rule_refuses_them_all() {
    let rules = vec![rule("/bin/a", false, None), rule("/bin/b", false, None)];
    let seen = vec![
        ExecLookup::File { dev: 0, inode: 1, contents: Ok(vec![]) },
        ExecLookup::NoFile("gone".to_string()),
    ];
    let e = resolve_exec_rules(&rules, &seen).unwrap_err();
    assert!(e.to_string().contains("/bin/b"), "{}", e.to_string());
}

fn plan(fs: usize, net: Vec<BpfNetRule>) -> BpfPlan {
    let mut fs_rules = vec![];
    for i in 0..fs {
        fs_rules.push(BpfFsRule { path_hash: i as u64, access_mask: 4 });
    }
    BpfPlan {
        fs_rules,
        exec_rules: vec![],
        net_rules: net,
        exec_policy_present: true,
        block_metadata: true,
    }
}

fn ids(n: u64) -> Vec<ExecIdentity> {
    (0..n).map(|i| ExecIdentity { dev: 1, inode: 100 + i }).collect()
}

fn registered(cgid: u64) -> (BpfManager, Vec<u8>) {
    let mut m = BpfManager::new();
    let w = m.register_sandbox(CgroupId::new(cgid)).unwrap();
    assert_eq!(w.map, MapName::Sandboxes);
    assert_eq!(w.key, cgid.to_ne_bytes().to_vec());
    m.finish_register(CgroupId::new(cgid), Ok(())).unwrap();
    (m, w.value)
}

#[test]
fn a_sandbox_is_registered_without_enforcement_and_only_once() {
    let (m, value) = registered(7);
    assert_eq!(SandboxCtx::from_bytes(&value).unwrap().flags & SandboxCtx::FLAG_ENFORCING, 0);
    let e = m.register_sandbox(CgroupId::new(7)).unwrap_err();
    assert!(e.to_string().contains("already registered"), "{}", e.to_string());
    let mut m = BpfManager::new();
    let e = m.finish_register(CgroupId::new(8), Err("EPERM".to_string())).unwrap_err();
    assert_eq!(e.to_string(), "launch failed: register cgroup 8 in BPF sandboxes map: EPERM");
    assert!(!m.registered.contains_key(&8));
}

#[test]
fn a_policy_is_written_before_the_context_points_at_it() {
    let (mut m, ctx) = registered(7);
    let net = vec![BpfNetRule { cidr: "10.0.0.0/8".into(), ports: vec![53] }];
    let exec = ids(3);
    let t = m.update_policy(CgroupId::new(7), &plan(2, net), &ExecSource::Resolved(&exec)).unwrap();
    let maps: Vec<MapName> = t.writes.iter().map(|w| w.map).collect();
    assert_eq!(
        maps,
        vec![
            MapName::FsRules,
            MapName::FsRules,
            MapName::ExecRules,
            MapName::ExecRules,
            MapName::ExecRules,
            MapName::NetRules,
        ]
    );
    assert_eq!(t.writes[1].key, 1u32.to_ne_bytes().to_vec());
    assert_eq!(t.writes[2].value[8..16], 100u64.to_ne_bytes());
    let w = m.commit_update(&t, &Ok(Some(ctx))).unwrap();
    let c = SandboxCtx::from_bytes(&w.value).unwrap();
    assert_eq!(c.flags & SandboxCtx::FLAG_ENFORCING, SandboxCtx::FLAG_ENFORCING);
    assert_eq!((c.fs_rules_base, c.fs_rules_count), (0, 2));
    assert_eq!((c.exec_rules_base, c.exec_rules_count), (0, 3));
    assert_eq!(c.policy_gen, 1);
    // Nothing was held before, so nothing is deleted.
    assert!(m.finish_update(t).is_empty());
}

#[test]
fn a_second_policy_takes_fresh_ranges_and_frees_the_first() {
    let (mut m, ctx) = registered(7);
    let none = ids(0);
    let t = m.update_policy(CgroupId::new(7), &plan(4, vec![]), &ExecSource::Resolved(&none)).unwrap();
    m.commit_update(&t, &Ok(Some(ctx.clone()))).unwrap();
    m.finish_update(t);
    let t = m.update_policy(CgroupId::new(7), &plan(2, vec![]), &ExecSource::Resolved(&none)).unwrap();
    assert_eq!(t.fs_base, 4);
    m.commit_update(&t, &Ok(Some(ctx))).unwrap();
    let gone = m.finish_update(t);
    let keys: Vec<Vec<u8>> = gone.iter().map(|d| d.key.clone()).collect();
    let want: Vec<Vec<u8>> = (0u32..4).map(|i| i.to_ne_bytes().to_vec()).collect();
    assert_eq!(keys, want);
    assert_eq!(m.fs_ranges.free, vec![(0, 4), (6, FS_RULES_CAPACITY - 6)]);
}

#[test]
fn giving_up_an_install_restores_the_free_ranges() {
    let (mut m, _) = registered(7);
    let exec = ids(2);
    let t = m.update_policy(CgroupId::new(7), &plan(3, vec![]), &ExecSource::Resolved(&exec)).unwrap();
    let (undo, e) = m.abort_update(t, 4, "ENOSPC");
    // What may have been written is deleted again.
    let maps: Vec<MapName> = undo.iter().map(|d| d.map).collect();
    assert_eq!(
        maps,
        vec![MapName::FsRules, MapName::FsRules, MapName::FsRules, MapName::ExecRules, MapName::ExecRules]
    );
    assert_eq!(e.to_string(), "launch failed: write exec_rules[1]: ENOSPC");
    assert_eq!(m.fs_ranges.free, vec![(0, FS_RULES_CAPACITY)]);
    assert_eq!(m.exec_ranges.free, vec![(0, EXEC_RULES_CAPACITY)]);
}

#[test]
fn updates_that_cannot_be_begun_change_nothing() {
    let (mut m, _) = registered(7);
    let none = ids(0);
    assert!(m.update_policy(CgroupId::new(8), &plan(1, vec![]), &ExecSource::Resolved(&none)).is_err());
    let e = m.update_policy(CgroupId::new(7), &plan(65, vec![]), &ExecSource::Resolved(&none)).unwrap_err_text();
    assert!(e.contains("65"), "{e}");
    let many = ids(65);
    assert!(m.update_policy(CgroupId::new(7), &plan(1, vec![]), &ExecSource::Resolved(&many)).is_err());
    let bad = vec![BpfNetRule { cidr: "nowhere".into(), ports: vec![53] }];
    assert!(m.update_policy(CgroupId::new(7), &plan(1, bad), &ExecSource::Resolved(&none)).is_err());
    assert_eq!(m.fs_ranges.free, vec![(0, FS_RULES_CAPACITY)]);
    assert_eq!(m.exec_ranges.free, vec![(0, EXEC_RULES_CAPACITY)]);
}

/// The text of an error, of a result whose value is not shown.
trait ErrText {
    fn unwrap_err_text(self) -> String;
}

impl<T> ErrText for Result<T, Error> {
    fn unwrap_err_text(self) -> String {
        match self {
            Ok(_) => panic!("no error"),
            Err(e) => e.to_string(),
        }
    }
}

#[test]
fn taking_a_sandbox_down_deletes_its_context_last() {
    let (mut m, ctx) = registered(7);
    let net = vec![BpfNetRule { cidr: "10.0.0.0/8".into(), ports: vec![53] }];
    let exec = ids(1);
    let t = m.update_policy(CgroupId::new(7), &plan(2, net), &ExecSource::Resolved(&exec)).unwrap();
    m.commit_update(&t, &Ok(Some(ctx))).unwrap();
    m.finish_update(t);
    let gone = m.deregister_sandbox(&CgroupId::new(7)).unwrap();
    assert_eq!(gone.len(), 5);
    assert_eq!(gone[4].map, MapName::Sandboxes);
    assert_eq!(gone[4].key, 7u64.to_ne_bytes().to_vec());
    assert_eq!(m.fs_ranges.free, vec![(0, FS_RULES_CAPACITY)]);
    assert!(m.deregister_sandbox(&CgroupId::new(7)).is_none());
    assert_eq!(
        BpfManager::deregister_failed(&CgroupId::new(7), "EIO").to_string(),
        "launch failed: delete cgroup 7 from BPF sandboxes map: EIO"
    );
}

#[test]
fn a_turn_is_dirty_by_the_kernels_flag_and_unknown_without_it() {
    let cg = CgroupId::new(3);
    let mut c = SandboxCtx::registered_for_setup();
    assert!(!BpfManager::is_turn_dirty(&cg, &Ok(Some(c.to_bytes()))).unwrap());
    c.flags = SandboxCtx::FLAG_DIRTY;
    assert!(BpfManager::is_turn_dirty(&cg, &Ok(Some(c.to_bytes()))).unwrap());
    assert!(BpfManager::is_turn_dirty(&cg, &Ok(None)).is_err());
    assert!(BpfManager::is_turn_dirty(&cg, &Ok(Some(vec![0; 47]))).is_err());
    assert!(BpfManager::is_turn_dirty(&cg, &Err("EIO".to_string())).is_err());
    assert_eq!(BpfManager::read_ctx(cg, &Ok(Some(c.to_bytes()))).unwrap(), c);
}

#[test]
fn setup_clears_enforcement_and_nothing_else() {
    let (m, _) = registered(7);
    let mut c = SandboxCtx::deny_all();
    c.flags |= SandboxCtx::FLAG_DIRTY;
    let w = m.begin_setup(CgroupId::new(7), &Ok(Some(c.to_bytes()))).unwrap();
    let after = SandboxCtx::from_bytes(&w.value).unwrap();
    assert_eq!(after.flags, SandboxCtx::FLAG_DIRTY);
    assert_eq!(after.turn_id, c.turn_id);
    assert!(m.begin_setup(CgroupId::new(9), &Ok(Some(c.to_bytes()))).is_err());
    assert!(BpfManager::setup_failed(CgroupId::new(7), "EIO").to_string().contains("EIO"));
    assert!(BpfManager::swap_failed(CgroupId::new(7), "EIO").to_string().contains("EIO"));
}

#[test]
fn host_paths_are_looked_up_for_an_update() {
    let (mut m, _) = registered(7);
    let mut p = plan(0, vec![]);
    p.exec_rules.push(rule("/bin/x", false, None));
    let seen = vec![ExecLookup::File { dev: 0, inode: 77, contents: Ok(vec![]) }];
    let t = m.update_policy(CgroupId::new(7), &p, &ExecSource::HostPaths(&seen)).unwrap();
    assert_eq!(t.exec_count, 1);
    assert_eq!(t.writes[0].value[8..16], 77u64.to_ne_bytes());
}
