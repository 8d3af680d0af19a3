use aivisor::id::{parse_sandbox_id, sandbox_id_from, CgroupId, SandboxId};

#[test]
fn test_sandbox_id_unique() {
    let a = SandboxId::new();
    let b = SandboxId::new();
    assert_ne!(a, b);
}

#[test]
fn test_sandbox_id_from_bytes_roundtrip() {
    let original = SandboxId::new();
    let uuid = original.as_uuid();
    let bytes = uuid.as_bytes();
    let restored = SandboxId::from_bytes(*bytes);
    assert_eq!(original, restored);
}

#[test]
fn test_sandbox_id_default_is_new() {
    let a = SandboxId::default();
    let b = SandboxId::new();
    assert_ne!(a.to_string(), b.to_string());
}

#[test]
fn test_cgroup_id_new() {
    let cg = CgroupId::new(42);
    assert_eq!(cg.as_raw(), 42);
}

#[test]
fn test_cgroup_id_display() {
    let cg = CgroupId::new(12345);
    assert_eq!(cg.to_string(), "12345");
}

#[test]
fn test_cgroup_id_equality() {
    let a = CgroupId::new(1);
    let b = CgroupId::new(1);
    let c = CgroupId::new(2);
    assert_eq!(a, b);
    assert_ne!(a, c);
}

#[test]
fn identifiers_are_shown_in_groups_of_hexadecimal_digits() {
    let id = SandboxId::from_bytes([
        0x01, 0x90, 0xab, 0xcd, 0xef, 0x01, 0x70, 0x23, 0x84, 0x56, 0x78, 0x9a, 0xbc, 0xde, 0xf0, 0x12,
    ]);
    assert_eq!(id.to_string(), "0190abcd-ef01-7023-8456-789abcdef012");
}

#[test]
fn a_fresh_identifier_has_the_version_that_begins_with_the_time() {
    let bytes = *SandboxId::new().as_uuid().as_bytes();
    assert_eq!(bytes[6] >> 4, 7);
    assert_eq!(bytes[8] >> 6, 2);
}

#[test]
fn an_identifier_is_read_back_from_its_text() {
    let id = SandboxId::new();
    let read = parse_sandbox_id(&id.to_string()).unwrap();
    assert!(read.is(&id));
    assert!(parse_sandbox_id(&id.to_string().to_uppercase()).unwrap().is(&id));
    assert!(!read.is(&SandboxId::new()));
    let e = parse_sandbox_id("not-an-id").unwrap_err();
    assert!(!e.0.is_empty());
}

#[test]
fn what_was_read_becomes_an_identifier_or_an_error() {
    assert!(sandbox_id_from(Ok([3; 16])).unwrap().is(&SandboxId::from_bytes([3; 16])));
    assert_eq!(sandbox_id_from(Err("bad".to_string())).unwrap_err().0, "bad");
}

#[test]
fn different_identifiers_have_different_texts() {
    let mut b = [0u8; 16];
    let a = SandboxId::from_bytes(b);
    b[15] = 1;
    assert_ne!(a.to_string(), SandboxId::from_bytes(b).to_string());
    assert!(!a.is(&SandboxId::from_bytes(b)));
}
