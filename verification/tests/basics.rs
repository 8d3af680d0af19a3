use aivisor::error::Error;
use aivisor::net::parse_ipv4;
use aivisor::number::{format_i64, format_u64, parse_i32, parse_u16, parse_u32, parse_u64, parse_u8};
use aivisor::paths;
use aivisor::sandbox::{CpuQuota, IoLimit, ResourceLimits};
use aivisor::text;

#[test]
fn test_resource_limits_default() {
    let limits = ResourceLimits::default();
    assert!(limits.cpu_max.is_none());
    assert_eq!(limits.swap_max, Some(0));
    assert!(limits.io_max.is_empty());
}

#[test]
fn test_resource_limits_with_values() {
    let limits = ResourceLimits {
        cpu_max: Some(CpuQuota::from_quota(200_000)),
        memory_high: Some(536_870_912),  // 512Mi
        memory_max: Some(1_073_741_824), // 1Gi
        pids_max: Some(512),
        io_max: vec![IoLimit {
            major: 8,
            minor: 0,
            rbps: 104_857_600,
            wbps: 52_428_800,
        }],
        swap_max: Some(0),
    };
    assert!(limits.cpu_max.is_some());
    assert_eq!(limits.pids_max, Some(512));
}

#[test]
fn a_quota_counts_in_periods_of_a_tenth_of_a_second() {
    let q = CpuQuota::from_quota(50_000);
    assert_eq!(q.quota_us, 50_000);
    assert_eq!(q.period_us, 100_000);
}

#[test]
fn every_error_describes_itself() {
    let said = |e: Error| e.to_string();
    assert_eq!(
        said(Error::KernelFeatureMissing { feature: "clone3", min_kernel: "5.3" }),
        "kernel feature missing: clone3 (min kernel: 5.3)"
    );
    assert_eq!(said(Error::CgroupSetup("x".into())), "cgroup setup failed: x");
    assert_eq!(said(Error::NamespaceSetup("x".into())), "namespace setup failed: x");
    assert_eq!(said(Error::MountSetup("x".into())), "mount setup failed: x");
    assert_eq!(said(Error::LaunchFailed("x".into())), "launch failed: x");
    assert_eq!(said(Error::OomKilled), "sandbox OOM killed");
    assert_eq!(said(Error::Timeout), "sandbox timeout exceeded");
    assert_eq!(said(Error::AlreadyTerminated), "sandbox already terminated");
    assert_eq!(said(Error::Io("x".into())), "I/O error: x");
    assert_eq!(said(Error::Serde("x".into())), "serialization error: x");
    assert_eq!(said(Error::PolicyInvalid("x".into())), "invalid policy: x");
    assert_eq!(said(Error::LimitParse("x".into())), "resource limit parse error: x");
    assert_eq!(said(Error::Unsupported("x".into())), "not supported: x");
}

#[test]
fn numbers_are_written_and_read() {
    for n in [0u64, 9, 10, 255, 65536, u64::MAX] {
        assert_eq!(format_u64(n), n.to_string());
        assert_eq!(parse_u64(&n.to_string()), Some(n));
    }
    for n in [0i64, -1, -10, i64::MAX, i64::MIN + 1] {
        assert_eq!(format_i64(n), n.to_string());
    }
    for s in ["", "+", "-", "+7", "-7", "7", "007", " 7", "7 ", "256", "65536", "4294967296", "2147483648", "-2147483648", "1_0", "\u{0661}"] {
        assert_eq!(parse_u8(s), s.parse::<u8>().ok(), "{s:?}");
        assert_eq!(parse_u16(s), s.parse::<u16>().ok(), "{s:?}");
        assert_eq!(parse_u32(s), s.parse::<u32>().ok(), "{s:?}");
        assert_eq!(parse_u64(s), s.parse::<u64>().ok(), "{s:?}");
        assert_eq!(parse_i32(s), s.parse::<i32>().ok(), "{s:?}");
    }
    assert_eq!(parse_u64("18446744073709551616"), None);
}

#[test]
fn addresses_are_four_short_numbers() {
    assert_eq!(parse_ipv4("10.0.0.1"), Some([10, 0, 0, 1]));
    assert_eq!(parse_ipv4("255.255.255.255"), Some([255; 4]));
    for s in ["", "10.0.0", "10.0.0.1.2", "10.0.0.256", "10.0.0.01", "10.0.0.", "a.b.c.d", "10.0.0.+1", " 10.0.0.1"] {
        assert_eq!(parse_ipv4(s), None, "{s:?}");
    }
}

#[test]
fn texts_are_cut_like_the_standard_library_cuts_them() {
    let samples = ["", "a", "a:b", "a:b:c", ":", " a ", "\u{a0}x\u{3000}", "A.B", "l1\nl2\r\nl3\n", "x\ny\r", "\n\n", "\u{e9}:\u{e8}"];
    for s in samples {
        let one = s.split_once(':').map(|(a, b)| (a.to_string(), b.to_string()));
        assert_eq!(text::split_once(s, ':'), one);
        let last = s.rsplit_once(':').map(|(a, b)| (a.to_string(), b.to_string()));
        assert_eq!(text::rsplit_once(s, ':'), last);
        let parts: Vec<String> = s.split(':').map(|p| p.to_string()).collect();
        assert_eq!(text::split(s, ':'), parts);
        assert_eq!(text::trim(s), s.trim());
        let lines: Vec<String> = s.lines().map(|l| l.to_string()).collect();
        assert_eq!(text::lines(s), lines, "{s:?}");
        let words: Vec<String> = s.split_whitespace().map(|w| w.to_string()).collect();
        assert_eq!(text::split_whitespace(s), words);
        assert_eq!(text::to_ascii_lowercase(s), s.to_ascii_lowercase());
        assert_eq!(text::strip_prefix(s, "a"), s.strip_prefix("a").map(|t| t.to_string()));
        assert_eq!(text::contains(s, "b"), s.contains("b"));
        assert_eq!(text::starts_with(s, "a"), s.starts_with("a"));
        assert_eq!(text::ends_with(s, "b"), s.ends_with("b"));
        for t in samples {
            assert_eq!(text::same(s, t), s == t);
            assert_eq!(text::eq_ignore_ascii_case(s, t), s.eq_ignore_ascii_case(t));
        }
    }
    for n in 0..0x3100u32 {
        if let Some(c) = char::from_u32(n) {
            assert_eq!(text::is_whitespace(c), c.is_whitespace(), "{n:#x}");
        }
    }
    assert_eq!(text::join(&vec!["a".to_string(), "b".to_string()], ", "), "a, b");
    assert_eq!(text::join(&vec![], ", "), "");
}

#[test]
fn paths_are_compared_by_components() {
    assert!(paths::starts_with("/usr/bin/git", "/usr"));
    assert!(paths::starts_with("/usr/", "/usr"));
    assert!(paths::starts_with("/usr", "/usr/"));
    assert!(!paths::starts_with("/usrlocal", "/usr"));
    assert!(!paths::starts_with("usr/bin", "/usr"));
    assert!(paths::starts_with("/a/./b", "/a/b"));
    for (a, b) in [("/run", "x"), ("/run/", "x"), ("/run", "/x"), ("", "x"), ("/run", "")] {
        let std_joined = std::path::Path::new(a).join(b);
        assert_eq!(paths::join(a, b), std_joined.to_str().unwrap());
    }
    for a in ["/usr/bin", "/usr//bin/.", "usr/./bin", "/", "", "./a", "../a", "/a/.."] {
        for b in ["/usr", "/usr/bin", "usr", "/", "", ".", "a", "/a"] {
            assert_eq!(
                paths::starts_with(a, b),
                std::path::Path::new(a).starts_with(b),
                "{a:?} {b:?}"
            );
        }
    }
}
