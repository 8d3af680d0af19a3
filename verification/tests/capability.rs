use aivisor::capability::Capability;

#[test]
fn parses_a_network_grant() {
    let cap: Capability = "net:203.0.113.7/32:53,80".parse().unwrap();
    assert_eq!(
        cap,
        Capability::Network {
            cidr: "203.0.113.7/32".into(),
            ports: vec![53, 80],
        }
    );
    assert_eq!(cap.kind(), "net");
}

#[test]
fn parses_a_filesystem_grant() {
    let cap: Capability = "fs:/data:read,write".parse().unwrap();
    assert_eq!(
        cap,
        Capability::Filesystem {
            path: "/data".into(),
            access: vec!["read".into(), "write".into()],
        }
    );
}

#[test]
fn parses_an_exec_grant() {
    let cap: Capability = "exec:/usr/bin/git".parse().unwrap();
    assert_eq!(
        cap,
        Capability::Exec {
            path: "/usr/bin/git".into()
        }
    );
}

#[test]
fn every_form_round_trips_through_its_string() {
    for s in [
        "net:10.0.0.0/8:53",
        "fs:/workspace:read,write,create",
        "exec:/bin/sh",
    ] {
        let cap: Capability = s.parse().unwrap();
        assert_eq!(cap.to_string(), s);
    }
}

#[test]
fn relative_paths_are_refused() {
    assert!("fs:data:read".parse::<Capability>().is_err());
    assert!("exec:git".parse::<Capability>().is_err());
}

#[test]
fn malformed_grants_are_errors_not_silently_narrower_ones() {
    for s in [
        "",
        "net",
        "net:10.0.0.0/8",        // no ports
        "net:10.0.0.0/8:",       // empty port list
        "net:10.0.0.0/8:http",   // not a number
        "net:10.0.0.0/8:70000",  // out of u16 range
        "net::53",               // empty cidr
        "fs:/data",              // no access list
        "fs:/data:",             // empty access list
        "capability:/data:read", // unknown kind
        "exec:",                 // empty path
    ] {
        assert!(
            s.parse::<Capability>().is_err(),
            "{s:?} should not have parsed"
        );
    }
}

#[test]
fn refusals_show_what_was_given() {
    let e = Capability::parse("bogus:\"x\"").unwrap_err();
    assert!(e.to_string().contains("bogus"), "{}", e.to_string());
    let e = Capability::parse("exec:a\tb").unwrap_err();
    // The path stands in quotes, with its tab escaped.
    assert!(e.to_string().contains("a\\tb"), "{}", e.to_string());
}

#[test]
fn each_form_has_its_kind() {
    assert_eq!(Capability::parse("fs:/data:read").unwrap().kind(), "fs");
    assert_eq!(Capability::parse("exec:/bin/sh").unwrap().kind(), "exec");
}

#[test]
fn parts_are_trimmed_and_shown_without_spaces() {
    let cap = Capability::parse("net:10.0.0.0/8: 53 , 80 ");
    match cap {
        Ok(c) => assert_eq!(c.to_string(), "net:10.0.0.0/8:53,80"),
        Err(e) => panic!("{}", e.to_string()),
    }
}

#[test]
fn what_was_read_reads_back_and_plain_texts_stay() {
    // Blanks, empty entries, a sign and leading zeros are not shown again, and nothing else changes.
    let loose = [
        ("net:10.0.0.0/8: +053 ,80", "net:10.0.0.0/8:53,80"),
        ("net:fd00::/8:0", "net:fd00::/8:0"),
        ("fs:/a:b: read ,,write", "fs:/a:b:read,write"),
        ("exec:/a:b, c", "exec:/a:b, c"),
    ];
    for (s, plain) in loose {
        let c: Capability = s.parse().unwrap();
        assert_eq!(c.to_string(), plain);
        assert_eq!(plain.parse::<Capability>().unwrap(), c);
        assert_eq!(c.clone(), c);
    }
}
