use std::sync::Arc;

use aivisor::broker::course::{outgoing_head, Course, CourseAct, CourseEvent, CoursePhase};
use aivisor::broker::egress::{
    EgressPolicy, Refusal, Request, Route, SecretProvider, StaticSecrets, MAX_HEADER_BYTES,
};
use aivisor::broker::forward::{
    authorize, build_head, charge, pump_step, resolve_pinned, serve_connect, serve_plain, serve_request, Forward,
    IpAddr, PlainRequest, SocketAddr,
};
use aivisor::broker::head::{read_request, split_authority, HeadReader, HeadStep};
use aivisor::broker::proxy::{Broker, DEFAULT_BYTE_BUDGET};
use aivisor::id::SandboxId;

struct Harness {
    broker: Broker,
    policy: EgressPolicy<StaticSecrets>,
    origin: String,
}

/// A broker whose policy allows `methods` to one host, optionally with a credential.
fn harness(methods: &[&str], secret: Option<(&str, &str)>, max_request_bytes: u64) -> Harness {
    let mut secrets = StaticSecrets::new();
    if let Some((header, value)) = secret {
        secrets.insert("127.0.0.1", header, value);
    }
    Harness {
        broker: Broker::new(),
        policy: EgressPolicy {
            routes: vec![Route {
                hosts: vec!["127.0.0.1".into()],
                methods: methods.iter().map(|m| (*m).to_string()).collect(),
            }],
            max_request_bytes,
            secrets: Arc::new(secrets),
        },
        origin: "127.0.0.1:8080".to_string(),
    }
}

/// The lines of a request's head, each with its line end.
fn lines(raw: &str) -> Vec<String> {
    raw.split_inclusive('\n').map(|l| l.to_string()).collect()
}

/// What becomes of a raw request: what is sent upstream, or the answer to its sender.
fn through_proxy(h: &mut Harness, raw: &str) -> Result<String, String> {
    let request = read_request(&lines(raw)).map_err(|r| r.response())?;
    let (token, forward) = serve_request(&h.broker, &h.policy, &request).map_err(|r| r.response())?;
    match forward {
        Forward::Plain(p) => {
            let credential = h.policy.secrets.header_for(&p.host);
            let head = build_head(&request, &p.path, &p.authority, &credential);
            charge(&mut h.broker, &token, head.len() as u64).map_err(|r| r.response())?;
            Ok(head)
        }
        Forward::Tunnel { host, port } => Ok(format!("tunnel {host} {port}")),
    }
}

fn get_via_proxy(h: &mut Harness, token: &str, method: &str, host: &str) -> Result<String, String> {
    let request = format!(
        "{method} http://{host}/path HTTP/1.1\r\n\
         Host: {host}\r\n\
         Proxy-Authorization: Bearer {token}\r\n\
         \r\n"
    );
    through_proxy(h, &request)
}

fn session(h: &mut Harness) -> String {
    h.broker.issue_session(SandboxId::new()).unwrap()
}

#[test]
fn allowed_host_and_method_reach_the_origin() {
    let mut h = harness(&["GET"], None, 1024);
    let token = session(&mut h);
    let origin = h.origin.clone();
    let head = get_via_proxy(&mut h, &token, "GET", &origin).unwrap();
    assert_eq!(head, "GET /path HTTP/1.1\r\nHost: 127.0.0.1:8080\r\nConnection: close\r\n\r\n");
    assert_eq!(h.broker.remaining_budget(&token), Some(DEFAULT_BYTE_BUDGET - head.len() as u64));
}

#[test]
fn a_host_no_route_covers_is_refused() {
    let mut h = harness(&["GET"], None, 1024);
    let token = session(&mut h);
    let response = get_via_proxy(&mut h, &token, "GET", "example.invalid").unwrap_err();
    assert!(response.starts_with("HTTP/1.1 403"), "{response}");
}

#[test]
fn a_method_outside_the_route_is_refused() {
    let mut h = harness(&["GET"], None, 1024);
    let token = session(&mut h);
    let origin = h.origin.clone();
    let response = get_via_proxy(&mut h, &token, "DELETE", &origin).unwrap_err();
    assert!(response.starts_with("HTTP/1.1 403"), "{response}");
}

#[test]
fn an_empty_method_list_permits_nothing() {
    let mut h = harness(&[], None, 1024);
    let token = session(&mut h);
    let origin = h.origin.clone();
    let response = get_via_proxy(&mut h, &token, "GET", &origin).unwrap_err();
    assert!(response.starts_with("HTTP/1.1 403"), "{response}");
}

#[test]
fn requests_without_a_session_token_are_refused() {
    let mut h = harness(&["GET"], None, 1024);
    let host = h.origin.clone();
    let response =
        through_proxy(&mut h, &format!("GET http://{host}/path HTTP/1.1\r\nHost: {host}\r\n\r\n")).unwrap_err();
    assert!(response.starts_with("HTTP/1.1 407"), "{response}");
}

#[test]
fn an_unknown_session_token_is_refused() {
    let mut h = harness(&["GET"], None, 1024);
    let origin = h.origin.clone();
    let response = get_via_proxy(&mut h, "aiv-ses-not-a-real-token", "GET", &origin).unwrap_err();
    assert!(response.starts_with("HTTP/1.1 407"), "{response}");
}

#[test]
fn the_credential_is_added_on_the_way_out_and_the_token_is_stripped() {
    let mut h = harness(&["GET"], Some(("Authorization", "Bearer super-secret")), 1024);
    let token = session(&mut h);
    let origin = h.origin.clone();
    let head = get_via_proxy(&mut h, &token, "GET", &origin).unwrap();
    assert!(head.contains("Authorization: Bearer super-secret"), "{head}");
    assert!(!head.contains("Proxy-Authorization"), "{head}");
    assert!(!head.to_lowercase().contains(&token.to_lowercase()), "{head}");
}

#[test]
fn a_body_over_the_limit_is_refused_before_it_is_relayed() {
    let mut h = harness(&["POST"], None, 16);
    let token = session(&mut h);
    let host = h.origin.clone();
    let request = format!(
        "POST http://{host}/path HTTP/1.1\r\n\
         Host: {host}\r\n\
         Proxy-Authorization: Bearer {token}\r\n\
         Content-Length: 64\r\n\
         \r\n"
    );
    let response = through_proxy(&mut h, &request).unwrap_err();
    assert!(response.starts_with("HTTP/1.1 413"), "{response}");
    // Nothing was charged, so nothing was about to move.
    assert_eq!(h.broker.remaining_budget(&token), Some(DEFAULT_BYTE_BUDGET));
}

#[test]
fn a_chunked_body_is_refused_rather_than_relayed_unmeasured() {
    let mut h = harness(&["POST"], None, 1024);
    let token = session(&mut h);
    let host = h.origin.clone();
    let request = format!(
        "POST http://{host}/path HTTP/1.1\r\n\
         Host: {host}\r\n\
         Proxy-Authorization: Bearer {token}\r\n\
         Transfer-Encoding: chunked\r\n\
         \r\n"
    );
    let response = through_proxy(&mut h, &request).unwrap_err();
    assert!(response.starts_with("HTTP/1.1 400"), "{response}");
}

#[test]
fn exhausting_the_byte_budget_stops_further_egress() {
    let mut h = harness(&["GET"], None, 1024);
    let token = session(&mut h);
    let budget = h.broker.remaining_budget(&token).unwrap();
    h.broker.record_bytes(&token, budget).unwrap();
    assert_eq!(h.broker.remaining_budget(&token), Some(0));
    let origin = h.origin.clone();
    let response = get_via_proxy(&mut h, &token, "GET", &origin).unwrap_err();
    assert!(response.starts_with("HTTP/1.1 403"), "{response}");
}

#[test]
fn a_wildcard_route_matches_subdomains_but_not_the_apex() {
    let route = Route {
        hosts: vec!["*.example.com".into()],
        methods: vec!["GET".into()],
    };
    let policy = EgressPolicy {
        routes: vec![route],
        max_request_bytes: 1024,
        secrets: Arc::new(StaticSecrets::new()),
    };
    assert!(policy.permits_host("api.example.com"));
    assert!(policy.permits_host("deep.api.example.com"));
    assert!(
        !policy.permits_host("example.com"),
        "a bare apex is not a subdomain and must not match *.example.com"
    );
    assert!(
        !policy.permits_host("notexample.com"),
        "suffix matching must respect the dot boundary"
    );
    assert!(
        !policy.permits_host("example.com.evil.test"),
        "the pattern must not match when it appears mid-name"
    );
}

#[test]
fn connect_to_an_unlisted_host_is_refused() {
    let mut h = harness(&["GET"], None, 1024);
    let token = session(&mut h);
    let response = through_proxy(
        &mut h,
        &format!(
            "CONNECT example.invalid:443 HTTP/1.1\r\n\
             Proxy-Authorization: Bearer {token}\r\n\r\n"
        ),
    )
    .unwrap_err();
    assert!(response.starts_with("HTTP/1.1 403"), "{response}");
}

#[test]
fn connect_without_a_token_is_refused() {
    let mut h = harness(&["GET"], None, 1024);
    let host = h.origin.clone();
    let response = through_proxy(&mut h, &format!("CONNECT {host} HTTP/1.1\r\n\r\n")).unwrap_err();
    assert!(response.starts_with("HTTP/1.1 407"), "{response}");
}

#[test]
fn connect_to_an_allowed_host_tunnels_bytes() {
    let mut h = harness(&["GET"], None, 1024);
    let token = session(&mut h);
    let host = h.origin.clone();
    let got = through_proxy(
        &mut h,
        &format!("CONNECT {host} HTTP/1.1\r\nProxy-Authorization: Bearer {token}\r\n\r\n"),
    );
    assert_eq!(got, Ok("tunnel 127.0.0.1 8080".to_string()));
    // Bytes flow while the budget reaches, and are charged as they do.
    assert!(pump_step(&mut h.broker, &token, Some(1000)));
    assert_eq!(h.broker.remaining_budget(&token), Some(DEFAULT_BYTE_BUDGET - 1000));
    assert!(!pump_step(&mut h.broker, &token, Some(DEFAULT_BYTE_BUDGET as usize)));
    assert_eq!(h.broker.remaining_budget(&token), Some(DEFAULT_BYTE_BUDGET - 1000));
    assert!(!pump_step(&mut h.broker, &token, None));
    assert!(!pump_step(&mut h.broker, &token, Some(0)));
}

fn v4(a: u8, b: u8, c: u8, d: u8) -> SocketAddr {
    SocketAddr { ip: IpAddr::V4([a, b, c, d]), port: 80, flowinfo: 0, scope_id: 0 }
}

#[test]
fn the_first_address_is_used_unless_any_is_a_metadata_address() {
    let good = v4(192, 0, 2, 1);
    assert_eq!(resolve_pinned("h", &Ok(vec![good, v4(192, 0, 2, 2)])).unwrap(), good);
    let scoped = SocketAddr { ip: IpAddr::V6([0xfe80, 0, 0, 0, 0, 0, 0, 1]), port: 80, flowinfo: 7, scope_id: 3 };
    assert_eq!(resolve_pinned("h", &Ok(vec![scoped, good])).unwrap(), scoped);
    let bad = [
        v4(169, 254, 169, 254),
        v4(168, 63, 129, 16),
        SocketAddr { ip: IpAddr::V6([0xfd00, 0xec2, 0, 0, 0, 0, 0, 0x254]), port: 80, flowinfo: 0, scope_id: 0 },
        SocketAddr { ip: IpAddr::V6([0xfd00, 0xec2, 0, 0, 0, 0, 0, 0x254]), port: 80, flowinfo: 1, scope_id: 2 },
    ];
    for addr in bad {
        let e = resolve_pinned("h", &Ok(vec![good, addr])).unwrap_err();
        assert_eq!(e.status(), (403, "Forbidden"));
        assert_eq!(e.detail(), "h resolves to a cloud metadata address — always blocked");
    }
    let e = resolve_pinned("h", &Ok(vec![])).unwrap_err();
    assert_eq!(e.detail(), "h resolved to no addresses");
    let e = resolve_pinned("h", &Err("no answer".to_string())).unwrap_err();
    assert_eq!(e.status(), (502, "Bad Gateway"));
    assert_eq!(e.detail(), "resolve h: no answer");
}

#[test]
fn an_authority_names_a_host_and_a_port() {
    assert_eq!(split_authority("h", 80).unwrap(), ("h".to_string(), 80));
    assert_eq!(split_authority("h:8080", 80).unwrap(), ("h".to_string(), 8080));
    assert_eq!(split_authority("[::1]", 443).unwrap(), ("::1".to_string(), 443));
    assert_eq!(split_authority("[::1]:8443", 443).unwrap(), ("::1".to_string(), 8443));
    assert_eq!(split_authority("h:x", 80).unwrap_err().detail(), "bad port in \"h:x\"");
    assert_eq!(split_authority("h:65536", 80).unwrap_err().status().0, 400);
    assert_eq!(split_authority("[::1", 80).unwrap_err().detail(), "malformed IPv6 authority: \"[::1\"");
}

#[test]
fn a_head_is_a_request_line_and_headers() {
    let r = read_request(&lines("GET http://h/ HTTP/1.1\r\nA: 1\r\na:  2 \r\n\r\nbody")).unwrap();
    assert_eq!(r.method, "GET");
    assert_eq!(r.target, "http://h/");
    assert_eq!(r.headers.len(), 2);
    assert_eq!(r.header("a"), Some("1"));
    assert_eq!(r.header("b"), None);
    assert_eq!(read_request(&lines("GET\r\n\r\n")).unwrap_err().detail(), "malformed request line");
    assert_eq!(
        read_request(&lines("GET x\r\nno colon\r\n\r\n")).unwrap_err().detail(),
        "malformed header: \"no colon\""
    );
    assert_eq!(
        read_request(&lines("GET x\r\nA: 1\r\n")).unwrap_err().detail(),
        "connection closed mid-request"
    );
    assert_eq!(read_request(&vec![]).unwrap_err().detail(), "connection closed mid-request");
}

#[test]
fn a_head_has_its_limit() {
    let mut raw = "GET x\r\n".to_string();
    raw.push_str(&"A: 1\r\n".repeat(MAX_HEADER_BYTES / 6));
    raw.push_str("\r\n");
    let e = read_request(&lines(&raw)).unwrap_err();
    assert_eq!(e.status(), (413, "Payload Too Large"));
    assert_eq!(e.detail(), "request head exceeded 65536 bytes");
    match HeadReader::new().take_line(Err("reset".to_string())) {
        Err(e) => assert_eq!(e.detail(), "read: reset"),
        Ok(_) => panic!("a failed read is no line"),
    }
    match HeadReader::new().take_line(Ok("GET x\r\n".to_string())) {
        Ok(HeadStep::More(h)) => assert_eq!(h.consumed, 7),
        _ => panic!("the head has only begun"),
    }
}

#[test]
fn a_head_is_never_read_beyond_its_room() {
    let head = HeadReader::new();
    assert_eq!(head.room(), MAX_HEADER_BYTES + 1);
    // A line without an end fills the room, whatever it holds.
    let e = head.take_read(MAX_HEADER_BYTES + 1, Ok("x".repeat(MAX_HEADER_BYTES + 1))).unwrap_err();
    assert_eq!(e.detail(), "request head exceeded 65536 bytes");
    let e = HeadReader::new().take_read(MAX_HEADER_BYTES + 1, Err("not UTF-8".to_string())).unwrap_err();
    assert_eq!(e.status(), (413, "Payload Too Large"));
    let next = match HeadReader::new().take_read(7, Ok("GET x\r\n".to_string())) {
        Ok(HeadStep::More(h)) => h,
        _ => panic!("the head has only begun"),
    };
    assert_eq!(next.room(), MAX_HEADER_BYTES - 6);
    let e = next.take_read(3, Err("reset".to_string())).unwrap_err();
    assert_eq!(e.detail(), "read: reset");
}

fn plain_way(host: &str, body_len: u64) -> Forward {
    Forward::Plain(PlainRequest {
        host: host.to_string(),
        port: 80,
        authority: host.to_string(),
        path: "/p".to_string(),
        body_len,
    })
}

#[test]
fn a_plain_request_is_charged_before_it_is_sent() {
    let mut h = harness(&["POST"], Some(("Authorization", "Bearer real")), 16);
    h.broker.open_session("t", SandboxId::new(), None);
    let r = request("POST", "http://127.0.0.1/p", &[("Content-Length", "5")]);
    let way = plain_way("127.0.0.1", 5);
    let want = "POST /p HTTP/1.1\r\nContent-Length: 5\r\nHost: 127.0.0.1\r\nAuthorization: Bearer real\r\nConnection: close\r\n\r\n";
    if let Forward::Plain(p) = &way {
        assert_eq!(outgoing_head(&h.policy, &r, p), want);
    }
    let mut course = Course::new();
    let mut go = |e: CourseEvent| course.next(&mut h.broker, &h.policy, &r, &way, "t", e);
    assert!(matches!(go(CourseEvent::Done), Ok(CourseAct::Resolve)));
    let addr = v4(192, 0, 2, 1);
    match go(CourseEvent::Resolved(Ok(vec![addr]))) {
        Ok(CourseAct::Connect(a)) => assert_eq!(a, addr),
        _ => panic!("the address is connected to"),
    }
    match go(CourseEvent::Done) {
        Ok(CourseAct::WriteHead(head)) => assert_eq!(head, want),
        _ => panic!("the head is sent"),
    }
    assert!(matches!(go(CourseEvent::Done), Ok(CourseAct::ReadBody(5))));
    assert!(matches!(go(CourseEvent::Done), Ok(CourseAct::WriteBody)));
    assert!(matches!(go(CourseEvent::Done), Ok(CourseAct::Relay)));
    assert_eq!(course.phase, CoursePhase::Over);
    assert_eq!(h.broker.remaining_budget("t"), Some(DEFAULT_BYTE_BUDGET - want.len() as u64 - 5));
}

#[test]
fn a_session_without_budget_sends_nothing() {
    let mut h = harness(&["GET"], None, 0);
    h.broker.open_session("t", SandboxId::new(), None);
    h.broker.record_bytes("t", DEFAULT_BYTE_BUDGET).unwrap();
    let r = request("GET", "http://127.0.0.1/p", &[]);
    let way = plain_way("127.0.0.1", 0);
    let mut course = Course::new();
    course.next(&mut h.broker, &h.policy, &r, &way, "t", CourseEvent::Done).unwrap();
    let addrs = CourseEvent::Resolved(Ok(vec![v4(192, 0, 2, 1)]));
    course.next(&mut h.broker, &h.policy, &r, &way, "t", addrs).unwrap();
    let e = course.next(&mut h.broker, &h.policy, &r, &way, "t", CourseEvent::Done).unwrap_err();
    assert_eq!(e.status(), (403, "Forbidden"));
    assert!(e.detail().starts_with("egress budget: "), "{}", e.detail());
}

#[test]
fn every_failure_on_the_way_has_its_answer() {
    let h = harness(&["GET"], None, 0);
    let r = request("GET", "http://127.0.0.1/p", &[]);
    let way = plain_way("127.0.0.1", 1);
    let cases = [
        (CoursePhase::Connecting, 502, "connect to 127.0.0.1: m"),
        (CoursePhase::SendingHead, 502, "write head: m"),
        (CoursePhase::ReadingBody, 400, "read body: m"),
        (CoursePhase::SendingBody, 502, "write body: m"),
        (CoursePhase::Establishing, 502, "write CONNECT response: m"),
    ];
    for (phase, code, detail) in cases {
        let mut course = Course { phase };
        let event = CourseEvent::Failed("m".to_string());
        let e = course.next(&mut Broker::new(), &h.policy, &r, &way, "t", event).unwrap_err();
        assert_eq!((e.status().0, e.detail()), (code, detail));
        assert_eq!(course.phase, CoursePhase::Over);
    }
}

#[test]
fn a_tunnel_is_opened_to_an_address_that_was_checked() {
    let h = harness(&[], None, 0);
    let r = request("CONNECT", "h:443", &[]);
    let way = Forward::Tunnel { host: "h".to_string(), port: 443 };
    let mut broker = Broker::new();
    let mut course = Course::new();
    let mut go = |e: CourseEvent| course.next(&mut broker, &h.policy, &r, &way, "t", e);
    assert!(matches!(go(CourseEvent::Done), Ok(CourseAct::Resolve)));
    assert!(matches!(go(CourseEvent::Resolved(Ok(vec![v4(192, 0, 2, 1)]))), Ok(CourseAct::Connect(_))));
    assert!(matches!(go(CourseEvent::Done), Ok(CourseAct::Establish)));
    assert!(matches!(go(CourseEvent::Done), Ok(CourseAct::Relay)));
    let mut course = Course { phase: CoursePhase::Resolving };
    let answers = CourseEvent::Resolved(Ok(vec![v4(169, 254, 169, 254)]));
    let e = course.next(&mut broker, &h.policy, &r, &way, "t", answers).unwrap_err();
    assert_eq!(e.detail(), "h resolves to a cloud metadata address — always blocked");
    assert!(!e.response().contains("169"));
}

#[test]
fn every_refusal_has_its_status_and_its_answer() {
    let all = [
        (Refusal::BadRequest("d".into()), 400, "Bad Request"),
        (Refusal::Unauthorized("d".into()), 407, "Proxy Authentication Required"),
        (Refusal::Forbidden("d".into()), 403, "Forbidden"),
        (Refusal::TooLarge("d".into()), 413, "Payload Too Large"),
        (Refusal::Upstream("d".into()), 502, "Bad Gateway"),
    ];
    for (r, code, reason) in all {
        assert_eq!(r.status(), (code, reason));
        assert_eq!(r.detail(), "d");
        let body = "aivisor-broker: d\n";
        assert_eq!(
            r.response(),
            format!(
                "HTTP/1.1 {code} {reason}\r\nContent-Length: {}\r\nContent-Type: text/plain\r\nConnection: close\r\n\r\n{body}",
                body.len()
            )
        );
    }
    // The length counts bytes, not characters.
    let r = Refusal::Forbidden("\u{2014}".into());
    assert!(r.response().contains("Content-Length: 20\r\n"), "{}", r.response());
}

fn request(method: &str, target: &str, headers: &[(&str, &str)]) -> Request {
    Request {
        method: method.to_string(),
        target: target.to_string(),
        headers: headers.iter().map(|(n, v)| (n.to_string(), v.to_string())).collect(),
    }
}

#[test]
fn a_token_follows_the_word_bearer() {
    let mut broker = Broker::new();
    broker.open_session("t", SandboxId::new(), None);
    let ok = request("GET", "/", &[("proxy-authorization", "Bearer  t ")]);
    assert_eq!(authorize(&broker, &ok).unwrap(), "t");
    for value in ["Basic t", "bearer t", "t"] {
        let r = request("GET", "/", &[("Proxy-Authorization", value)]);
        assert_eq!(
            authorize(&broker, &r).unwrap_err().detail(),
            "missing Proxy-Authorization: Bearer <session token>"
        );
    }
    let r = request("GET", "/", &[("Proxy-Authorization", "Bearer u")]);
    assert_eq!(authorize(&broker, &r).unwrap_err().detail(), "unknown session token");
}

#[test]
fn a_plain_request_is_checked_in_full() {
    let h = harness(&["POST"], None, 16);
    let plain = |target: &str, headers: &[(&str, &str)]| serve_plain(&h.policy, &request("post", target, headers));
    let p = plain("http://127.0.0.1", &[("Content-Length", "16")]).unwrap();
    assert_eq!((p.host.as_str(), p.port, p.path.as_str(), p.body_len), ("127.0.0.1", 80, "/", 16));
    assert_eq!(plain("http://127.0.0.1:81/a/b?c", &[]).unwrap().path, "/a/b?c");
    assert_eq!(
        plain("/path", &[]).unwrap_err().detail(),
        "expected an absolute http:// target, got \"/path\" — this is a forward proxy, not an origin server"
    );
    assert_eq!(plain("http://other/", &[]).unwrap_err().detail(), "no egress route permits host \"other\"");
    assert_eq!(
        plain("http://127.0.0.1/", &[("Transfer-Encoding", "gzip")]).unwrap_err().detail(),
        "Transfer-Encoding: gzip is not supported; send a Content-Length body"
    );
    assert_eq!(
        plain("http://127.0.0.1/", &[("Content-Length", "-1")]).unwrap_err().detail(),
        "bad Content-Length"
    );
    assert_eq!(
        plain("http://127.0.0.1/", &[("Content-Length", "17")]).unwrap_err().detail(),
        "request body of 17 bytes exceeds the 16 byte limit"
    );
    let get = serve_plain(&h.policy, &request("GET", "http://127.0.0.1/", &[]));
    assert_eq!(get.unwrap_err().detail(), "method GET is not permitted for 127.0.0.1");
}

#[test]
fn a_tunnel_goes_to_the_usual_port_of_https() {
    let h = harness(&[], None, 0);
    let t = serve_connect(&h.policy, &request("CONNECT", "127.0.0.1", &[])).unwrap();
    assert_eq!(t, ("127.0.0.1".to_string(), 443));
    let e = serve_connect(&h.policy, &request("CONNECT", "other:443", &[])).unwrap_err();
    assert_eq!(e.detail(), "no egress route permits host \"other\"");
}

#[test]
fn headers_of_one_hop_stay_here() {
    let r = request(
        "GET",
        "http://h/",
        &[
            ("Connection", "x"),
            ("PROXY-AUTHORIZATION", "x"),
            ("proxy-connection", "x"),
            ("Keep-Alive", "x"),
            ("TE", "x"),
            ("Trailer", "x"),
            ("Transfer-Encoding", "x"),
            ("Upgrade", "x"),
            ("host", "elsewhere"),
            ("Accept", "*/*"),
        ],
    );
    let credential = Some(("X-Key".to_string(), "k".to_string()));
    assert_eq!(
        build_head(&r, "/", "h", &credential),
        "GET / HTTP/1.1\r\nAccept: */*\r\nHost: h\r\nX-Key: k\r\nConnection: close\r\n\r\n"
    );
}

#[test]
fn credentials_belong_to_a_host_whatever_its_case() {
    let mut s = StaticSecrets::new();
    s.insert("Api.Example.com", "Authorization", "one");
    s.insert("api.example.com", "Authorization", "two");
    assert_eq!(s.header_for("API.example.COM"), Some(("Authorization".to_string(), "two".to_string())));
    assert_eq!(s.header_for("example.com"), None);
}

#[test]
fn the_first_route_that_covers_a_host_decides() {
    let policy = EgressPolicy {
        routes: vec![
            Route { hosts: vec!["a.x".into()], methods: vec![] },
            Route { hosts: vec!["*.X".into()], methods: vec!["GET".into()] },
        ],
        max_request_bytes: 0,
        secrets: Arc::new(StaticSecrets::new()),
    };
    assert_eq!(policy.route_for("A.x"), Some(0));
    assert_eq!(policy.route_for("b.x"), Some(1));
    assert_eq!(policy.route_for("x"), None);
    assert!(!policy.routes[0].allows_method("GET"));
    assert!(policy.routes[1].allows_method("get"));
    assert!(policy.routes[1].matches_host("B.x"));
}

#[test]
fn a_charge_over_the_budget_is_forbidden() {
    let mut broker = Broker::new();
    broker.open_session("t", SandboxId::new(), None);
    assert!(charge(&mut broker, "t", 10).is_ok());
    let e = charge(&mut broker, "t", DEFAULT_BYTE_BUDGET).unwrap_err();
    assert_eq!(e.status().0, 403);
    assert!(e.detail().starts_with("egress budget: "), "{}", e.detail());
    assert!(charge(&mut broker, "u", 1).is_err());
}
