//! What the broker answers, and what it sends on.
use vstd::prelude::*;

use crate::broker::course;
use crate::broker::course::CourseActModel;
use crate::broker::course::CourseEventModel;
use crate::broker::course::CoursePhase;
use crate::broker::egress;
use crate::broker::egress::EgressPolicy;
use crate::broker::egress::Refusal;
use crate::broker::egress::RefusalModel;
use crate::broker::egress::Request;
use crate::broker::egress::RequestModel;
use crate::broker::egress::RouteModel;
use crate::broker::egress::SecretProvider;
use crate::broker::forward;
use crate::broker::forward::Forward;
use crate::broker::forward::ForwardModel;
use crate::broker::forward::IpModel;
use crate::broker::forward::PlainModel;
use crate::broker::forward::SocketAddr;
use crate::broker::head;
use crate::broker::proxy;
use crate::broker::proxy::Broker;
use crate::broker::proxy::SessionState;
use crate::number;
use crate::policy::compile;
use crate::text;

verus! {

/// Whether two texts are the same but for the case of ASCII letters.
pub open spec fn alike(a: Seq<char>, b: Seq<char>) -> bool {
    &&& a.len() == b.len()
    &&& forall|i: int|
        0 <= i < a.len() ==> {
            ||| #[trigger] a[i] == b[i]
            ||| 'A' <= a[i] <= 'Z' && b[i] as int == a[i] as int + 32
            ||| 'A' <= b[i] <= 'Z' && a[i] as int == b[i] as int + 32
        }
}

/// Texts are alike exactly where they are the same in lower case.
pub proof fn alike_is_same_in_lower_case(a: Seq<char>, b: Seq<char>)
    ensures
        alike(a, b) <==> text::lowered(a) == text::lowered(b),
{
    let (x, y) = (text::lowered(a), text::lowered(b));
    if alike(a, b) {
        assert forall|i: int| 0 <= i < a.len() implies x[i] == y[i] by {
            assert(a[i] == a[i]);
        }
        assert(x =~= y);
    }
    assert(x.len() == a.len() && y.len() == b.len());
    if x == y {
        assert forall|i: int| 0 <= i < a.len() implies {
            ||| #[trigger] a[i] == b[i]
            ||| 'A' <= a[i] <= 'Z' && b[i] as int == a[i] as int + 32
            ||| 'A' <= b[i] <= 'Z' && a[i] as int == b[i] as int + 32
        } by {
            assert(x[i] == y[i]);
        }
    }
}

/// Whether a header says something of one connection only, or names the host.
pub open spec fn stays_here(name: Seq<char>) -> bool {
    ||| alike(name, "connection"@)
    ||| alike(name, "proxy-authorization"@)
    ||| alike(name, "proxy-connection"@)
    ||| alike(name, "keep-alive"@)
    ||| alike(name, "te"@)
    ||| alike(name, "trailer"@)
    ||| alike(name, "transfer-encoding"@)
    ||| alike(name, "upgrade"@)
    ||| alike(name, "host"@)
}

proof fn what_stays_here(name: Seq<char>)
    ensures
        stays_here(name) <==> forward::is_hop_by_hop(name) || text::lowered(name) == text::lowered("host"@),
{
    alike_is_same_in_lower_case(name, "connection"@);
    alike_is_same_in_lower_case(name, "proxy-authorization"@);
    alike_is_same_in_lower_case(name, "proxy-connection"@);
    alike_is_same_in_lower_case(name, "keep-alive"@);
    alike_is_same_in_lower_case(name, "te"@);
    alike_is_same_in_lower_case(name, "trailer"@);
    alike_is_same_in_lower_case(name, "transfer-encoding"@);
    alike_is_same_in_lower_case(name, "upgrade"@);
    alike_is_same_in_lower_case(name, "host"@);
}

/// Every header of a request but those of one connection and `Host` is sent on, with its value, in
/// its place among the others; and no other is.
pub proof fn every_other_header_is_sent_on(headers: Seq<(Seq<char>, Seq<char>)>)
    ensures
        forward::forwarded_headers(headers) == headers.filter(|h: (Seq<char>, Seq<char>)| !stays_here(h.0)),
    decreases headers.len(),
{
    let keep = |h: (Seq<char>, Seq<char>)| !stays_here(h.0);
    reveal(Seq::filter);
    if headers.len() > 0 {
        every_other_header_is_sent_on(headers.drop_last());
        what_stays_here(headers.last().0);
    } else {
        assert(forward::forwarded_headers(headers) =~= headers.filter(keep));
    }
}

/// Lines, each with its line end.
pub open spec fn written(lines: Seq<Seq<char>>) -> Seq<char>
    decreases lines.len(),
{
    if lines.len() == 0 {
        Seq::empty()
    } else {
        written(lines.drop_last()) + lines.last() + "\r\n"@
    }
}

/// The line of a header.
pub open spec fn header_line(h: (Seq<char>, Seq<char>)) -> Seq<char> {
    h.0 + ": "@ + h.1
}

/// Whether lines are those of a request's head: the request line, then headers, then an empty line.
pub open spec fn is_head_of(
    lines: Seq<Seq<char>>,
    method: Seq<char>,
    path: Seq<char>,
    headers: Seq<(Seq<char>, Seq<char>)>,
) -> bool {
    &&& lines.len() == headers.len() + 2
    &&& lines[0] == method + " "@ + path + " HTTP/1.1"@
    &&& forall|i: int| 0 <= i < headers.len() ==> #[trigger] lines[i + 1] == header_line(headers[i])
    &&& lines.last() == Seq::<char>::empty()
}

/// The headers that go upstream: those that are sent on, the host that was checked, the credential
/// where there is one, and that the connection ends with the answer.
pub open spec fn headers_sent(
    headers: Seq<(Seq<char>, Seq<char>)>,
    authority: Seq<char>,
    credential: Option<(Seq<char>, Seq<char>)>,
) -> Seq<(Seq<char>, Seq<char>)> {
    headers.filter(|h: (Seq<char>, Seq<char>)| !stays_here(h.0)) + seq![("Host"@, authority)] + (match credential {
        Some(c) => seq![c],
        None => Seq::empty(),
    }) + seq![("Connection"@, "close"@)]
}

proof fn header_lines_are_written(headers: Seq<(Seq<char>, Seq<char>)>)
    ensures
        forward::header_lines(headers) == written(headers.map_values(|h: (Seq<char>, Seq<char>)| header_line(h))),
    decreases headers.len(),
{
    let f = |h: (Seq<char>, Seq<char>)| header_line(h);
    let lines = headers.map_values(f);
    if headers.len() > 0 {
        header_lines_are_written(headers.drop_last());
        assert(lines.drop_last() =~= headers.drop_last().map_values(f));
        let l = headers.last();
        assert(forward::header_lines(headers.drop_last()) + l.0 + ": "@ + l.1 + "\r\n"@ =~= forward::header_lines(
            headers.drop_last(),
        ) + (l.0 + ": "@ + l.1) + "\r\n"@);
    }
}

proof fn written_both(a: Seq<Seq<char>>, b: Seq<Seq<char>>)
    ensures
        written(a + b) == written(a) + written(b),
    decreases b.len(),
{
    if b.len() == 0 {
        assert(a + b =~= a);
        assert(written(a) + written(b) =~= written(a));
    } else {
        assert((a + b).drop_last() =~= a + b.drop_last());
        written_both(a, b.drop_last());
        assert(written(a) + written(b.drop_last()) + b.last() + "\r\n"@ =~= written(a) + (written(b.drop_last())
            + b.last() + "\r\n"@));
    }
}

proof fn written_one(a: Seq<char>)
    ensures
        written(seq![a]) == a + "\r\n"@,
{
    assert(seq![a].drop_last() =~= Seq::<Seq<char>>::empty());
    assert(written(Seq::<Seq<char>>::empty()) =~= Seq::<char>::empty());
    assert(written(seq![a]) =~= a + "\r\n"@);
}

/// What goes upstream for a request is the head of a request: with its method, for the path, and
/// with every header of the request that is not of one connection, in order, then the host that was
/// checked, the credential, and the end of the connection.
pub proof fn what_is_sent_upstream(
    req: RequestModel,
    path: Seq<char>,
    authority: Seq<char>,
    credential: Option<(Seq<char>, Seq<char>)>,
)
    ensures
        exists|lines: Seq<Seq<char>>|
            {
                &&& #[trigger] written(lines) == forward::forward_head(req, path, authority, credential)
                &&& is_head_of(lines, req.method, path, headers_sent(req.headers, authority, credential))
            },
{
    every_other_header_is_sent_on(req.headers);
    let kept = forward::forwarded_headers(req.headers);
    let f = |h: (Seq<char>, Seq<char>)| header_line(h);
    let first = req.method + " "@ + path + " HTTP/1.1"@;
    let a = seq![first] + kept.map_values(f);
    let host = seq![header_line(("Host"@, authority))];
    let cred: Seq<Seq<char>> = match credential {
        Some(c) => seq![header_line(c)],
        None => Seq::empty(),
    };
    let end = seq![header_line(("Connection"@, "close"@)), Seq::<char>::empty()];
    let lines = a + host + cred + end;
    written_both(a + host + cred, end);
    written_both(a + host, cred);
    written_both(a, host);
    written_both(seq![first], kept.map_values(f));
    written_one(first);
    written_one(host[0]);
    header_lines_are_written(kept);
    assert(end =~= seq![end[0]] + seq![end[1]]);
    written_both(seq![end[0]], seq![end[1]]);
    written_one(end[0]);
    written_one(end[1]);
    reveal_strlit("Host");
    reveal_strlit("Host: ");
    reveal_strlit(": ");
    reveal_strlit("Connection");
    reveal_strlit("close");
    reveal_strlit("\r\n");
    reveal_strlit("Connection: close\r\n\r\n");
    reveal_strlit(" HTTP/1.1");
    reveal_strlit(" HTTP/1.1\r\n");
    assert("Host: "@ =~= "Host"@ + ": "@);
    assert("Connection: close\r\n\r\n"@ =~= "Connection"@ + ": "@ + "close"@ + "\r\n"@ + "\r\n"@);
    assert(" HTTP/1.1\r\n"@ =~= " HTTP/1.1"@ + "\r\n"@);
    let lead = req.method + " "@ + path + " HTTP/1.1\r\n"@ + forward::header_lines(kept) + "Host: "@ + authority
        + "\r\n"@;
    assert(written(a + host) =~= lead);
    match credential {
        Some(c) => {
            written_one(header_line(c));
            assert(written(lines) =~= lead + c.0 + ": "@ + c.1 + "\r\n"@ + "Connection: close\r\n\r\n"@);
        },
        None => {
            assert(a + host + cred =~= a + host);
            assert(written(lines) =~= lead + "Connection: close\r\n\r\n"@);
        },
    }
    let sent = headers_sent(req.headers, authority, credential);
    assert forall|i: int| 0 <= i < sent.len() implies #[trigger] lines[i + 1] == header_line(sent[i]) by {
        if i < kept.len() {
            assert(lines[i + 1] == kept.map_values(f)[i]);
        }
    }
}

/// The value of a header is that of the first one with its name, the case of letters aside.
pub proof fn the_first_header_counts(headers: Seq<(Seq<char>, Seq<char>)>, name: Seq<char>, k: int)
    requires
        0 <= k <= headers.len(),
        forall|j: int| 0 <= j < k ==> !alike((#[trigger] headers[j]).0, name),
        k < headers.len() ==> alike(headers[k].0, name),
    ensures
        egress::header_value(headers, name) == (if k < headers.len() {
            Some(headers[k].1)
        } else {
            None
        }),
    decreases k,
{
    if headers.len() > 0 {
        alike_is_same_in_lower_case(headers[0].0, name);
        if k > 0 {
            let rest = headers.skip(1);
            assert forall|j: int| 0 <= j < k - 1 implies !alike((#[trigger] rest[j]).0, name) by {
                assert(rest[j] == headers[j + 1]);
            }
            assert(!alike(headers[0].0, name));
            the_first_header_counts(rest, name, k - 1);
        }
    }
}

/// A pattern stands for the names that are alike; and one that begins with `*.` for those that have
/// what follows the asterisk at their end.
pub proof fn what_a_pattern_stands_for(pattern: Seq<char>, host: Seq<char>)
    ensures
        egress::host_fits(pattern, host) <==> if pattern.len() >= 2 && pattern[0] == '*' && pattern[1] == '.' {
            host.len() >= pattern.len() - 1 && alike(host.skip(host.len() - pattern.len() + 1), pattern.skip(1))
        } else {
            alike(host, pattern)
        },
{
    reveal_strlit("*.");
    let p = text::lowered(pattern);
    let h = text::lowered(host);
    assert(p.len() == pattern.len() && h.len() == host.len());
    let wild = pattern.len() >= 2 && pattern[0] == '*' && pattern[1] == '.';
    assert("*."@.is_prefix_of(p) <==> wild) by {
        if wild {
            assert("*."@ =~= p.subrange(0, 2));
        }
        if "*."@.is_prefix_of(p) {
            assert(p.subrange(0, 2)[0] == '*');
            assert(p.subrange(0, 2)[1] == '.');
        }
    }
    if wild {
        let suffix = p.skip(2);
        if host.len() >= pattern.len() - 1 {
            let tail = host.skip(host.len() - pattern.len() + 1);
            let want = pattern.skip(1);
            alike_is_same_in_lower_case(tail, want);
            assert(text::lowered(tail) =~= h.skip(host.len() - pattern.len() + 1));
            assert(text::lowered(want) =~= p.skip(1));
            let n = h.len() as int;
            let m = suffix.len() as int;
            if text::lowered(tail) == text::lowered(want) {
                assert(text::lowered(tail)[0] == h[n - m - 1]);
                assert(text::lowered(want)[0] == '.');
                assert(suffix =~= h.subrange(n - m, n)) by {
                    assert forall|i: int| 0 <= i < m implies suffix[i] == h.subrange(n - m, n)[i] by {
                        assert(text::lowered(tail)[i + 1] == text::lowered(want)[i + 1]);
                    }
                }
            }
            if egress::host_fits(pattern, host) {
                assert(suffix == h.subrange(n - m, n));
                assert forall|i: int| 0 <= i < m + 1 implies text::lowered(tail)[i] == text::lowered(want)[i] by {
                    if i > 0 {
                        assert(suffix[i - 1] == h.subrange(n - m, n)[i - 1]);
                    }
                }
                assert(text::lowered(tail) =~= text::lowered(want));
            }
        }
    } else {
        alike_is_same_in_lower_case(host, pattern);
    }
}

/// A route covers the hosts that one of its patterns stands for, and permits the methods that it
/// lists, the case of letters aside.
pub proof fn what_a_route_permits(route: RouteModel, host: Seq<char>, method: Seq<char>)
    ensures
        egress::covers_host(route, host) <==> exists|i: int|
            0 <= i < route.hosts.len() && egress::host_fits(#[trigger] route.hosts[i], host),
        egress::permits_method(route, method) <==> exists|i: int|
            0 <= i < route.methods.len() && alike(#[trigger] route.methods[i], method),
{
    assert forall|i: int| 0 <= i < route.methods.len() implies (alike(#[trigger] route.methods[i], method)
        <==> text::lowered(route.methods[i]) == text::lowered(method)) by {
        alike_is_same_in_lower_case(route.methods[i], method);
    }
}

/// Of the routes that cover a host the first one counts.
pub proof fn the_first_route_counts(routes: Seq<RouteModel>, host: Seq<char>, k: int)
    requires
        0 <= k <= routes.len(),
        forall|j: int| 0 <= j < k ==> !egress::covers_host(#[trigger] routes[j], host),
        k < routes.len() ==> egress::covers_host(routes[k], host),
    ensures
        egress::route_index(routes, host) == k,
    decreases k,
{
    if k > 0 {
        let rest = routes.skip(1);
        assert forall|j: int| 0 <= j < k - 1 implies !egress::covers_host(#[trigger] rest[j], host) by {
            assert(rest[j] == routes[j + 1]);
        }
        assert(!egress::covers_host(routes[0], host));
        assert(k < routes.len() ==> rest[k - 1] == routes[k]);
        the_first_route_counts(rest, host, k - 1);
    }
}

/// Whether a text can be the name of a host.
pub open spec fn is_name(host: Seq<char>) -> bool {
    !host.contains('/') && !host.contains(':') && !host.contains('[')
}

/// The authority of a host, with its port where one is named.
pub open spec fn authority_of(host: Seq<char>, port: Option<u16>) -> Seq<char> {
    match port {
        Some(p) => host + ":"@ + number::decimal(p as nat),
        None => host,
    }
}

proof fn digits_are_plain(n: nat)
    ensures
        !number::decimal(n).contains(':'),
        !number::decimal(n).contains('/'),
{
    number::decimal_value(n);
    let d = number::decimal(n);
    assert forall|i: int| 0 <= i < d.len() implies d[i] != ':' && d[i] != '/' by {
        assert(number::is_digit(d[i]));
    }
}

/// A host and its port are read as they are written, and a port that is not written is the default.
pub proof fn authorities_read_back(host: Seq<char>, port: Option<u16>, default_port: u16)
    requires
        is_name(host),
    ensures
        head::authority_parts(authority_of(host, port), default_port) == Ok::<(Seq<char>, u16), RefusalModel>(
            (
                host,
                match port {
                    Some(p) => p,
                    None => default_port,
                },
            ),
        ),
{
    reveal_strlit(":");
    assert(":"@ =~= seq![':']);
    let a = authority_of(host, port);
    if host.len() > 0 {
        assert(host[0] != '[') by {
            if host[0] == '[' {
                assert(host.contains('['));
            }
        }
    }
    match port {
        Some(p) => {
            digits_are_plain(p as nat);
            text::rsplit_once_of_joined(host, number::decimal(p as nat), ':');
            number::decimal_round_trip(p as nat, u16::MAX as nat);
        },
        None => {},
    }
}

/// An IPv6 address in brackets is read without them.
pub proof fn bracketed_addresses_read_back(host: Seq<char>, port: Option<u16>, default_port: u16)
    requires
        !host.contains(']'),
    ensures
        head::authority_parts("["@ + authority_of(host + "]"@, port), default_port) == Ok::<(Seq<char>, u16), RefusalModel>(
            (
                host,
                match port {
                    Some(p) => p,
                    None => default_port,
                },
            ),
        ),
{
    reveal_strlit(":");
    reveal_strlit("[");
    reveal_strlit("]");
    assert(":"@ =~= seq![':']);
    assert("["@ =~= seq!['[']);
    assert("]"@ =~= seq![']']);
    let a = "["@ + authority_of(host + "]"@, port);
    let tail: Seq<char> = match port {
        Some(p) => ":"@ + number::decimal(p as nat),
        None => Seq::empty(),
    };
    assert(a.skip(1) =~= host + seq![']'] + tail);
    text::split_once_of_joined(host, tail, ']');
    match port {
        Some(p) => {
            assert(tail.skip(1) =~= number::decimal(p as nat));
            number::decimal_round_trip(p as nat, u16::MAX as nat);
        },
        None => {},
    }
}

/// A plain request for a path of a host.
pub open spec fn asks_for(req: RequestModel, host: Seq<char>, port: Option<u16>, path: Seq<char>) -> bool {
    &&& is_name(host)
    &&& req.target == "http://"@ + authority_of(host, port) + path
    &&& path.len() == 0 || path[0] == '/'
}

proof fn targets_read_back(req: RequestModel, host: Seq<char>, port: Option<u16>, path: Seq<char>)
    requires
        asks_for(req, host, port, path),
    ensures
        "http://"@.is_prefix_of(req.target),
        forward::target_parts(req.target.skip(7)) == (
            authority_of(host, port),
            if path.len() == 0 {
                "/"@
            } else {
                path
            },
        ),
        "http://"@.len() == 7,
{
    reveal_strlit("http://");
    reveal_strlit(":");
    let a = authority_of(host, port);
    let rest = a + path;
    assert(req.target =~= "http://"@ + rest);
    assert(req.target.subrange(0, 7) =~= "http://"@);
    assert(req.target.skip(7) =~= rest);
    assert(!a.contains('/')) by {
        if a.contains('/') {
            let k = choose|k: int| 0 <= k < a.len() && a[k] == '/';
            if k < host.len() {
                assert(host[k] == '/');
                assert(host.contains('/'));
            } else if k > host.len() {
                let p = (port->0) as nat;
                digits_are_plain(p);
                assert(number::decimal(p)[k - host.len() - 1] == '/');
                assert(number::decimal(p).contains('/'));
            }
        }
    }
    assert forall|i: int| 0 <= i < a.len() implies rest[i] != '/' by {
        assert(rest[i] == a[i]);
        if a[i] == '/' {
            assert(a.contains('/'));
        }
    }
    if path.len() > 0 {
        assert(rest[a.len() as int] == '/');
        assert(rest.contains('/'));
        text::index_of_unique(rest, '/', a.len() as int);
        assert(rest.take(a.len() as int) =~= a);
        assert(rest.skip(a.len() as int) =~= path);
    } else {
        assert(rest =~= a);
    }
}

/// The length of body that a request announces in its own header, where that is written as a number.
pub open spec fn announces(req: RequestModel, n: u64) -> bool {
    match egress::header_value(req.headers, "content-length"@) {
        Some(v) => v == number::decimal(n as nat),
        None => n == 0,
    }
}

/// What becomes of a plain request: it goes to the host, port and path that it names where the first
/// route that covers the host permits the method and the body is of announced length within the
/// limit; what stands in its way is what it is answered, in this order.
pub proof fn what_becomes_of_a_plain_request(
    routes: Seq<RouteModel>,
    max: u64,
    req: RequestModel,
    host: Seq<char>,
    port: Option<u16>,
    path: Seq<char>,
    k: int,
)
    requires
        asks_for(req, host, port, path),
        0 <= k <= routes.len(),
        forall|j: int| 0 <= j < k ==> !egress::covers_host(#[trigger] routes[j], host),
        k < routes.len() ==> egress::covers_host(routes[k], host),
    ensures
        ({
            let got = forward::plain_plan(routes, max, req);
            let encoding = egress::header_value(req.headers, "transfer-encoding"@);
            if k == routes.len() {
                got == Err::<PlainModel, RefusalModel>(
                    RefusalModel::Forbidden("no egress route permits host "@ + text::quoted(host)),
                )
            } else if !egress::permits_method(routes[k], req.method) {
                got == Err::<PlainModel, RefusalModel>(
                    RefusalModel::Forbidden("method "@ + req.method + " is not permitted for "@ + host),
                )
            } else if encoding is Some {
                got == Err::<PlainModel, RefusalModel>(
                    RefusalModel::BadRequest(
                        "Transfer-Encoding: "@ + encoding->0 + " is not supported; send a Content-Length body"@,
                    ),
                )
            } else {
                &&& forall|n: u64| #[trigger]
                    announces(req, n) && n <= max ==> got == Ok::<PlainModel, RefusalModel>(
                        PlainModel {
                            host,
                            port: match port {
                                Some(p) => p,
                                None => 80,
                            },
                            authority: authority_of(host, port),
                            path: if path.len() == 0 {
                                "/"@
                            } else {
                                path
                            },
                            body_len: n,
                        },
                    )
                &&& (egress::header_value(req.headers, "content-length"@) matches Some(v) && number::parsed(
                    v,
                    u64::MAX as nat,
                ) is None ==> got == Err::<PlainModel, RefusalModel>(RefusalModel::BadRequest("bad Content-Length"@)))
                &&& forall|n: u64| #[trigger]
                    announces(req, n) && n > max ==> got == Err::<PlainModel, RefusalModel>(
                        RefusalModel::TooLarge(
                            "request body of "@ + number::decimal(n as nat) + " bytes exceeds the "@
                                + number::decimal(max as nat) + " byte limit"@,
                        ),
                    )
            }
        }),
{
    targets_read_back(req, host, port, path);
    authorities_read_back(host, port, 80);
    the_first_route_counts(routes, host, k);
    assert forall|n: u64| #[trigger] announces(req, n) implies forward::announced_len(req) == Ok::<u64, RefusalModel>(
        n,
    ) by {
        number::decimal_round_trip(n as nat, u64::MAX as nat);
    }
}

/// A request that asks the proxy for anything but an absolute `http://` target is answered so.
pub proof fn only_absolute_targets_are_served(routes: Seq<RouteModel>, max: u64, req: RequestModel)
    requires
        !"http://"@.is_prefix_of(req.target),
    ensures
        forward::plain_plan(routes, max, req) == Err::<PlainModel, RefusalModel>(
            RefusalModel::BadRequest(
                "expected an absolute http:// target, got "@ + text::quoted(req.target)
                    + " — this is a forward proxy, not an origin server"@,
            ),
        ),
{
}

/// What becomes of a `CONNECT`: a tunnel to the host and port that it names, where a route covers
/// the host.
pub proof fn what_becomes_of_a_tunnel(
    routes: Seq<RouteModel>,
    req: RequestModel,
    host: Seq<char>,
    port: Option<u16>,
    k: int,
)
    requires
        is_name(host),
        req.target == authority_of(host, port),
        0 <= k <= routes.len(),
        forall|j: int| 0 <= j < k ==> !egress::covers_host(#[trigger] routes[j], host),
        k < routes.len() ==> egress::covers_host(routes[k], host),
    ensures
        forward::connect_plan(routes, req) == (if k < routes.len() {
            Ok::<(Seq<char>, u16), RefusalModel>(
                (
                    host,
                    match port {
                        Some(p) => p,
                        None => 443,
                    },
                ),
            )
        } else {
            Err(RefusalModel::Forbidden("no egress route permits host "@ + text::quoted(host)))
        }),
{
    authorities_read_back(host, port, 443);
    the_first_route_counts(routes, host, k);
}

/// Who sends a request is known by its bearer token: with the token of a session it is served, as a
/// tunnel where its method is `CONNECT` and as a plain request otherwise; without one it is not.
pub proof fn who_is_served(
    sessions: Map<Seq<char>, SessionState>,
    routes: Seq<RouteModel>,
    max: u64,
    req: RequestModel,
    token: Seq<char>,
)
    requires
        text::trimmed(token) == token,
    ensures
        ({
            let got = forward::request_plan(sessions, routes, max, req);
            let given = egress::header_value(req.headers, "proxy-authorization"@);
            &&& given is None ==> got == Err::<(Seq<char>, ForwardModel), RefusalModel>(
                RefusalModel::Unauthorized("missing Proxy-Authorization: Bearer <session token>"@),
            )
            &&& given == Some("Bearer "@ + token) && !sessions.dom().contains(token) ==> got == Err::<
                (Seq<char>, ForwardModel),
                RefusalModel,
            >(RefusalModel::Unauthorized("unknown session token"@))
            &&& given == Some("Bearer "@ + token) && sessions.dom().contains(token) ==> if alike(
                req.method,
                "CONNECT"@,
            ) {
                match forward::connect_plan(routes, req) {
                    Ok((host, port)) => got == Ok::<(Seq<char>, ForwardModel), RefusalModel>(
                        (token, ForwardModel::Tunnel { host, port }),
                    ),
                    Err(r) => got == Err::<(Seq<char>, ForwardModel), RefusalModel>(r),
                }
            } else {
                match forward::plain_plan(routes, max, req) {
                    Ok(p) => got == Ok::<(Seq<char>, ForwardModel), RefusalModel>((token, ForwardModel::Plain(p))),
                    Err(r) => got == Err::<(Seq<char>, ForwardModel), RefusalModel>(r),
                }
            }
        }),
{
    reveal_strlit("Bearer ");
    alike_is_same_in_lower_case(req.method, "CONNECT"@);
    let v = "Bearer "@ + token;
    assert(v.subrange(0, 7) =~= "Bearer "@);
    assert(v.skip(7) =~= token);
}

/// A connection goes to the first address that a name resolved to, unless a metadata endpoint of a
/// cloud is among the addresses.
pub proof fn where_a_name_leads(host: Seq<char>, addrs: Seq<SocketAddr>)
    ensures
        ({
            let blocked = exists|i: int|
                0 <= i < addrs.len() && match (#[trigger] addrs[i]).ip@ {
                    IpModel::V4(b) => b == seq![169u8, 254, 169, 254] || b == seq![168u8, 63, 129, 16],
                    IpModel::V6(w) => w == seq![0xfd00u16, 0xec2, 0, 0, 0, 0, 0, 0x254],
                };
            let got = forward::pinned(host, Ok(addrs));
            if blocked {
                got == Err::<SocketAddr, RefusalModel>(
                    RefusalModel::Forbidden(host + " resolves to a cloud metadata address — always blocked"@),
                )
            } else if addrs.len() > 0 {
                got == Ok::<SocketAddr, RefusalModel>(addrs[0])
            } else {
                got == Err::<SocketAddr, RefusalModel>(RefusalModel::Upstream(host + " resolved to no addresses"@))
            }
        }),
{
    assert forall|i: int| 0 <= i < addrs.len() implies forward::is_metadata((#[trigger] addrs[i]).ip@) == (
    match addrs[i].ip@ {
        IpModel::V4(b) => b == seq![169u8, 254, 169, 254] || b == seq![168u8, 63, 129, 16],
        IpModel::V6(w) => w == seq![0xfd00u16, 0xec2, 0, 0, 0, 0, 0, 0x254],
    }) by {}
}

/// How a request that is let through takes its course, as long as nothing fails: its host is
/// resolved and connected to; a plain request's head is charged and sent, then as much body as was
/// announced is read, charged and sent; a tunnel is announced to the client; and what comes then is
/// passed on.
pub proof fn the_course_of_a_request(
    way: ForwardModel,
    token: Seq<char>,
    head: Seq<char>,
    sessions: Map<Seq<char>, SessionState>,
    addrs: Seq<SocketAddr>,
)
    ensures
        ({
            let step = |phase: CoursePhase, event: CourseEventModel|
                course::course_step(way, token, head, sessions, phase, event);
            let host = match way {
                ForwardModel::Plain(p) => p.host,
                ForwardModel::Tunnel { host, port: _ } => host,
            };
            &&& step(CoursePhase::Begun, CourseEventModel::Done) == (
                CoursePhase::Resolving,
                sessions,
                Ok::<CourseActModel, RefusalModel>(CourseActModel::Resolve),
            )
            &&& forward::pinned(host, Ok(addrs)) matches Ok(a) ==> step(
                CoursePhase::Resolving,
                CourseEventModel::Resolved(Ok(addrs)),
            ) == (CoursePhase::Connecting, sessions, Ok::<CourseActModel, RefusalModel>(CourseActModel::Connect(a)))
            &&& forward::pinned(host, Ok(addrs)) matches Err(r) ==> step(
                CoursePhase::Resolving,
                CourseEventModel::Resolved(Ok(addrs)),
            ) == (CoursePhase::Over, sessions, Err::<CourseActModel, RefusalModel>(r))
            &&& way matches ForwardModel::Tunnel { host: _, port: _ } ==> step(
                CoursePhase::Connecting,
                CourseEventModel::Done,
            ) == (CoursePhase::Establishing, sessions, Ok::<CourseActModel, RefusalModel>(CourseActModel::Establish))
                && step(CoursePhase::Establishing, CourseEventModel::Done) == (
                CoursePhase::Over,
                sessions,
                Ok::<CourseActModel, RefusalModel>(CourseActModel::Relay),
            )
            &&& way matches ForwardModel::Plain(p) ==> {
                let bytes = vstd::utf8::encode_utf8(head).len() as u64;
                let (then, after, act) = step(CoursePhase::Connecting, CourseEventModel::Done);
                &&& proxy::charge_refusal(sessions, token, bytes) is None ==> then == CoursePhase::SendingHead && act
                    == Ok::<CourseActModel, RefusalModel>(CourseActModel::WriteHead(head)) && after == proxy::charged(
                    sessions,
                    token,
                    bytes,
                )
                &&& proxy::charge_refusal(sessions, token, bytes) is Some ==> then == CoursePhase::Over && after
                    == sessions && (act matches Err(RefusalModel::Forbidden(_)))
                &&& step(CoursePhase::SendingHead, CourseEventModel::Done) == (if p.body_len > 0 {
                    (
                        CoursePhase::ReadingBody,
                        sessions,
                        Ok::<CourseActModel, RefusalModel>(CourseActModel::ReadBody(p.body_len)),
                    )
                } else {
                    (CoursePhase::Over, sessions, Ok::<CourseActModel, RefusalModel>(CourseActModel::Relay))
                })
                &&& proxy::charge_refusal(sessions, token, p.body_len) is None ==> step(
                    CoursePhase::ReadingBody,
                    CourseEventModel::Done,
                ) == (
                    CoursePhase::SendingBody,
                    proxy::charged(sessions, token, p.body_len),
                    Ok::<CourseActModel, RefusalModel>(CourseActModel::WriteBody),
                )
                &&& proxy::charge_refusal(sessions, token, p.body_len) is Some ==> step(
                    CoursePhase::ReadingBody,
                    CourseEventModel::Done,
                ).2 is Err
                &&& step(CoursePhase::SendingBody, CourseEventModel::Done) == (
                    CoursePhase::Over,
                    sessions,
                    Ok::<CourseActModel, RefusalModel>(CourseActModel::Relay),
                )
            }
        }),
{
}

/// What fails on the way is answered as the far end's fault, but for a body that the client does not
/// send; and ends the course.
pub proof fn what_fails_is_answered(
    way: ForwardModel,
    token: Seq<char>,
    head: Seq<char>,
    sessions: Map<Seq<char>, SessionState>,
    m: Seq<char>,
)
    ensures
        ({
            let host = match way {
                ForwardModel::Plain(p) => p.host,
                ForwardModel::Tunnel { host, port: _ } => host,
            };
            let fails = |phase: CoursePhase|
                course::course_step(way, token, head, sessions, phase, CourseEventModel::Failed(m));
            let over = |r: RefusalModel| (CoursePhase::Over, sessions, Err::<CourseActModel, RefusalModel>(r));
            &&& course::course_step(
                way,
                token,
                head,
                sessions,
                CoursePhase::Resolving,
                CourseEventModel::Resolved(Err(m)),
            ) == over(RefusalModel::Upstream("resolve "@ + host + ": "@ + m))
            &&& fails(CoursePhase::Connecting) == over(RefusalModel::Upstream("connect to "@ + host + ": "@ + m))
            &&& fails(CoursePhase::SendingHead) == over(RefusalModel::Upstream("write head: "@ + m))
            &&& fails(CoursePhase::ReadingBody) == over(RefusalModel::BadRequest("read body: "@ + m))
            &&& fails(CoursePhase::SendingBody) == over(RefusalModel::Upstream("write body: "@ + m))
            &&& fails(CoursePhase::Establishing) == over(RefusalModel::Upstream("write CONNECT response: "@ + m))
        }),
{
}

/// The status line of a refusal, behind the version.
pub open spec fn status_words(r: RefusalModel) -> Seq<char> {
    match r {
        RefusalModel::BadRequest(_) => "400 Bad Request"@,
        RefusalModel::Unauthorized(_) => "407 Proxy Authentication Required"@,
        RefusalModel::Forbidden(_) => "403 Forbidden"@,
        RefusalModel::TooLarge(_) => "413 Payload Too Large"@,
        RefusalModel::Upstream(_) => "502 Bad Gateway"@,
    }
}

/// Whether lines and a body are those of the answer to a refused request.
pub open spec fn is_answer_to(r: RefusalModel, lines: Seq<Seq<char>>, body: Seq<char>) -> bool {
    &&& lines.len() == 5 && lines[4] == Seq::<char>::empty()
    &&& lines[0] == "HTTP/1.1 "@ + status_words(r)
    &&& lines[1] == "Content-Length: "@ + number::decimal(vstd::utf8::encode_utf8(body).len())
    &&& lines[2] == "Content-Type: text/plain"@
    &&& lines[3] == "Connection: close"@
    &&& body == "aivisor-broker: "@ + (match r {
        RefusalModel::BadRequest(m) => m,
        RefusalModel::Unauthorized(m) => m,
        RefusalModel::Forbidden(m) => m,
        RefusalModel::TooLarge(m) => m,
        RefusalModel::Upstream(m) => m,
    }) + "\n"@
}

proof fn status_words_are(r: RefusalModel)
    ensures
        status_words(r) == number::decimal(egress::status_of(r).0 as nat) + " "@ + egress::status_of(r).1,
{
    reveal_strlit(" ");
    reveal_with_fuel(number::decimal, 4);
    let all = number::decimal(egress::status_of(r).0 as nat) + " "@ + egress::status_of(r).1;
    match r {
        RefusalModel::BadRequest(_) => {
            reveal_strlit("400 Bad Request");
            reveal_strlit("Bad Request");
            assert("400 Bad Request"@ =~= all);
        },
        RefusalModel::Unauthorized(_) => {
            reveal_strlit("407 Proxy Authentication Required");
            reveal_strlit("Proxy Authentication Required");
            assert("407 Proxy Authentication Required"@ =~= all);
        },
        RefusalModel::Forbidden(_) => {
            reveal_strlit("403 Forbidden");
            reveal_strlit("Forbidden");
            assert("403 Forbidden"@ =~= all);
        },
        RefusalModel::TooLarge(_) => {
            reveal_strlit("413 Payload Too Large");
            reveal_strlit("Payload Too Large");
            assert("413 Payload Too Large"@ =~= all);
        },
        RefusalModel::Upstream(_) => {
            reveal_strlit("502 Bad Gateway");
            reveal_strlit("Bad Gateway");
            assert("502 Bad Gateway"@ =~= all);
        },
    }
}

proof fn answer_lines_are()
    ensures
        "\r\nContent-Length: "@ == "\r\n"@ + "Content-Length: "@,
        "\r\nContent-Type: text/plain\r\nConnection: close\r\n\r\n"@ == "\r\n"@ + "Content-Type: text/plain"@
            + "\r\n"@ + "Connection: close"@ + "\r\n"@ + "\r\n"@,
{
    reveal_strlit("\r\n");
    reveal_strlit("Content-Length: ");
    reveal_strlit("\r\nContent-Length: ");
    reveal_strlit("Content-Type: text/plain");
    reveal_strlit("Connection: close");
    reveal_strlit("\r\nContent-Type: text/plain\r\nConnection: close\r\n\r\n");
    assert("\r\nContent-Length: "@ =~= "\r\n"@ + "Content-Length: "@);
    assert("\r\nContent-Type: text/plain\r\nConnection: close\r\n\r\n"@ =~= "\r\n"@ + "Content-Type: text/plain"@
        + "\r\n"@ + "Connection: close"@ + "\r\n"@ + "\r\n"@);
}

proof fn written_five(a: Seq<char>, b: Seq<char>, c: Seq<char>, d: Seq<char>, e: Seq<char>)
    ensures
        written(seq![a, b, c, d, e]) == a + "\r\n"@ + b + "\r\n"@ + c + "\r\n"@ + d + "\r\n"@ + e + "\r\n"@,
{
    assert(seq![a, b, c, d, e] =~= seq![a] + seq![b] + seq![c] + seq![d] + seq![e]);
    written_both(seq![a] + seq![b] + seq![c] + seq![d], seq![e]);
    written_both(seq![a] + seq![b] + seq![c], seq![d]);
    written_both(seq![a] + seq![b], seq![c]);
    written_both(seq![a], seq![b]);
    written_one(a);
    written_one(b);
    written_one(c);
    written_one(d);
    written_one(e);
    assert(written(seq![a, b, c, d, e]) =~= a + "\r\n"@ + b + "\r\n"@ + c + "\r\n"@ + d + "\r\n"@ + e + "\r\n"@);
}

/// A refusal is answered with the status of its sort, and with its reason as a body of the length
/// that the answer announces.
pub proof fn refusals_are_answers(r: RefusalModel)
    ensures
        exists|lines: Seq<Seq<char>>, body: Seq<char>| #[trigger]
            is_answer_to(r, lines, body) && egress::refusal_response(r) == written(lines) + body,
{
    status_words_are(r);
    answer_lines_are();
    let body = egress::refusal_body(r);
    let count = number::decimal(vstd::utf8::encode_utf8(body).len());
    let l0 = "HTTP/1.1 "@ + status_words(r);
    let l1 = "Content-Length: "@ + count;
    let lines = seq![l0, l1, "Content-Type: text/plain"@, "Connection: close"@, Seq::<char>::empty()];
    written_five(l0, l1, "Content-Type: text/plain"@, "Connection: close"@, Seq::<char>::empty());
    assert(egress::refusal_response(r) =~= written(lines) + body);
    assert(is_answer_to(r, lines, body));
}

/// A session starts with a hundred mebibytes.
pub proof fn sessions_start_with_their_budget()
    ensures
        proxy::DEFAULT_BYTE_BUDGET == 100 * 1024 * 1024,
{
}

/// Whether a text is one word.
pub open spec fn is_word(s: Seq<char>) -> bool {
    s.len() > 0 && forall|i: int| 0 <= i < s.len() ==> !text::is_space(#[trigger] s[i])
}

proof fn a_word_more(s: Seq<char>, w: Seq<char>)
    requires
        is_word(w),
        s.len() == 0 || text::is_space(s.last()),
    ensures
        text::words_of(s + w) == text::words_of(s).push(w),
    decreases w.len(),
{
    let all = s + w;
    let front = w.drop_last();
    assert(all.drop_last() =~= s + front);
    assert(all.last() == w.last());
    assert(w[w.len() - 1] == w.last());
    if front.len() == 0 {
        assert(s + front =~= s);
        assert(w =~= seq![w.last()]);
        if all.len() > 1 {
            assert(all[all.len() - 2] == s.last());
        }
    } else {
        assert(is_word(front)) by {
            assert forall|i: int| 0 <= i < front.len() implies !text::is_space(#[trigger] front[i]) by {
                assert(front[i] == w[i]);
            }
        }
        a_word_more(s, front);
        assert(all[all.len() - 2] == w[w.len() - 2]);
        let before = text::words_of(s + front);
        assert(before.drop_last() =~= text::words_of(s));
        assert(before.last() == front);
        assert(front.push(w.last()) =~= w);
    }
}

proof fn a_space_more(s: Seq<char>, c: char)
    requires
        text::is_space(c),
    ensures
        text::words_of(s.push(c)) == text::words_of(s),
{
    assert(s.push(c).drop_last() =~= s);
}

proof fn words_of_a_request_line(method: Seq<char>, target: Seq<char>)
    requires
        is_word(method),
        is_word(target),
    ensures
        text::words_of(method + " "@ + target + " HTTP/1.1\r\n"@) == seq![method, target, "HTTP/1.1"@],
{
    reveal_strlit(" ");
    reveal_strlit("HTTP/1.1");
    reveal_strlit(" HTTP/1.1\r\n");
    let none = Seq::<char>::empty();
    a_word_more(none, method);
    assert(none + method =~= method);
    a_space_more(method, ' ');
    let a = method.push(' ');
    a_word_more(a, target);
    let b = (a + target).push(' ');
    a_space_more(a + target, ' ');
    assert(is_word("HTTP/1.1"@));
    a_word_more(b, "HTTP/1.1"@);
    let c = b + "HTTP/1.1"@;
    a_space_more(c, '\r');
    a_space_more(c.push('\r'), '\n');
    assert(method + " "@ + target + " HTTP/1.1\r\n"@ =~= c.push('\r').push('\n'));
    assert(text::words_of(none) =~= Seq::<Seq<char>>::empty());
    assert(text::words_of(c) =~= seq![method, target, "HTTP/1.1"@]);
}

/// Whether a header is one that can be written in a line.
pub open spec fn is_plain_header(h: (Seq<char>, Seq<char>)) -> bool {
    &&& !h.0.contains(':')
    &&& text::trimmed(h.0) == h.0
    &&& text::trimmed(h.1) == h.1
}

/// How many bytes lines take.
pub open spec fn bytes_of(lines: Seq<Seq<char>>) -> nat
    decreases lines.len(),
{
    if lines.len() == 0 {
        0
    } else {
        vstd::utf8::encode_utf8(lines[0]).len() + bytes_of(lines.skip(1))
    }
}

proof fn a_line_without_its_end(s: Seq<char>)
    requires
        s.len() == 0 || (s.last() != '\r' && s.last() != '\n'),
    ensures
        head::without_line_end(s + "\r\n"@) == s,
{
    reveal_strlit("\r\n");
    let all = s + "\r\n"@;
    assert(all.drop_last().drop_last() =~= s);
    assert(all.drop_last().last() == '\r');
    reveal_with_fuel(head::without_line_end, 3);
}

proof fn trimming_shortens(s: Seq<char>)
    ensures
        text::trimmed_start(s).len() <= s.len(),
        text::trimmed_start(s).len() == s.len() ==> text::trimmed_start(s) == s,
        text::trimmed_end(s).len() <= s.len(),
        s.len() > 0 && text::is_space(s.last()) ==> text::trimmed_end(s).len() < s.len(),
    decreases s.len(),
{
    if s.len() > 0 {
        trimming_shortens(s.skip(1));
        trimming_shortens(s.drop_last());
    }
}

proof fn a_header_line_reads_back(h: (Seq<char>, Seq<char>))
    requires
        is_plain_header(h),
    ensures
        ({
            let content = head::without_line_end(header_line(h) + "\r\n"@);
            &&& content.len() > 0
            &&& text::split_once_at(content, ':') matches Some((n, v)) && text::trimmed(n) == h.0 && text::trimmed(v)
                == h.1
        }),
{
    reveal_strlit(": ");
    let l = header_line(h);
    trimming_shortens(h.1);
    trimming_shortens(text::trimmed_start(h.1));
    assert(l.last() != '\r' && l.last() != '\n') by {
        if h.1.len() > 0 {
            assert(l.last() == h.1.last());
        } else {
            assert(l.last() == ' ');
        }
    }
    a_line_without_its_end(l);
    let v = seq![' '] + h.1;
    assert(l =~= h.0 + seq![':'] + v);
    text::split_once_of_joined(h.0, v, ':');
    assert(v.skip(1) =~= h.1);
    assert(text::trimmed_start(v) == text::trimmed_start(h.1));
}

proof fn headers_read_back(h: head::HeadModel, method: Seq<char>, target: Seq<char>, more: Seq<(Seq<char>, Seq<char>)>, lines: Seq<Seq<char>>)
    requires
        h.line == Some((method, target)),
        lines.len() == more.len() + 1,
        forall|i: int|
            0 <= i < more.len() ==> is_plain_header(#[trigger] more[i]) && lines[i] == header_line(more[i]) + "\r\n"@,
        lines.last() == "\r\n"@,
        h.consumed + bytes_of(lines) <= 65536,
    ensures
        head::head_from(h, lines) == Ok::<RequestModel, RefusalModel>(
            RequestModel { method, target, headers: h.headers + more },
        ),
    decreases more.len(),
{
    reveal_strlit("\r\n");
    let line = lines[0];
    if more.len() == 0 {
        a_line_without_its_end(Seq::empty());
        assert(Seq::<char>::empty() + "\r\n"@ =~= "\r\n"@);
        assert(h.headers + more =~= h.headers);
    } else {
        let first = more[0];
        a_header_line_reads_back(first);
        assert(line.len() > 0);
        let consumed = h.consumed + vstd::utf8::encode_utf8(line).len();
        let next = head::HeadModel { consumed, line: h.line, headers: h.headers.push(first) };
        assert(head::head_step(h, Ok(line)) == Ok::<head::HeadStepModel, RefusalModel>(
            head::HeadStepModel::More(next),
        ));
        let rest = more.skip(1);
        let tail = lines.skip(1);
        assert forall|i: int| 0 <= i < rest.len() implies is_plain_header(#[trigger] rest[i]) && tail[i]
            == header_line(rest[i]) + "\r\n"@ by {
            assert(rest[i] == more[i + 1]);
        }
        headers_read_back(next, method, target, rest, tail);
        assert(next.headers + rest =~= h.headers + more);
    }
}

/// A request's head is read as it is written: its method, its target, and its headers in their order.
pub proof fn heads_read_back(method: Seq<char>, target: Seq<char>, headers: Seq<(Seq<char>, Seq<char>)>, lines: Seq<Seq<char>>)
    requires
        is_word(method),
        is_word(target),
        lines.len() == headers.len() + 2,
        lines[0] == method + " "@ + target + " HTTP/1.1\r\n"@,
        forall|i: int|
            0 <= i < headers.len() ==> is_plain_header(#[trigger] headers[i]) && lines[i + 1] == header_line(headers[i])
                + "\r\n"@,
        lines.last() == "\r\n"@,
        bytes_of(lines) <= 65536,
    ensures
        head::head_from(head::empty_head(), lines) == Ok::<RequestModel, RefusalModel>(
            RequestModel { method, target, headers },
        ),
{
    words_of_a_request_line(method, target);
    let tail = lines.skip(1);
    let next = head::HeadModel {
        consumed: vstd::utf8::encode_utf8(lines[0]).len(),
        line: Some((method, target)),
        headers: Seq::empty(),
    };
    assert(lines[0].len() > 0);
    assert(head::head_step(head::empty_head(), Ok(lines[0])) == Ok::<head::HeadStepModel, RefusalModel>(
        head::HeadStepModel::More(next),
    ));
    assert forall|i: int| 0 <= i < headers.len() implies is_plain_header(#[trigger] headers[i]) && tail[i]
        == header_line(headers[i]) + "\r\n"@ by {}
    headers_read_back(next, method, target, headers, tail);
    assert(next.headers + headers =~= headers);
}

/// Whatever `build_head` answers with is the head of the request as it goes upstream.
pub proof fn build_head_keeps_the_request(
    request: &Request,
    path: &str,
    authority: &str,
    credential: &Option<(String, String)>,
    sent: String,
)
    requires
        call_ensures(forward::build_head, (request, path, authority, credential), sent),
    ensures
        exists|lines: Seq<Seq<char>>|
            {
                &&& #[trigger] written(lines) == sent@
                &&& is_head_of(
                    lines,
                    request.method@,
                    path@,
                    headers_sent(
                        Seq::new(request.headers@.len(), |i: int| (request.headers@[i].0@, request.headers@[i].1@)),
                        authority@,
                        match *credential {
                            Some((n, v)) => Some((n@, v@)),
                            None => None,
                        },
                    ),
                )
            },
{
    what_is_sent_upstream(request@, path@, authority@, egress::header_view(*credential));
    assert(request@.headers =~= Seq::new(
        request.headers@.len(),
        |i: int| (request.headers@[i].0@, request.headers@[i].1@),
    ));
}

/// Whatever `serve_request` answers a plain request of a known session with: where the first route
/// that covers the host permits the method, and the announced body is within the limit, the request
/// goes to the host, port and path that it names.
pub proof fn serve_request_lets_through<S: SecretProvider>(
    broker: &Broker,
    policy: &EgressPolicy<S>,
    request: &Request,
    answer: Result<(String, Forward), Refusal>,
    token: Seq<char>,
    host: Seq<char>,
    port: Option<u16>,
    path: Seq<char>,
    k: int,
    n: u64,
)
    requires
        call_ensures(forward::serve_request::<S>, (broker, policy, request), answer),
        text::trimmed(token) == token,
        broker.sessions@.dom().contains(token),
        egress::header_value(request@.headers, "proxy-authorization"@) == Some("Bearer "@ + token),
        !alike(request.method@, "CONNECT"@),
        asks_for(request@, host, port, path),
        0 <= k < policy.routes@.len(),
        forall|j: int| 0 <= j < k ==> !egress::covers_host((#[trigger] policy.routes@[j])@, host),
        egress::covers_host(policy.routes@[k]@, host),
        egress::permits_method(policy.routes@[k]@, request.method@),
        egress::header_value(request@.headers, "transfer-encoding"@) is None,
        announces(request@, n),
        n <= policy.max_request_bytes,
    ensures
        answer matches Ok((t, Forward::Plain(p))) && t@ == token && p.host@ == host && p.port == (match port {
            Some(q) => q,
            None => 80,
        }) && p.authority@ == authority_of(host, port) && p.path@ == (if path.len() == 0 {
            "/"@
        } else {
            path
        }) && p.body_len == n,
{
    let routes = compile::views(policy.routes@);
    assert forall|j: int| 0 <= j < k implies !egress::covers_host(#[trigger] routes[j], host) by {
        assert(routes[j] == policy.routes@[j]@);
    }
    assert(routes[k] == policy.routes@[k]@);
    what_becomes_of_a_plain_request(routes, policy.max_request_bytes, request@, host, port, path, k);
    who_is_served(broker.sessions@, routes, policy.max_request_bytes, request@, token);
}

/// Whatever `read_request` answers with, a head that is written as one is read as what was written.
pub proof fn read_request_reads_back(
    text_lines: &Vec<String>,
    answer: Result<Request, Refusal>,
    method: Seq<char>,
    target: Seq<char>,
    headers: Seq<(Seq<char>, Seq<char>)>,
)
    requires
        call_ensures(head::read_request, (text_lines,), answer),
        is_word(method),
        is_word(target),
        text_lines@.len() == headers.len() + 2,
        text_lines@[0]@ == method + " "@ + target + " HTTP/1.1\r\n"@,
        forall|i: int|
            0 <= i < headers.len() ==> is_plain_header(#[trigger] headers[i]) && text_lines@[i + 1]@ == header_line(
                headers[i],
            ) + "\r\n"@,
        text_lines@.last()@ == "\r\n"@,
        bytes_of(text::texts(text_lines@)) <= 65536,
    ensures
        answer matches Ok(q) && q.method@ == method && q.target@ == target && q.headers@.len() == headers.len()
            && forall|i: int|
            0 <= i < headers.len() ==> (#[trigger] q.headers@[i]).0@ == headers[i].0 && q.headers@[i].1@ == headers[i].1,
{
    let lines = text::texts(text_lines@);
    assert forall|i: int| 0 <= i < headers.len() implies is_plain_header(#[trigger] headers[i]) && lines[i + 1]
        == header_line(headers[i]) + "\r\n"@ by {
        assert(lines[i + 1] == text_lines@[i + 1]@);
    }
    heads_read_back(method, target, headers, lines);
    let q = answer->Ok_0;
    assert forall|i: int| 0 <= i < headers.len() implies (#[trigger] q.headers@[i]).0@ == headers[i].0
        && q.headers@[i].1@ == headers[i].1 by {
        assert(q@.headers[i] == headers[i]);
    }
}

} // verus!
