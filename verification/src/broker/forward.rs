//! What becomes of a request: who is let through, to where, and with what head.
use vstd::prelude::*;

use crate::broker::egress;
use crate::broker::egress::EgressPolicy;
use crate::broker::egress::Refusal;
use crate::broker::egress::RefusalModel;
use crate::broker::egress::Request;
use crate::broker::egress::RequestModel;
use crate::broker::egress::RouteModel;
use crate::broker::egress::SecretProvider;
use crate::broker::head;
use crate::broker::proxy;
use crate::broker::proxy::Broker;
use crate::broker::proxy::SessionState;
use crate::error;
use crate::number;
use crate::policy::compile;
use crate::text;

verus! {

/// An internet address.
#[derive(Debug, Clone, Copy, PartialEq, Eq)]
pub enum IpAddr {
    V4([u8; 4]),
    V6([u16; 8]),
}

#[verifier::ext_equal]
pub enum IpModel {
    V4(Seq<u8>),
    V6(Seq<u16>),
}

impl View for IpAddr {
    type V = IpModel;

    open spec fn view(&self) -> IpModel {
        match *self {
            IpAddr::V4(b) => IpModel::V4(b@),
            IpAddr::V6(s) => IpModel::V6(s@),
        }
    }
}

/// An address and a port. An IPv6 address comes with its flow and with the number of the interface
/// that it belongs to; of an IPv4 address both are zero.
#[derive(Debug, Clone, Copy, PartialEq, Eq)]
pub struct SocketAddr {
    pub ip: IpAddr,
    pub port: u16,
    pub flowinfo: u32,
    pub scope_id: u32,
}

/// Whether an address is one of the cloud providers' metadata endpoints.
pub open spec fn is_metadata(ip: IpModel) -> bool {
    ||| ip == IpModel::V4(seq![169u8, 254, 169, 254])
    ||| ip == IpModel::V4(seq![168u8, 63, 129, 16])
    ||| ip == IpModel::V6(seq![0xfd00u16, 0xec2, 0, 0, 0, 0, 0, 0x254])
}

/// Whether an address is one of the cloud providers' metadata endpoints.
fn metadata_address(ip: &IpAddr) -> (r: bool)
    ensures
        r == is_metadata(ip@),
{
    match ip {
        IpAddr::V4(b) => {
            let ghost x = seq![169u8, 254, 169, 254];
            let ghost y = seq![168u8, 63, 129, 16];
            let first = b[0] == 169 && b[1] == 254 && b[2] == 169 && b[3] == 254;
            let second = b[0] == 168 && b[1] == 63 && b[2] == 129 && b[3] == 16;
            proof {
                assert(x[0] == 169 && x[1] == 254 && x[2] == 169 && x[3] == 254);
                assert(y[0] == 168 && y[1] == 63 && y[2] == 129 && y[3] == 16);
                if first {
                    assert(b@ =~= x);
                }
                if second {
                    assert(b@ =~= y);
                }
            }
            first || second
        },
        IpAddr::V6(s) => {
            let ghost z = seq![0xfd00u16, 0xec2, 0, 0, 0, 0, 0, 0x254];
            let third = s[0] == 0xfd00 && s[1] == 0xec2 && s[2] == 0 && s[3] == 0 && s[4] == 0 && s[5] == 0 && s[6]
                == 0 && s[7] == 0x254;
            proof {
                assert(z[0] == 0xfd00 && z[1] == 0xec2 && z[2] == 0 && z[3] == 0 && z[4] == 0 && z[5] == 0 && z[6]
                    == 0 && z[7] == 0x254);
                if third {
                    assert(s@ =~= z);
                }
            }
            third
        },
    }
}

/// Whether a metadata address is among some addresses.
pub open spec fn has_metadata(addrs: Seq<SocketAddr>) -> bool {
    exists|i: int| 0 <= i < addrs.len() && is_metadata((#[trigger] addrs[i]).ip@)
}

/// What a host that resolves to a metadata address is answered. The address is not told: the
/// answer goes to the sandbox.
pub open spec fn metadata_refusal(host: Seq<char>) -> RefusalModel {
    RefusalModel::Forbidden(host + " resolves to a cloud metadata address — always blocked"@)
}

/// The address that is used for a host, out of what its name resolved to: the first, unless any
/// of them is a metadata address.
pub open spec fn pinned(host: Seq<char>, answers: Result<Seq<SocketAddr>, Seq<char>>) -> Result<
    SocketAddr,
    RefusalModel,
> {
    match answers {
        Err(m) => Err(RefusalModel::Upstream("resolve "@ + host + ": "@ + m)),
        Ok(addrs) => if has_metadata(addrs) {
            Err(metadata_refusal(host))
        } else if addrs.len() == 0 {
            Err(RefusalModel::Upstream(host + " resolved to no addresses"@))
        } else {
            Ok(addrs[0])
        },
    }
}

/// Picks the address that is used for a host, once and for all: the name is not resolved again.
pub fn resolve_pinned(host: &str, answers: &Result<Vec<SocketAddr>, String>) -> (r: Result<SocketAddr, Refusal>)
    ensures
        match (
            r,
            pinned(
                host@,
                match *answers {
                    Ok(v) => Ok(v@),
                    Err(m) => Err(m@),
                },
            ),
        ) {
            (Ok(a), Ok(want)) => a == want,
            (Err(e), Err(want)) => e@ == want,
            _ => false,
        },
{
    let addrs = match answers {
        Ok(v) => v,
        Err(m) => {
            let mut t = text::cat3("resolve ", host, ": ");
            t.append(m.as_str());
            return Err(Refusal::Upstream(t));
        },
    };
    let mut i: usize = 0;
    while i < addrs.len()
        invariant
            i <= addrs@.len(),
            forall|j: int| 0 <= j < i ==> !is_metadata((#[trigger] addrs@[j]).ip@),
            *answers == Ok::<Vec<SocketAddr>, String>(*addrs),
        decreases addrs@.len() - i,
    {
        if metadata_address(&addrs[i].ip) {
            let mut t = host.to_owned();
            t.append(" resolves to a cloud metadata address — always blocked");
            proof {
                assert(is_metadata(addrs@[i as int].ip@));
            }
            return Err(Refusal::Forbidden(t));
        }
        i = i + 1;
    }
    if addrs.len() == 0 {
        let mut t = host.to_owned();
        t.append(" resolved to no addresses");
        return Err(Refusal::Upstream(t));
    }
    Ok(addrs[0])
}

/// The session token that a request carries.
pub open spec fn token_of(req: RequestModel) -> Option<Seq<char>> {
    match egress::header_value(req.headers, "proxy-authorization"@) {
        None => None,
        Some(v) => if "Bearer "@.is_prefix_of(v) {
            Some(text::trimmed(v.skip("Bearer "@.len() as int)))
        } else {
            None
        },
    }
}

/// The token of a request whose session exists, or what it is answered.
pub open spec fn authorized(sessions: Map<Seq<char>, SessionState>, req: RequestModel) -> Result<
    Seq<char>,
    RefusalModel,
> {
    match token_of(req) {
        None => Err(RefusalModel::Unauthorized("missing Proxy-Authorization: Bearer <session token>"@)),
        Some(token) => if proxy::budget_left(sessions, token) is None {
            Err(RefusalModel::Unauthorized("unknown session token"@))
        } else {
            Ok(token)
        },
    }
}

/// The token of a request whose session exists.
pub fn authorize(broker: &Broker, request: &Request) -> (r: Result<String, Refusal>)
    ensures
        head::answers(r, authorized(broker.sessions@, request@)),
{
    let given = match request.header("proxy-authorization") {
        Some(v) => text::strip_prefix(v, "Bearer "),
        None => None,
    };
    let token = match given {
        Some(t) => text::trim(t.as_str()),
        None => {
            return Err(
                Refusal::Unauthorized("missing Proxy-Authorization: Bearer <session token>".to_owned()),
            );
        },
    };
    if broker.remaining_budget(token.as_str()).is_none() {
        return Err(Refusal::Unauthorized("unknown session token".to_owned()));
    }
    Ok(token)
}

/// A plain request that is let through: where it goes, what it asks for there, and how much body
/// follows.
#[derive(Debug)]
pub struct PlainRequest {
    pub host: String,
    pub port: u16,
    pub authority: String,
    pub path: String,
    pub body_len: u64,
}

#[verifier::ext_equal]
pub struct PlainModel {
    pub host: Seq<char>,
    pub port: u16,
    pub authority: Seq<char>,
    pub path: Seq<char>,
    pub body_len: u64,
}

impl View for PlainRequest {
    type V = PlainModel;

    open spec fn view(&self) -> PlainModel {
        PlainModel {
            host: self.host@,
            port: self.port,
            authority: self.authority@,
            path: self.path@,
            body_len: self.body_len,
        }
    }
}

/// The authority and the path of a target without its scheme.
pub open spec fn target_parts(rest: Seq<char>) -> (Seq<char>, Seq<char>) {
    if rest.contains('/') {
        (rest.take(text::index_of(rest, '/')), rest.skip(text::index_of(rest, '/')))
    } else {
        (rest, "/"@)
    }
}

/// What no route covers is answered.
pub open spec fn no_route(host: Seq<char>) -> RefusalModel {
    RefusalModel::Forbidden("no egress route permits host "@ + text::quoted(host))
}

/// The length of the body that a request announces.
pub open spec fn announced_len(req: RequestModel) -> Result<u64, RefusalModel> {
    match egress::header_value(req.headers, "content-length"@) {
        None => Ok(0),
        Some(v) => match number::parsed(v, u64::MAX as nat) {
            Some(n) => Ok(n as u64),
            None => Err(RefusalModel::BadRequest("bad Content-Length"@)),
        },
    }
}

/// What becomes of a plain request.
pub open spec fn plain_plan(routes: Seq<RouteModel>, max_request_bytes: u64, req: RequestModel) -> Result<
    PlainModel,
    RefusalModel,
> {
    if !"http://"@.is_prefix_of(req.target) {
        Err(
            RefusalModel::BadRequest(
                "expected an absolute http:// target, got "@ + text::quoted(req.target)
                    + " — this is a forward proxy, not an origin server"@,
            ),
        )
    } else {
        let (authority, path) = target_parts(req.target.skip("http://"@.len() as int));
        match head::authority_parts(authority, 80) {
            Err(r) => Err(r),
            Ok((host, port)) => {
                let k = egress::route_index(routes, host);
                if k >= routes.len() {
                    Err(no_route(host))
                } else if !egress::permits_method(routes[k], req.method) {
                    Err(
                        RefusalModel::Forbidden(
                            "method "@ + req.method + " is not permitted for "@ + host,
                        ),
                    )
                } else if egress::header_value(req.headers, "transfer-encoding"@) is Some {
                    Err(
                        RefusalModel::BadRequest(
                            "Transfer-Encoding: "@ + egress::header_value(req.headers, "transfer-encoding"@)->0
                                + " is not supported; send a Content-Length body"@,
                        ),
                    )
                } else {
                    match announced_len(req) {
                        Err(r) => Err(r),
                        Ok(body_len) => if body_len > max_request_bytes {
                            Err(
                                RefusalModel::TooLarge(
                                    "request body of "@ + number::decimal(body_len as nat) + " bytes exceeds the "@
                                        + number::decimal(max_request_bytes as nat) + " byte limit"@,
                                ),
                            )
                        } else {
                            Ok(PlainModel { host, port, authority, path, body_len })
                        },
                    }
                }
            },
        }
    }
}

/// The refusal of a host that no route covers.
fn unrouted(host: &str) -> (r: Refusal)
    ensures
        r@ == no_route(host@),
{
    let mut t = "no egress route permits host ".to_owned();
    t.append(text::quote(host).as_str());
    Refusal::Forbidden(t)
}

/// Cuts a target without its scheme into authority and path.
fn split_target(rest: &str) -> (r: (String, String))
    ensures
        (r.0@, r.1@) == target_parts(rest@),
{
    let chars = text::chars_of(rest);
    let n: usize = chars.len();
    let mut k: usize = 0;
    while k < n && chars[k] != '/'
        invariant
            k <= n,
            n == chars@.len(),
            forall|j: int| 0 <= j < k ==> chars@[j] != '/',
        decreases n - k,
    {
        k = k + 1;
    }
    proof {
        text::index_of_unique(rest@, '/', k as int);
        text::index_of_is_first(rest@, '/');
    }
    if k == n {
        (rest.to_owned(), "/".to_owned())
    } else {
        let a = text::text_of(&chars, 0, k);
        let p = text::text_of(&chars, k, n);
        proof {
            assert(a@ =~= rest@.take(k as int));
            assert(p@ =~= rest@.skip(k as int));
        }
        (a, p)
    }
}

/// Decides on a plain request: everything in it is seen, and everything is checked.
pub fn serve_plain<S: SecretProvider>(policy: &EgressPolicy<S>, request: &Request) -> (r: Result<
    PlainRequest,
    Refusal,
>)
    ensures
        head::answers(r, plain_plan(compile::views(policy.routes@), policy.max_request_bytes, request@)),
{
    let rest = match text::strip_prefix(request.target.as_str(), "http://") {
        Some(rest) => rest,
        None => {
            return Err(
                Refusal::BadRequest(
                    text::cat3(
                        "expected an absolute http:// target, got ",
                        text::quote(request.target.as_str()).as_str(),
                        " — this is a forward proxy, not an origin server",
                    ),
                ),
            );
        },
    };
    let (authority, path) = split_target(rest.as_str());
    let (host, port) = match head::split_authority(authority.as_str(), 80) {
        Ok(parts) => parts,
        Err(e) => {
            return Err(e);
        },
    };
    let k: usize = match policy.route_for(host.as_str()) {
        Some(k) => k,
        None => {
            return Err(unrouted(host.as_str()));
        },
    };
    proof {
        assert(compile::views(policy.routes@)[k as int] == policy.routes@[k as int]@);
    }
    if !policy.routes[k].allows_method(request.method.as_str()) {
        let mut t = text::cat3("method ", request.method.as_str(), " is not permitted for ");
        t.append(host.as_str());
        return Err(Refusal::Forbidden(t));
    }
    if let Some(te) = request.header("transfer-encoding") {
        return Err(
            Refusal::BadRequest(
                text::cat3("Transfer-Encoding: ", te, " is not supported; send a Content-Length body"),
            ),
        );
    }
    let body_len: u64 = match request.header("content-length") {
        Some(v) => match number::parse_u64(v) {
            Some(n) => n,
            None => {
                return Err(Refusal::BadRequest("bad Content-Length".to_owned()));
            },
        },
        None => 0,
    };
    if body_len > policy.max_request_bytes {
        return Err(
            Refusal::TooLarge(
                text::cat5(
                    "request body of ",
                    number::format_u64(body_len).as_str(),
                    " bytes exceeds the ",
                    number::format_u64(policy.max_request_bytes).as_str(),
                    " byte limit",
                ),
            ),
        );
    }
    Ok(PlainRequest { host, port, authority, path, body_len })
}

/// What becomes of a `CONNECT`.
pub open spec fn connect_plan(routes: Seq<RouteModel>, req: RequestModel) -> Result<(Seq<char>, u16), RefusalModel> {
    match head::authority_parts(req.target, 443) {
        Err(r) => Err(r),
        Ok((host, port)) => if egress::route_index(routes, host) >= routes.len() {
            Err(no_route(host))
        } else {
            Ok((host, port))
        },
    }
}

/// Decides on a `CONNECT`: only the host is seen, and it is checked.
pub fn serve_connect<S: SecretProvider>(policy: &EgressPolicy<S>, request: &Request) -> (r: Result<
    (String, u16),
    Refusal,
>)
    ensures
        match (r, connect_plan(compile::views(policy.routes@), request@)) {
            (Ok(t), Ok(want)) => (t.0@, t.1) == want,
            (Err(e), Err(want)) => e@ == want,
            _ => false,
        },
{
    let (host, port) = match head::split_authority(request.target.as_str(), 443) {
        Ok(parts) => parts,
        Err(e) => {
            return Err(e);
        },
    };
    if !policy.permits_host(host.as_str()) {
        return Err(unrouted(host.as_str()));
    }
    Ok((host, port))
}

/// What is done for a request that is let through.
#[derive(Debug)]
pub enum Forward {
    Plain(PlainRequest),
    Tunnel { host: String, port: u16 },
}

#[verifier::ext_equal]
pub enum ForwardModel {
    Plain(PlainModel),
    Tunnel { host: Seq<char>, port: u16 },
}

impl View for Forward {
    type V = ForwardModel;

    open spec fn view(&self) -> ForwardModel {
        match *self {
            Forward::Plain(p) => ForwardModel::Plain(p@),
            Forward::Tunnel { host, port } => ForwardModel::Tunnel { host: host@, port },
        }
    }
}

/// What becomes of a request: its sender is authenticated before anything else in it is looked
/// at.
pub open spec fn request_plan(
    sessions: Map<Seq<char>, SessionState>,
    routes: Seq<RouteModel>,
    max_request_bytes: u64,
    req: RequestModel,
) -> Result<(Seq<char>, ForwardModel), RefusalModel> {
    match authorized(sessions, req) {
        Err(r) => Err(r),
        Ok(token) => if text::lowered(req.method) == text::lowered("CONNECT"@) {
            match connect_plan(routes, req) {
                Ok((host, port)) => Ok((token, ForwardModel::Tunnel { host, port })),
                Err(r) => Err(r),
            }
        } else {
            match plain_plan(routes, max_request_bytes, req) {
                Ok(p) => Ok((token, ForwardModel::Plain(p))),
                Err(r) => Err(r),
            }
        },
    }
}

/// Decides on a request: the session's token and what is done for it.
pub fn serve_request<S: SecretProvider>(broker: &Broker, policy: &EgressPolicy<S>, request: &Request) -> (r: Result<
    (String, Forward),
    Refusal,
>)
    ensures
        match (
            r,
            request_plan(
                broker.sessions@,
                compile::views(policy.routes@),
                policy.max_request_bytes,
                request@,
            ),
        ) {
            (Ok(t), Ok(want)) => (t.0@, t.1@) == want,
            (Err(e), Err(want)) => e@ == want,
            _ => false,
        },
{
    let token = match authorize(broker, request) {
        Ok(t) => t,
        Err(e) => {
            return Err(e);
        },
    };
    if text::eq_ignore_ascii_case(request.method.as_str(), "CONNECT") {
        match serve_connect(policy, request) {
            Ok((host, port)) => Ok((token, Forward::Tunnel { host, port })),
            Err(e) => Err(e),
        }
    } else {
        match serve_plain(policy, request) {
            Ok(p) => Ok((token, Forward::Plain(p))),
            Err(e) => Err(e),
        }
    }
}

/// Whether a header belongs to one hop only.
pub open spec fn is_hop_by_hop(name: Seq<char>) -> bool {
    let n = text::lowered(name);
    ||| n == text::lowered("connection"@)
    ||| n == text::lowered("proxy-authorization"@)
    ||| n == text::lowered("proxy-connection"@)
    ||| n == text::lowered("keep-alive"@)
    ||| n == text::lowered("te"@)
    ||| n == text::lowered("trailer"@)
    ||| n == text::lowered("transfer-encoding"@)
    ||| n == text::lowered("upgrade"@)
}

/// The headers that are sent on: all but those of one hop and `Host`.
pub open spec fn forwarded_headers(headers: Seq<(Seq<char>, Seq<char>)>) -> Seq<(Seq<char>, Seq<char>)>
    decreases headers.len(),
{
    if headers.len() == 0 {
        Seq::empty()
    } else {
        let before = forwarded_headers(headers.drop_last());
        let name = headers.last().0;
        if is_hop_by_hop(name) || text::lowered(name) == text::lowered("host"@) {
            before
        } else {
            before.push(headers.last())
        }
    }
}

/// The lines of headers.
pub open spec fn header_lines(headers: Seq<(Seq<char>, Seq<char>)>) -> Seq<char>
    decreases headers.len(),
{
    if headers.len() == 0 {
        Seq::empty()
    } else {
        header_lines(headers.drop_last()) + headers.last().0 + ": "@ + headers.last().1 + "\r\n"@
    }
}

/// The head that is sent upstream: the request line, the headers that are sent on, the host that
/// was checked, the credential if there is one, and that the connection ends with the answer.
pub open spec fn forward_head(
    req: RequestModel,
    path: Seq<char>,
    authority: Seq<char>,
    credential: Option<(Seq<char>, Seq<char>)>,
) -> Seq<char> {
    let lead = req.method + " "@ + path + " HTTP/1.1\r\n"@ + header_lines(forwarded_headers(req.headers)) + "Host: "@
        + authority + "\r\n"@;
    match credential {
        Some((name, value)) => lead + name + ": "@ + value + "\r\n"@ + "Connection: close\r\n\r\n"@,
        None => lead + "Connection: close\r\n\r\n"@,
    }
}

/// Whether a header belongs to one hop only.
fn hop_by_hop(name: &str) -> (r: bool)
    ensures
        r == is_hop_by_hop(name@),
{
    text::eq_ignore_ascii_case(name, "connection") || text::eq_ignore_ascii_case(name, "proxy-authorization")
        || text::eq_ignore_ascii_case(name, "proxy-connection") || text::eq_ignore_ascii_case(name, "keep-alive")
        || text::eq_ignore_ascii_case(name, "te") || text::eq_ignore_ascii_case(name, "trailer")
        || text::eq_ignore_ascii_case(name, "transfer-encoding") || text::eq_ignore_ascii_case(name, "upgrade")
}

/// The head that is sent upstream.
pub fn build_head(
    request: &Request,
    path: &str,
    authority: &str,
    credential: &Option<(String, String)>,
) -> (r: String)
    ensures
        r@ == forward_head(request@, path@, authority@, egress::header_view(*credential)),
{
    let mut out = text::cat3(request.method.as_str(), " ", path);
    out.append(" HTTP/1.1\r\n");
    let ghost lead = out@;
    let ghost all = request@.headers;
    let mut i: usize = 0;
    proof {
        assert(forwarded_headers(all.take(0)) =~= Seq::<(Seq<char>, Seq<char>)>::empty());
        assert(out@ =~= lead + header_lines(forwarded_headers(all.take(0))));
    }
    while i < request.headers.len()
        invariant
            i <= request.headers@.len(),
            all == egress::header_texts(request.headers@),
            out@ == lead + header_lines(forwarded_headers(all.take(i as int))),
        decreases request.headers@.len() - i,
    {
        let name = request.headers[i].0.as_str();
        let value = request.headers[i].1.as_str();
        proof {
            assert(all.take(i + 1).drop_last() =~= all.take(i as int));
            assert(all.take(i + 1).last() == (name@, value@));
        }
        if !(hop_by_hop(name) || text::eq_ignore_ascii_case(name, "host")) {
            let ghost done = forwarded_headers(all.take(i as int));
            out.append(name);
            out.append(": ");
            out.append(value);
            out.append("\r\n");
            proof {
                let next = done.push((name@, value@));
                assert(next.drop_last() =~= done);
                assert(out@ =~= lead + header_lines(next));
            }
        }
        i = i + 1;
    }
    proof {
        assert(all.take(i as int) =~= all);
    }
    out.append("Host: ");
    out.append(authority);
    out.append("\r\n");
    if let Some((name, value)) = credential {
        out.append(name.as_str());
        out.append(": ");
        out.append(value.as_str());
        out.append("\r\n");
    }
    out.append("Connection: close\r\n\r\n");
    out
}

/// Charges a session for bytes that are about to move.
pub fn charge(broker: &mut Broker, token: &str, n: u64) -> (r: Result<(), Refusal>)
    ensures
        final(broker).sessions@ == proxy::charged(old(broker).sessions@, token@, n),
        old(broker).wf() ==> final(broker).wf(),
        r is Ok <==> proxy::charge_refusal(old(broker).sessions@, token@, n) is None,
        r matches Err(e) ==> e@ == RefusalModel::Forbidden(
            "egress budget: "@ + error::described(proxy::charge_refusal(old(broker).sessions@, token@, n)->0),
        ),
{
    match broker.record_bytes(token, n) {
        Ok(_) => Ok(()),
        Err(e) => {
            let mut t = "egress budget: ".to_owned();
            t.append(e.to_string().as_str());
            Err(Refusal::Forbidden(t))
        },
    }
}

/// Whether bytes that were read from one side may go to the other. Nothing read, or a budget that
/// does not reach, ends the connection; what does not go is not charged.
pub fn pump_step(broker: &mut Broker, token: &str, read: Option<usize>) -> (r: bool)
    ensures
        r <==> (read matches Some(n) && n > 0 && proxy::charge_refusal(
            old(broker).sessions@,
            token@,
            n as u64,
        ) is None),
        final(broker).sessions@ == (match read {
            Some(n) => if n > 0 {
                proxy::charged(old(broker).sessions@, token@, n as u64)
            } else {
                old(broker).sessions@
            },
            None => old(broker).sessions@,
        }),
        old(broker).wf() ==> final(broker).wf(),
{
    match read {
        Some(n) => {
            if n == 0 {
                return false;
            }
            broker.record_bytes(token, n as u64).is_ok()
        },
        None => false,
    }
}

/// Without a session nobody learns anything of the policy: whatever a request asks for, and
/// whatever the routes are, it is answered that its sender must authenticate.
pub proof fn strangers_are_turned_away(
    sessions: Map<Seq<char>, SessionState>,
    routes: Seq<RouteModel>,
    max_request_bytes: u64,
    req: RequestModel,
)
    requires
        token_of(req) is None || proxy::budget_left(sessions, token_of(req)->0) is None,
    ensures
        request_plan(sessions, routes, max_request_bytes, req) matches Err(RefusalModel::Unauthorized(_)),
{
}

proof fn route_index_found(routes: Seq<RouteModel>, host: Seq<char>)
    ensures
        0 <= egress::route_index(routes, host) <= routes.len(),
        egress::route_index(routes, host) < routes.len() ==> egress::covers_host(
            routes[egress::route_index(routes, host)],
            host,
        ),
    decreases routes.len(),
{
    if routes.len() > 0 && !egress::covers_host(routes[0], host) {
        route_index_found(routes.skip(1), host);
    }
}

/// A plain request that is let through goes to a host that a route covers, with a method that the
/// route permits, with a body of known length within the limit.
pub proof fn plain_requests_obey_the_policy(routes: Seq<RouteModel>, max_request_bytes: u64, req: RequestModel)
    requires
        plain_plan(routes, max_request_bytes, req) is Ok,
    ensures
        ({
            let p = plain_plan(routes, max_request_bytes, req)->Ok_0;
            &&& exists|k: int|
                0 <= k < routes.len() && egress::covers_host(#[trigger] routes[k], p.host) && egress::permits_method(
                    routes[k],
                    req.method,
                )
            &&& p.body_len <= max_request_bytes
            &&& egress::header_value(req.headers, "transfer-encoding"@) is None
        }),
{
    let p = plain_plan(routes, max_request_bytes, req)->Ok_0;
    route_index_found(routes, p.host);
    let k = egress::route_index(routes, p.host);
    assert(egress::covers_host(routes[k], p.host));
}

/// A tunnel that is opened goes to a host that a route covers.
pub proof fn tunnels_obey_the_policy(routes: Seq<RouteModel>, req: RequestModel)
    requires
        connect_plan(routes, req) is Ok,
    ensures
        exists|k: int|
            0 <= k < routes.len() && egress::covers_host(
                #[trigger] routes[k],
                connect_plan(routes, req)->Ok_0.0,
            ),
{
    let host = connect_plan(routes, req)->Ok_0.0;
    route_index_found(routes, host);
    let k = egress::route_index(routes, host);
    assert(egress::covers_host(routes[k], host));
}

/// Neither the session's token nor any other header of one hop is sent on, nor the `Host` that
/// the sender gave.
pub proof fn hop_headers_stay_here(headers: Seq<(Seq<char>, Seq<char>)>, i: int)
    requires
        0 <= i < forwarded_headers(headers).len(),
    ensures
        !is_hop_by_hop(forwarded_headers(headers)[i].0),
        text::lowered(forwarded_headers(headers)[i].0) != text::lowered("proxy-authorization"@),
        text::lowered(forwarded_headers(headers)[i].0) != text::lowered("host"@),
    decreases headers.len(),
{
    let front = headers.drop_last();
    if i < forwarded_headers(front).len() {
        hop_headers_stay_here(front, i);
    }
}

/// No metadata address is ever connected to, whatever a name resolves to and in whatever order.
pub proof fn metadata_is_never_reached(host: Seq<char>, addrs: Seq<SocketAddr>, i: int)
    requires
        0 <= i < addrs.len(),
        is_metadata(addrs[i].ip@),
    ensures
        pinned(host, Ok(addrs)) == Err::<SocketAddr, RefusalModel>(metadata_refusal(host)),
{
}

/// The refusal of a host tells no address that it resolved to: it is the same whichever metadata
/// address was among the answers, and whatever else was.
pub proof fn refusals_tell_no_address(host: Seq<char>, a: Seq<SocketAddr>, b: Seq<SocketAddr>)
    requires
        pinned(host, Ok(a)) matches Err(RefusalModel::Forbidden(_)),
        pinned(host, Ok(b)) matches Err(RefusalModel::Forbidden(_)),
    ensures
        pinned(host, Ok(a)) == pinned(host, Ok(b)),
{
}

/// A route without methods permits nothing.
pub proof fn no_methods_permit_nothing(route: RouteModel, method: Seq<char>)
    requires
        route.methods.len() == 0,
    ensures
        !egress::permits_method(route, method),
{
}

/// A wildcard stands for the names that end in a dot and its own name: not for that name itself,
/// and not for a longer word that only ends alike.
pub proof fn wildcard_keeps_to_labels(name: Seq<char>, host: Seq<char>)
    ensures
        egress::host_fits("*."@ + name, host) <==> (seq!['.'] + text::lowered(name)).is_suffix_of(text::lowered(host)),
{
    reveal_strlit("*.");
    let p = text::lowered("*."@ + name);
    let n = text::lowered(name);
    let h = text::lowered(host);
    let dotted = seq!['.'] + n;
    assert(p.subrange(0, 2) =~= "*."@);
    assert(p.skip(2) =~= n);
    if egress::host_fits("*."@ + name, host) {
        let tail = h.subrange(h.len() - dotted.len(), h.len() as int);
        assert forall|i: int| 0 <= i < dotted.len() implies tail[i] == dotted[i] by {
            if i > 0 {
                assert(h.subrange(h.len() - n.len(), h.len() as int)[i - 1] == n[i - 1]);
            }
        }
        assert(tail =~= dotted);
    }
    if dotted.is_suffix_of(h) {
        let tail = h.subrange(h.len() - dotted.len(), h.len() as int);
        assert(tail[0] == '.');
        let own = h.subrange(h.len() - n.len(), h.len() as int);
        assert forall|i: int| 0 <= i < n.len() implies own[i] == n[i] by {
            assert(tail[i + 1] == dotted[i + 1]);
        }
        assert(own =~= n);
    }
}

} // verus!
