//! The egress proxy's rules: who may reach what, how, and what is sent on.
//!
//! The connections are the caller's. Here it is decided what a request asks for, whether it is
//! granted, and what goes upstream.
use std::sync::Arc;

use vstd::hash_map::StringHashMap;
use vstd::prelude::*;

use crate::number;
use crate::policy::compile;
use crate::text;

verus! {

/// The most bytes of a request's head.
pub const MAX_HEADER_BYTES: usize = 65536;

/// A route: hosts, and the methods that they may be asked with.
#[derive(Debug, Clone)]
pub struct Route {
    /// Host names, or `*.` and a name for any name beneath that one.
    pub hosts: Vec<String>,
    /// Methods; none means that nothing is permitted.
    pub methods: Vec<String>,
}

#[verifier::ext_equal]
pub struct RouteModel {
    pub hosts: Seq<Seq<char>>,
    pub methods: Seq<Seq<char>>,
}

impl View for Route {
    type V = RouteModel;

    open spec fn view(&self) -> RouteModel {
        RouteModel { hosts: text::texts(self.hosts@), methods: text::texts(self.methods@) }
    }
}

/// Whether a host is what a pattern stands for, the case of letters aside. A pattern `*.x` stands
/// for the names that end in `.x`, and not for `x` itself.
pub open spec fn host_fits(pattern: Seq<char>, host: Seq<char>) -> bool {
    let p = text::lowered(pattern);
    let h = text::lowered(host);
    if "*."@.is_prefix_of(p) {
        let suffix = p.skip(2);
        &&& h.len() > suffix.len()
        &&& suffix.is_suffix_of(h)
        &&& h[h.len() - suffix.len() - 1] == '.'
    } else {
        h == p
    }
}

/// Whether a route covers a host.
pub open spec fn covers_host(route: RouteModel, host: Seq<char>) -> bool {
    exists|i: int| 0 <= i < route.hosts.len() && host_fits(#[trigger] route.hosts[i], host)
}

/// Whether a route permits a method.
pub open spec fn permits_method(route: RouteModel, method: Seq<char>) -> bool {
    exists|i: int|
        0 <= i < route.methods.len() && text::lowered(#[trigger] route.methods[i]) == text::lowered(method)
}

/// The position of the first route that covers a host, or the number of routes.
pub open spec fn route_index(routes: Seq<RouteModel>, host: Seq<char>) -> int
    decreases routes.len(),
{
    if routes.len() == 0 {
        0
    } else if covers_host(routes[0], host) {
        0
    } else {
        1 + route_index(routes.skip(1), host)
    }
}

/// Whether a host is what a pattern stands for.
fn fits(pattern: &str, host: &str) -> (r: bool)
    ensures
        r == host_fits(pattern@, host@),
{
    let p = text::to_ascii_lowercase(pattern);
    let h = text::to_ascii_lowercase(host);
    proof {
        reveal_strlit("*.");
    }
    match text::strip_prefix(p.as_str(), "*.") {
        Some(suffix) => {
            let n: usize = text::chars_of(suffix.as_str()).len();
            let chars = text::chars_of(h.as_str());
            chars.len() > n && text::ends_with(h.as_str(), suffix.as_str()) && chars[chars.len() - n - 1] == '.'
        },
        None => h == p,
    }
}

impl Route {
    /// Whether the route covers a host.
    pub fn matches_host(&self, host: &str) -> (r: bool)
        ensures
            r == covers_host(self@, host@),
    {
        let mut i: usize = 0;
        while i < self.hosts.len()
            invariant
                i <= self.hosts@.len(),
                forall|j: int| 0 <= j < i ==> !host_fits(#[trigger] self@.hosts[j], host@),
            decreases self.hosts@.len() - i,
        {
            proof {
                assert(self@.hosts[i as int] == self.hosts@[i as int]@);
            }
            if fits(self.hosts[i].as_str(), host) {
                return true;
            }
            i = i + 1;
        }
        false
    }

    /// Whether the route permits a method.
    pub fn allows_method(&self, method: &str) -> (r: bool)
        ensures
            r == permits_method(self@, method@),
    {
        let mut i: usize = 0;
        while i < self.methods.len()
            invariant
                i <= self.methods@.len(),
                forall|j: int|
                    0 <= j < i ==> text::lowered(#[trigger] self@.methods[j]) != text::lowered(method@),
            decreases self.methods@.len() - i,
        {
            proof {
                assert(self@.methods[i as int] == self.methods@[i as int]@);
            }
            if text::eq_ignore_ascii_case(self.methods[i].as_str(), method) {
                return true;
            }
            i = i + 1;
        }
        false
    }
}

/// Supplies the credentials that are attached on the way out. They never enter a sandbox.
pub trait SecretProvider: Send + Sync {
    /// The header to attach for a host, if any.
    fn header_for(&self, host: &str) -> Option<(String, String)>;
}

/// Credentials by host.
pub struct StaticSecrets {
    pub by_host: StringHashMap<(String, String)>,
}

/// A header as plain values.
pub open spec fn header_view(h: Option<(String, String)>) -> Option<(Seq<char>, Seq<char>)> {
    match h {
        Some((n, v)) => Some((n@, v@)),
        None => None,
    }
}

impl Default for StaticSecrets {
    fn default() -> (r: Self)
        ensures
            forall|h: Seq<char>| #[trigger] r.secret(h) is None,
    {
        StaticSecrets::new()
    }
}

impl StaticSecrets {
    /// The header for a host, the case of letters aside.
    pub open spec fn secret(&self, host: Seq<char>) -> Option<(Seq<char>, Seq<char>)> {
        let key = text::lowered(host);
        if self.by_host@.dom().contains(key) {
            Some((self.by_host@[key].0@, self.by_host@[key].1@))
        } else {
            None
        }
    }

    /// No credentials.
    pub fn new() -> (r: Self)
        ensures
            forall|h: Seq<char>| #[trigger] r.secret(h) is None,
    {
        StaticSecrets { by_host: StringHashMap::new() }
    }

    /// Sets the header for a host.
    pub fn insert(&mut self, host: &str, header: &str, value: &str)
        ensures
            forall|h: Seq<char>|
                #[trigger] final(self).secret(h) == (if text::lowered(h) == text::lowered(host@) {
                    Some((header@, value@))
                } else {
                    old(self).secret(h)
                }),
    {
        self.by_host.insert(text::to_ascii_lowercase(host), (header.to_owned(), value.to_owned()));
    }
}

impl SecretProvider for StaticSecrets {
    fn header_for(&self, host: &str) -> (r: Option<(String, String)>)
        ensures
            header_view(r) == self.secret(host@),
    {
        match self.by_host.get(text::to_ascii_lowercase(host).as_str()) {
            Some(h) => Some((h.0.clone(), h.1.clone())),
            None => None,
        }
    }
}

/// What a broker lets through.
pub struct EgressPolicy<S: SecretProvider> {
    pub routes: Vec<Route>,
    /// The most bytes of a request's body.
    pub max_request_bytes: u64,
    pub secrets: Arc<S>,
}

proof fn route_index_is(routes: Seq<RouteModel>, host: Seq<char>, k: int)
    requires
        0 <= k <= routes.len(),
        forall|i: int| 0 <= i < k ==> !covers_host(#[trigger] routes[i], host),
        k < routes.len() ==> covers_host(routes[k], host),
    ensures
        route_index(routes, host) == k,
    decreases k,
{
    if k > 0 {
        assert(!covers_host(routes[0], host));
        let rest = routes.skip(1);
        assert forall|i: int| 0 <= i < k - 1 implies !covers_host(#[trigger] rest[i], host) by {
            assert(rest[i] == routes[i + 1]);
        }
        route_index_is(rest, host, k - 1);
    }
}

impl<S: SecretProvider> EgressPolicy<S> {
    /// The position of the first route that covers a host.
    pub fn route_for(&self, host: &str) -> (r: Option<usize>)
        ensures
            r matches Some(k) ==> k < self.routes@.len() && k == route_index(compile::views(self.routes@), host@)
                && covers_host(self.routes@[k as int]@, host@),
            r is None ==> route_index(compile::views(self.routes@), host@) == self.routes@.len(),
    {
        let ghost all = compile::views(self.routes@);
        let mut i: usize = 0;
        while i < self.routes.len()
            invariant
                i <= self.routes@.len(),
                all == compile::views(self.routes@),
                forall|j: int| 0 <= j < i ==> !covers_host(#[trigger] all[j], host@),
            decreases self.routes@.len() - i,
        {
            proof {
                assert(all[i as int] == self.routes@[i as int]@);
            }
            if self.routes[i].matches_host(host) {
                proof {
                    route_index_is(all, host@, i as int);
                }
                return Some(i);
            }
            i = i + 1;
        }
        proof {
            route_index_is(all, host@, i as int);
        }
        None
    }

    /// Whether a route covers a host. It says nothing of methods.
    pub fn permits_host(&self, host: &str) -> (r: bool)
        ensures
            r == (route_index(compile::views(self.routes@), host@) < self.routes@.len()),
    {
        self.route_for(host).is_some()
    }
}

/// Why a request is refused.
#[derive(Debug)]
pub enum Refusal {
    BadRequest(String),
    Unauthorized(String),
    Forbidden(String),
    TooLarge(String),
    Upstream(String),
}

#[verifier::ext_equal]
pub enum RefusalModel {
    BadRequest(Seq<char>),
    Unauthorized(Seq<char>),
    Forbidden(Seq<char>),
    TooLarge(Seq<char>),
    Upstream(Seq<char>),
}

impl View for Refusal {
    type V = RefusalModel;

    open spec fn view(&self) -> RefusalModel {
        match *self {
            Refusal::BadRequest(m) => RefusalModel::BadRequest(m@),
            Refusal::Unauthorized(m) => RefusalModel::Unauthorized(m@),
            Refusal::Forbidden(m) => RefusalModel::Forbidden(m@),
            Refusal::TooLarge(m) => RefusalModel::TooLarge(m@),
            Refusal::Upstream(m) => RefusalModel::Upstream(m@),
        }
    }
}

/// The status of a refusal.
pub open spec fn status_of(r: RefusalModel) -> (u16, Seq<char>) {
    match r {
        RefusalModel::BadRequest(_) => (400, "Bad Request"@),
        RefusalModel::Unauthorized(_) => (407, "Proxy Authentication Required"@),
        RefusalModel::Forbidden(_) => (403, "Forbidden"@),
        RefusalModel::TooLarge(_) => (413, "Payload Too Large"@),
        RefusalModel::Upstream(_) => (502, "Bad Gateway"@),
    }
}

/// What a refusal says.
pub open spec fn detail_of(r: RefusalModel) -> Seq<char> {
    match r {
        RefusalModel::BadRequest(m) => m,
        RefusalModel::Unauthorized(m) => m,
        RefusalModel::Forbidden(m) => m,
        RefusalModel::TooLarge(m) => m,
        RefusalModel::Upstream(m) => m,
    }
}

/// The body of the answer to a refused request.
pub open spec fn refusal_body(r: RefusalModel) -> Seq<char> {
    "aivisor-broker: "@ + detail_of(r) + "\n"@
}

/// The answer to a refused request.
pub open spec fn refusal_response(r: RefusalModel) -> Seq<char> {
    "HTTP/1.1 "@ + number::decimal(status_of(r).0 as nat) + " "@ + status_of(r).1 + "\r\nContent-Length: "@
        + number::decimal(vstd::utf8::encode_utf8(refusal_body(r)).len())
        + "\r\nContent-Type: text/plain\r\nConnection: close\r\n\r\n"@ + refusal_body(r)
}

impl Refusal {
    /// The status: its number and its words.
    pub fn status(&self) -> (r: (u16, &'static str))
        ensures
            (r.0, r.1@) == status_of(self@),
    {
        match self {
            Refusal::BadRequest(_) => (400, "Bad Request"),
            Refusal::Unauthorized(_) => (407, "Proxy Authentication Required"),
            Refusal::Forbidden(_) => (403, "Forbidden"),
            Refusal::TooLarge(_) => (413, "Payload Too Large"),
            Refusal::Upstream(_) => (502, "Bad Gateway"),
        }
    }

    /// What the refusal says.
    pub fn detail(&self) -> (r: &str)
        ensures
            r@ == detail_of(self@),
    {
        match self {
            Refusal::BadRequest(m) => m.as_str(),
            Refusal::Unauthorized(m) => m.as_str(),
            Refusal::Forbidden(m) => m.as_str(),
            Refusal::TooLarge(m) => m.as_str(),
            Refusal::Upstream(m) => m.as_str(),
        }
    }

    /// The answer to the refused request.
    pub fn response(&self) -> (r: String)
        ensures
            r@ == refusal_response(self@),
    {
        let (code, reason) = self.status();
        let body = text::cat3("aivisor-broker: ", self.detail(), "\n");
        let len: usize = body.as_str().as_bytes().len();
        let mut out = text::cat5(
            "HTTP/1.1 ",
            number::format_u64(code as u64).as_str(),
            " ",
            reason,
            "\r\nContent-Length: ",
        );
        out.append(number::format_u64(len as u64).as_str());
        out.append("\r\nContent-Type: text/plain\r\nConnection: close\r\n\r\n");
        out.append(body.as_str());
        out
    }
}

/// A request's line and headers.
#[derive(Debug)]
pub struct Request {
    pub method: String,
    pub target: String,
    pub headers: Vec<(String, String)>,
}

#[verifier::ext_equal]
pub struct RequestModel {
    pub method: Seq<char>,
    pub target: Seq<char>,
    pub headers: Seq<(Seq<char>, Seq<char>)>,
}

/// Headers as plain values.
pub open spec fn header_texts(v: Seq<(String, String)>) -> Seq<(Seq<char>, Seq<char>)> {
    Seq::new(v.len(), |i: int| (v[i].0@, v[i].1@))
}

impl View for Request {
    type V = RequestModel;

    open spec fn view(&self) -> RequestModel {
        RequestModel { method: self.method@, target: self.target@, headers: header_texts(self.headers@) }
    }
}

/// The value of the first header with a name, the case of letters aside.
pub open spec fn header_value(headers: Seq<(Seq<char>, Seq<char>)>, name: Seq<char>) -> Option<Seq<char>>
    decreases headers.len(),
{
    if headers.len() == 0 {
        None
    } else if text::lowered(headers[0].0) == text::lowered(name) {
        Some(headers[0].1)
    } else {
        header_value(headers.skip(1), name)
    }
}

impl Request {
    /// The value of the first header with a name.
    pub fn header(&self, name: &str) -> (r: Option<&str>)
        ensures
            r is Some <==> header_value(self@.headers, name@) is Some,
            r matches Some(v) ==> header_value(self@.headers, name@) == Some(v@),
    {
        let ghost all = header_texts(self.headers@);
        let mut i: usize = 0;
        proof {
            assert(all.skip(0) =~= all);
        }
        while i < self.headers.len()
            invariant
                i <= self.headers@.len(),
                all == header_texts(self.headers@),
                header_value(all, name@) == header_value(all.skip(i as int), name@),
            decreases self.headers@.len() - i,
        {
            let ghost rest = all.skip(i as int);
            proof {
                assert(rest[0] == (self.headers@[i as int].0@, self.headers@[i as int].1@));
                assert(rest.skip(1) =~= all.skip(i + 1));
            }
            if text::eq_ignore_ascii_case(self.headers[i].0.as_str(), name) {
                return Some(self.headers[i].1.as_str());
            }
            i = i + 1;
        }
        None
    }
}

} // verus!
