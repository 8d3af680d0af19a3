//! The course of a request that is let through: what is done for it, in which order, and what a
//! failure is answered.
use vstd::prelude::*;

use crate::broker::egress;
use crate::broker::egress::EgressPolicy;
use crate::broker::egress::Refusal;
use crate::broker::egress::RefusalModel;
use crate::broker::egress::Request;
use crate::broker::egress::RequestModel;
use crate::broker::egress::SecretProvider;
use crate::broker::forward;
use crate::broker::forward::Forward;
use crate::broker::forward::ForwardModel;
use crate::broker::forward::PlainModel;
use crate::broker::forward::PlainRequest;
use crate::broker::forward::SocketAddr;
use crate::broker::proxy;
use crate::broker::proxy::Broker;
use crate::broker::proxy::SessionState;
use crate::error;
use crate::text;

verus! {

/// Whether a text is the head that is sent upstream for a plain request: the one with a credential
/// that the provider gave for the very host that was checked, or without one where it gave none.
pub open spec fn is_outgoing_head<S: SecretProvider>(
    policy: &EgressPolicy<S>,
    req: RequestModel,
    plain: PlainModel,
    head: Seq<char>,
) -> bool {
    exists|host: &str, credential: Option<(String, String)>|
        {
            &&& host@ == plain.host
            &&& #[trigger] call_ensures(S::header_for, (&*policy.secrets, host), credential)
            &&& head == forward::forward_head(req, plain.path, plain.authority, egress::header_view(credential))
        }
}

/// The head that is sent upstream for a plain request, with the credential of the host that was
/// checked.
pub fn outgoing_head<S: SecretProvider>(policy: &EgressPolicy<S>, request: &Request, plain: &PlainRequest) -> (r: String)
    ensures
        is_outgoing_head(policy, request@, plain@, r@),
{
    let host = plain.host.as_str();
    let credential = policy.secrets.header_for(host);
    let head = forward::build_head(request, plain.path.as_str(), plain.authority.as_str(), &credential);
    proof {
        assert(call_ensures(S::header_for, (&*policy.secrets, host), credential));
    }
    head
}

/// What is done next for a request.
#[derive(Debug)]
pub enum CourseAct {
    /// Resolve the host's name.
    Resolve,
    /// Connect to an address.
    Connect(SocketAddr),
    /// Send a head upstream.
    WriteHead(String),
    /// Read so many bytes of body from the client.
    ReadBody(u64),
    /// Send the body upstream.
    WriteBody,
    /// Tell the client that its tunnel is open.
    Establish,
    /// Pass on what comes, to the end of the connection.
    Relay,
}

#[verifier::ext_equal]
pub enum CourseActModel {
    Resolve,
    Connect(SocketAddr),
    WriteHead(Seq<char>),
    ReadBody(u64),
    WriteBody,
    Establish,
    Relay,
}

impl View for CourseAct {
    type V = CourseActModel;

    open spec fn view(&self) -> CourseActModel {
        match *self {
            CourseAct::Resolve => CourseActModel::Resolve,
            CourseAct::Connect(a) => CourseActModel::Connect(a),
            CourseAct::WriteHead(h) => CourseActModel::WriteHead(h@),
            CourseAct::ReadBody(n) => CourseActModel::ReadBody(n),
            CourseAct::WriteBody => CourseActModel::WriteBody,
            CourseAct::Establish => CourseActModel::Establish,
            CourseAct::Relay => CourseActModel::Relay,
        }
    }
}

/// Where the course of a request stands: what was asked for last.
#[derive(Debug, Clone, Copy, PartialEq, Eq, Structural)]
pub enum CoursePhase {
    Begun,
    Resolving,
    Connecting,
    SendingHead,
    ReadingBody,
    SendingBody,
    Establishing,
    Over,
}

/// What became of what was asked for.
#[derive(Debug)]
pub enum CourseEvent {
    Done,
    Failed(String),
    /// What the name resolved to.
    Resolved(Result<Vec<SocketAddr>, String>),
}

#[verifier::ext_equal]
pub enum CourseEventModel {
    Done,
    Failed(Seq<char>),
    Resolved(Result<Seq<SocketAddr>, Seq<char>>),
}

impl View for CourseEvent {
    type V = CourseEventModel;

    open spec fn view(&self) -> CourseEventModel {
        match *self {
            CourseEvent::Done => CourseEventModel::Done,
            CourseEvent::Failed(m) => CourseEventModel::Failed(m@),
            CourseEvent::Resolved(Ok(v)) => CourseEventModel::Resolved(Ok(v@)),
            CourseEvent::Resolved(Err(m)) => CourseEventModel::Resolved(Err(m@)),
        }
    }
}

/// Whether an event is one that can follow what was asked for.
pub open spec fn course_fits(phase: CoursePhase, event: CourseEventModel) -> bool {
    match phase {
        CoursePhase::Begun => event is Done,
        CoursePhase::Resolving => event is Resolved,
        CoursePhase::Over => false,
        _ => event is Done || event is Failed,
    }
}

/// The host that a request goes to.
pub open spec fn host_of(way: ForwardModel) -> Seq<char> {
    match way {
        ForwardModel::Plain(p) => p.host,
        ForwardModel::Tunnel { host, port: _ } => host,
    }
}

/// What a charge that is refused is answered.
pub open spec fn charge_answer(sessions: Map<Seq<char>, SessionState>, token: Seq<char>, n: u64) -> RefusalModel {
    RefusalModel::Forbidden(
        "egress budget: "@ + error::described(proxy::charge_refusal(sessions, token, n)->0),
    )
}

/// What a course comes to with an event: where it stands then, the sessions, and what is done next
/// or answered. `head` is the head that goes upstream.
pub open spec fn course_step(
    way: ForwardModel,
    token: Seq<char>,
    head: Seq<char>,
    sessions: Map<Seq<char>, SessionState>,
    phase: CoursePhase,
    event: CourseEventModel,
) -> (CoursePhase, Map<Seq<char>, SessionState>, Result<CourseActModel, RefusalModel>) {
    let over = |r: RefusalModel| (CoursePhase::Over, sessions, Err::<CourseActModel, RefusalModel>(r));
    match (phase, event) {
        (CoursePhase::Begun, _) => (CoursePhase::Resolving, sessions, Ok(CourseActModel::Resolve)),
        (CoursePhase::Resolving, CourseEventModel::Resolved(answers)) => match forward::pinned(host_of(way), answers) {
            Ok(a) => (CoursePhase::Connecting, sessions, Ok(CourseActModel::Connect(a))),
            Err(r) => over(r),
        },
        (CoursePhase::Connecting, CourseEventModel::Failed(m)) => over(
            RefusalModel::Upstream("connect to "@ + host_of(way) + ": "@ + m),
        ),
        (CoursePhase::Connecting, _) => match way {
            ForwardModel::Plain(_) => {
                let n = vstd::utf8::encode_utf8(head).len() as u64;
                if proxy::charge_refusal(sessions, token, n) is Some {
                    over(charge_answer(sessions, token, n))
                } else {
                    (
                        CoursePhase::SendingHead,
                        proxy::charged(sessions, token, n),
                        Ok(CourseActModel::WriteHead(head)),
                    )
                }
            },
            ForwardModel::Tunnel { .. } => (CoursePhase::Establishing, sessions, Ok(CourseActModel::Establish)),
        },
        (CoursePhase::SendingHead, CourseEventModel::Failed(m)) => over(RefusalModel::Upstream("write head: "@ + m)),
        (CoursePhase::SendingHead, _) => match way {
            ForwardModel::Plain(p) => if p.body_len > 0 {
                (CoursePhase::ReadingBody, sessions, Ok(CourseActModel::ReadBody(p.body_len)))
            } else {
                (CoursePhase::Over, sessions, Ok(CourseActModel::Relay))
            },
            ForwardModel::Tunnel { .. } => (CoursePhase::Over, sessions, Ok(CourseActModel::Relay)),
        },
        (CoursePhase::ReadingBody, CourseEventModel::Failed(m)) => over(RefusalModel::BadRequest("read body: "@ + m)),
        (CoursePhase::ReadingBody, _) => match way {
            ForwardModel::Plain(p) => if proxy::charge_refusal(sessions, token, p.body_len) is Some {
                over(charge_answer(sessions, token, p.body_len))
            } else {
                (
                    CoursePhase::SendingBody,
                    proxy::charged(sessions, token, p.body_len),
                    Ok(CourseActModel::WriteBody),
                )
            },
            ForwardModel::Tunnel { .. } => (CoursePhase::Over, sessions, Ok(CourseActModel::Relay)),
        },
        (CoursePhase::SendingBody, CourseEventModel::Failed(m)) => over(RefusalModel::Upstream("write body: "@ + m)),
        (CoursePhase::Establishing, CourseEventModel::Failed(m)) => over(
            RefusalModel::Upstream("write CONNECT response: "@ + m),
        ),
        _ => (CoursePhase::Over, sessions, Ok(CourseActModel::Relay)),
    }
}

/// A result as plain values.
pub open spec fn act_view(r: Result<CourseAct, Refusal>) -> Result<CourseActModel, RefusalModel> {
    match r {
        Ok(a) => Ok(a@),
        Err(e) => Err(e@),
    }
}

/// The course of one request.
#[derive(Debug)]
pub struct Course {
    pub phase: CoursePhase,
}

/// A refusal for which the far end is the reason.
fn upstream(lead: &str, m: &str) -> (r: Refusal)
    ensures
        r@ == RefusalModel::Upstream(lead@ + m@),
{
    let mut t = lead.to_owned();
    t.append(m);
    Refusal::Upstream(t)
}

impl Course {
    /// A course that has not begun.
    pub fn new() -> (r: Self)
        ensures
            r.phase == CoursePhase::Begun,
    {
        Course { phase: CoursePhase::Begun }
    }

    fn connected<S: SecretProvider>(
        &mut self,
        broker: &mut Broker,
        policy: &EgressPolicy<S>,
        request: &Request,
        way: &Forward,
        token: &str,
    ) -> (r: Result<CourseAct, Refusal>)
        requires
            old(self).phase == CoursePhase::Connecting,
        ensures
            old(broker).wf() ==> final(broker).wf(),
            exists|head: Seq<char>|
                {
                    &&& way@ matches ForwardModel::Plain(p) ==> is_outgoing_head(policy, request@, p, head)
                    &&& (final(self).phase, final(broker).sessions@, act_view(r)) == #[trigger] course_step(
                        way@,
                        token@,
                        head,
                        old(broker).sessions@,
                        CoursePhase::Connecting,
                        CourseEventModel::Done,
                    )
                },
    {
        let ghost sessions = broker.sessions@;
        match way {
            Forward::Plain(plain) => {
                let head = outgoing_head(policy, request, plain);
                let n: usize = head.as_str().as_bytes().len();
                let ghost h = head@;
                let charged = forward::charge(broker, token, n as u64);
                let ghost want = course_step(
                    way@,
                    token@,
                    h,
                    sessions,
                    CoursePhase::Connecting,
                    CourseEventModel::Done,
                );
                proof {
                    assert(n as u64 == vstd::utf8::encode_utf8(h).len() as u64);
                    assert(is_outgoing_head(policy, request@, plain@, h));
                }
                match charged {
                    Ok(_) => {
                        self.phase = CoursePhase::SendingHead;
                        proof {
                            assert(want.0 == CoursePhase::SendingHead);
                        }
                        Ok(CourseAct::WriteHead(head))
                    },
                    Err(e) => {
                        self.phase = CoursePhase::Over;
                        proof {
                            assert(want.0 == CoursePhase::Over);
                        }
                        Err(e)
                    },
                }
            },
            Forward::Tunnel { .. } => {
                self.phase = CoursePhase::Establishing;
                proof {
                    assert(course_step(
                        way@,
                        token@,
                        Seq::empty(),
                        sessions,
                        CoursePhase::Connecting,
                        CourseEventModel::Done,
                    ).0 == CoursePhase::Establishing);
                }
                Ok(CourseAct::Establish)
            },
        }
    }

    /// Takes what became of what was asked for, and says what is done now, or what the request is
    /// answered. The first call is made with `Done`.
    pub fn next<S: SecretProvider>(
        &mut self,
        broker: &mut Broker,
        policy: &EgressPolicy<S>,
        request: &Request,
        way: &Forward,
        token: &str,
        event: CourseEvent,
    ) -> (r: Result<CourseAct, Refusal>)
        requires
            course_fits(old(self).phase, event@),
        ensures
            old(broker).wf() ==> final(broker).wf(),
            exists|head: Seq<char>|
                {
                    &&& old(self).phase == CoursePhase::Connecting && event@ is Done ==> (way@ matches ForwardModel::Plain(
                        p,
                    ) ==> is_outgoing_head(policy, request@, p, head))
                    &&& (final(self).phase, final(broker).sessions@, act_view(r)) == #[trigger] course_step(
                        way@,
                        token@,
                        head,
                        old(broker).sessions@,
                        old(self).phase,
                        event@,
                    )
                },
    {
        let phase = self.phase;
        let ghost sessions = broker.sessions@;
        let ghost happened = event@;
        let host = match way {
            Forward::Plain(p) => p.host.as_str(),
            Forward::Tunnel { host, .. } => host.as_str(),
        };
        let ghost want = course_step(way@, token@, Seq::empty(), sessions, phase, happened);
        match (phase, event) {
            (CoursePhase::Begun, _) => {
                self.phase = CoursePhase::Resolving;
                Ok(CourseAct::Resolve)
            },
            (CoursePhase::Resolving, CourseEvent::Resolved(answers)) => match forward::resolve_pinned(host, &answers) {
                Ok(a) => {
                    self.phase = CoursePhase::Connecting;
                    proof {
                        assert(want.0 == CoursePhase::Connecting);
                    }
                    Ok(CourseAct::Connect(a))
                },
                Err(e) => {
                    self.phase = CoursePhase::Over;
                    proof {
                        assert(want.0 == CoursePhase::Over);
                    }
                    Err(e)
                },
            },
            (CoursePhase::Connecting, CourseEvent::Failed(m)) => {
                self.phase = CoursePhase::Over;
                Err(upstream(text::cat3("connect to ", host, ": ").as_str(), m.as_str()))
            },
            (CoursePhase::Connecting, _) => self.connected(broker, policy, request, way, token),
            (CoursePhase::SendingHead, CourseEvent::Failed(m)) => {
                self.phase = CoursePhase::Over;
                Err(upstream("write head: ", m.as_str()))
            },
            (CoursePhase::SendingHead, _) => {
                if let Forward::Plain(p) = way {
                    if p.body_len > 0 {
                        self.phase = CoursePhase::ReadingBody;
                        return Ok(CourseAct::ReadBody(p.body_len));
                    }
                }
                self.phase = CoursePhase::Over;
                Ok(CourseAct::Relay)
            },
            (CoursePhase::ReadingBody, CourseEvent::Failed(m)) => {
                self.phase = CoursePhase::Over;
                let mut t = "read body: ".to_owned();
                t.append(m.as_str());
                Err(Refusal::BadRequest(t))
            },
            (CoursePhase::ReadingBody, _) => {
                if let Forward::Plain(p) = way {
                    return match forward::charge(broker, token, p.body_len) {
                        Ok(_) => {
                            self.phase = CoursePhase::SendingBody;
                            proof {
                                assert(want.0 == CoursePhase::SendingBody);
                            }
                            Ok(CourseAct::WriteBody)
                        },
                        Err(e) => {
                            self.phase = CoursePhase::Over;
                            proof {
                                assert(want.0 == CoursePhase::Over);
                            }
                            Err(e)
                        },
                    };
                }
                self.phase = CoursePhase::Over;
                Ok(CourseAct::Relay)
            },
            (CoursePhase::SendingBody, CourseEvent::Failed(m)) => {
                self.phase = CoursePhase::Over;
                Err(upstream("write body: ", m.as_str()))
            },
            (CoursePhase::Establishing, CourseEvent::Failed(m)) => {
                self.phase = CoursePhase::Over;
                Err(upstream("write CONNECT response: ", m.as_str()))
            },
            _ => {
                self.phase = CoursePhase::Over;
                Ok(CourseAct::Relay)
            },
        }
    }
}

/// Nothing of a request is sent upstream before it is charged: a head or a body goes out only in a
/// step that takes it off the session's budget, and in no other step is anything charged.
pub proof fn nothing_is_sent_uncharged(
    way: ForwardModel,
    token: Seq<char>,
    head: Seq<char>,
    sessions: Map<Seq<char>, SessionState>,
    phase: CoursePhase,
    event: CourseEventModel,
)
    requires
        course_fits(phase, event),
    ensures
        ({
            let (_, after, act) = course_step(way, token, head, sessions, phase, event);
            match act {
                Ok(CourseActModel::WriteHead(h)) => {
                    let n = vstd::utf8::encode_utf8(h).len() as u64;
                    proxy::charge_refusal(sessions, token, n) is None && after == proxy::charged(sessions, token, n)
                },
                Ok(CourseActModel::WriteBody) => way matches ForwardModel::Plain(p) && proxy::charge_refusal(
                    sessions,
                    token,
                    p.body_len,
                ) is None && after == proxy::charged(sessions, token, p.body_len),
                _ => after == sessions,
            }
        }),
{
}

/// A connection is opened only to an address that the checked host resolved to, and never to a
/// metadata address; whatever is sent goes over such a connection, for a connection comes before
/// every act but the resolution.
pub proof fn only_a_pinned_address_is_reached(
    way: ForwardModel,
    token: Seq<char>,
    head: Seq<char>,
    sessions: Map<Seq<char>, SessionState>,
    phase: CoursePhase,
    event: CourseEventModel,
)
    requires
        course_fits(phase, event),
    ensures
        ({
            let (then, _, act) = course_step(way, token, head, sessions, phase, event);
            &&& (act matches Ok(CourseActModel::Connect(a)) ==> (event matches CourseEventModel::Resolved(Ok(addrs))
                && addrs.contains(a) && !forward::is_metadata(a.ip@)))
            &&& then == CoursePhase::Connecting <==> (act is Ok && act->Ok_0 is Connect)
            &&& phase == CoursePhase::Begun || phase == CoursePhase::Resolving ==> (act is Ok ==> act->Ok_0 is Resolve
                || act->Ok_0 is Connect)
            &&& then == CoursePhase::SendingHead || then == CoursePhase::Establishing ==> phase
                == CoursePhase::Connecting
            &&& then == CoursePhase::ReadingBody ==> phase == CoursePhase::SendingHead
            &&& then == CoursePhase::SendingBody ==> phase == CoursePhase::ReadingBody
        }),
{
    if let CourseEventModel::Resolved(Ok(addrs)) = event {
        if phase == CoursePhase::Resolving && forward::pinned(host_of(way), Ok(addrs)) is Ok {
            assert(addrs[0] == forward::pinned(host_of(way), Ok(addrs))->Ok_0);
            assert(addrs.contains(addrs[0]));
        }
    }
}

} // verus!
