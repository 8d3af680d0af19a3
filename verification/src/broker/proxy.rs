//! Sessions: tokens, byte budgets, and the cgroup that a session belongs to.
use vstd::hash_map::StringHashMap;
use vstd::prelude::*;

use crate::error::Error;
use crate::error::ErrorModel;
use crate::id;
use crate::id::CgroupId;
use crate::id::SandboxId;
use crate::number;
use crate::text;

verus! {

/// The bytes that a session may move.
pub const DEFAULT_BYTE_BUDGET: u64 = 104857600;

/// What is known of a session.
#[derive(Debug, Clone, Copy)]
pub struct SessionState {
    pub sandbox_id: SandboxId,
    /// The cgroup that the session was issued for, if one was given.
    pub bound_cgroup: Option<CgroupId>,
    pub byte_budget: u64,
    pub bytes_used: u64,
}

/// The sessions of all sandboxes.
pub struct Broker {
    pub sessions: StringHashMap<SessionState>,
}

/// What an unknown token is answered.
pub open spec fn unknown_session(token: Seq<char>) -> ErrorModel {
    ErrorModel::PolicyInvalid("unknown broker session: "@ + token)
}

/// `a` and `b` together, or the greatest number where they are more.
pub open spec fn saturating_sum(a: u64, b: u64) -> u64 {
    if a + b > u64::MAX {
        u64::MAX
    } else {
        (a + b) as u64
    }
}

/// What bytes that a session may not move any more are answered; nothing where it may.
pub open spec fn charge_refusal(sessions: Map<Seq<char>, SessionState>, token: Seq<char>, n: u64) -> Option<ErrorModel> {
    if !sessions.dom().contains(token) {
        Some(unknown_session(token))
    } else {
        let s = sessions[token];
        let total = saturating_sum(s.bytes_used, n);
        if total > s.byte_budget {
            Some(
                ErrorModel::PolicyInvalid(
                    "broker session "@ + token + " exceeded byte budget ("@ + number::decimal(total as nat) + " > "@
                        + number::decimal(s.byte_budget as nat) + ")"@,
                ),
            )
        } else {
            None
        }
    }
}

/// The sessions after bytes were charged.
pub open spec fn charged(sessions: Map<Seq<char>, SessionState>, token: Seq<char>, n: u64) -> Map<
    Seq<char>,
    SessionState,
> {
    if charge_refusal(sessions, token, n) is Some {
        sessions
    } else {
        let s = sessions[token];
        sessions.insert(token, SessionState { bytes_used: saturating_sum(s.bytes_used, n), ..s })
    }
}

/// What a session has left.
pub open spec fn budget_left(sessions: Map<Seq<char>, SessionState>, token: Seq<char>) -> Option<u64> {
    if sessions.dom().contains(token) {
        let s = sessions[token];
        Some(
            if s.bytes_used > s.byte_budget {
                0
            } else {
                (s.byte_budget - s.bytes_used) as u64
            },
        )
    } else {
        None
    }
}

/// Whether no session has moved more than it may. A budget stays below the greatest number, so that
/// what is counted can always be told from what is too much.
pub open spec fn within_budget(sessions: Map<Seq<char>, SessionState>) -> bool {
    forall|token: Seq<char>| #[trigger]
        sessions.dom().contains(token) ==> sessions[token].bytes_used <= sessions[token].byte_budget < u64::MAX
}

/// Whether a text is a token that the broker makes: its prefix and a UUID of version 7.
pub open spec fn is_token(token: Seq<char>) -> bool {
    exists|id: SandboxId|
        token == "aiv-ses-"@ + #[trigger] id.shown() && id.key()[6] as int / 16 == 7
}

impl Default for Broker {
    fn default() -> (r: Self)
        ensures
            r.wf(),
            r.sessions@ == Map::<Seq<char>, SessionState>::empty(),
    {
        Broker::new()
    }
}

impl Broker {
    /// What holds of a broker at all times: no session has moved more than it may.
    pub open spec fn wf(&self) -> bool {
        within_budget(self.sessions@)
    }

    /// A broker without sessions.
    pub fn new() -> (r: Self)
        ensures
            r.wf(),
            r.sessions@ == Map::<Seq<char>, SessionState>::empty(),
    {
        Broker { sessions: StringHashMap::new() }
    }

    /// Opens a session under a token, with the usual budget and nothing used.
    pub fn open_session(&mut self, token: &str, sandbox_id: SandboxId, bound_cgroup: Option<CgroupId>)
        ensures
            old(self).wf() ==> final(self).wf(),
            final(self).sessions@ == old(self).sessions@.insert(
                token@,
                (SessionState { sandbox_id, bound_cgroup, byte_budget: DEFAULT_BYTE_BUDGET, bytes_used: 0 }),
            ),
    {
        self.sessions.insert(
            token.to_owned(),
            SessionState { sandbox_id, bound_cgroup, byte_budget: DEFAULT_BYTE_BUDGET, bytes_used: 0 },
        );
    }

    /// Issues a session that is bound to no cgroup.
    pub fn issue_session(&mut self, sandbox_id: SandboxId) -> (r: Result<String, Error>)
        ensures
            old(self).wf() ==> final(self).wf(),
            r matches Ok(token) && is_token(token@) && final(self).sessions@ == old(self).sessions@.insert(
                token@,
                (SessionState {
                    sandbox_id,
                    bound_cgroup: None,
                    byte_budget: DEFAULT_BYTE_BUDGET,
                    bytes_used: 0,
                }),
            ),
    {
        self.issue_session_bound(sandbox_id, None)
    }

    /// Issues a session for the sandbox in a cgroup: a token that nobody else has, and the
    /// session under it.
    pub fn issue_session_bound(&mut self, sandbox_id: SandboxId, bound_cgroup: Option<CgroupId>) -> (r: Result<
        String,
        Error,
    >)
        ensures
            old(self).wf() ==> final(self).wf(),
            r matches Ok(token) && is_token(token@) && final(self).sessions@ == old(self).sessions@.insert(
                token@,
                (SessionState { sandbox_id, bound_cgroup, byte_budget: DEFAULT_BYTE_BUDGET, bytes_used: 0 }),
            ),
    {
        let unique = SandboxId::new();
        let mut token = "aiv-ses-".to_owned();
        token.append(unique.to_string().as_str());
        self.open_session(token.as_str(), sandbox_id, bound_cgroup);
        proof {
            assert(token@ == "aiv-ses-"@ + unique.shown());
        }
        Ok(token)
    }

    /// Ends a session. One that does not exist has ended.
    pub fn revoke_session(&mut self, token: &str) -> (r: Result<(), Error>)
        ensures
            r is Ok,
            old(self).wf() ==> final(self).wf(),
            final(self).sessions@ == old(self).sessions@.remove(token@),
    {
        self.sessions.remove(token);
        Ok(())
    }

    /// Charges bytes to a session. What an unknown session moves, or one that has not enough
    /// left, is refused and not charged.
    pub fn record_bytes(&mut self, token: &str, n: u64) -> (r: Result<(), Error>)
        ensures
            r is Ok <==> charge_refusal(old(self).sessions@, token@, n) is None,
            r matches Err(e) ==> Some(e@) == charge_refusal(old(self).sessions@, token@, n),
            final(self).sessions@ == charged(old(self).sessions@, token@, n),
            old(self).wf() ==> final(self).wf(),
    {
        let session = match self.sessions.get(token) {
            Some(s) => *s,
            None => {
                let mut m = "unknown broker session: ".to_owned();
                m.append(token);
                return Err(Error::PolicyInvalid(m));
            },
        };
        let total: u64 = session.bytes_used.saturating_add(n);
        if total > session.byte_budget {
            let mut m = text::cat5(
                "broker session ",
                token,
                " exceeded byte budget (",
                number::format_u64(total).as_str(),
                " > ",
            );
            m.append(number::format_u64(session.byte_budget).as_str());
            m.append(")");
            return Err(Error::PolicyInvalid(m));
        }
        self.sessions.insert(
            token.to_owned(),
            SessionState {
                sandbox_id: session.sandbox_id,
                bound_cgroup: session.bound_cgroup,
                byte_budget: session.byte_budget,
                bytes_used: total,
            },
        );
        Ok(())
    }

    /// What a session has left, where there is such a session.
    pub fn remaining_budget(&self, token: &str) -> (r: Option<u64>)
        ensures
            r == budget_left(self.sessions@, token@),
    {
        match self.sessions.get(token) {
            Some(s) => Some(s.byte_budget.saturating_sub(s.bytes_used)),
            None => None,
        }
    }

    /// Whether a peer in a cgroup may use a session: only where the session was issued for that
    /// cgroup. A session that was issued for none cannot be verified.
    pub fn verify_peer_cgroup(&self, token: &str, peer_cgroup: CgroupId) -> (r: Result<(), Error>)
        ensures
            r is Ok <==> self.sessions@.dom().contains(token@) && self.sessions@[token@].bound_cgroup == Some(
                peer_cgroup,
            ),
            r matches Err(e) ==> e@ == (if !self.sessions@.dom().contains(token@) {
                unknown_session(token@)
            } else if self.sessions@[token@].bound_cgroup is Some {
                ErrorModel::PolicyInvalid(
                    "broker session "@ + token@
                        + ": peer cgroup does not match the cgroup it was issued for"@,
                )
            } else {
                ErrorModel::PolicyInvalid(
                    "broker session "@ + token@ + " was never bound to a cgroup — cannot verify peer"@,
                )
            }),
    {
        match self.sessions.get(token) {
            None => {
                let mut m = "unknown broker session: ".to_owned();
                m.append(token);
                Err(Error::PolicyInvalid(m))
            },
            Some(s) => match s.bound_cgroup {
                Some(expected) => if expected.0 == peer_cgroup.0 {
                    Ok(())
                } else {
                    Err(
                        Error::PolicyInvalid(
                            text::cat3(
                                "broker session ",
                                token,
                                ": peer cgroup does not match the cgroup it was issued for",
                            ),
                        ),
                    )
                },
                None => Err(
                    Error::PolicyInvalid(
                        text::cat3(
                            "broker session ",
                            token,
                            " was never bound to a cgroup — cannot verify peer",
                        ),
                    ),
                ),
            },
        }
    }

    /// How many sessions there are, under `active_sessions`.
    pub fn stats(&self) -> (r: StringHashMap<u64>)
        ensures
            r@ == Map::<Seq<char>, u64>::empty().insert("active_sessions"@, self.sessions@.len() as u64),
    {
        let mut stats: StringHashMap<u64> = StringHashMap::new();
        stats.insert("active_sessions".to_owned(), self.sessions.len() as u64);
        stats
    }

    /// Listening is not part of the broker.
    pub fn serve(&self, listen_addr: &str) -> (r: Result<(), Error>)
        ensures
            r matches Err(e) && e@ == ErrorModel::Unsupported(
                "broker HTTP(S) proxy listener not implemented in this build"@,
            ),
    {
        Err(Error::Unsupported("broker HTTP(S) proxy listener not implemented in this build".to_owned()))
    }
}

/// What follows `0::` in the first line that starts with it.
pub open spec fn v2_entry(lines: Seq<Seq<char>>) -> Option<Seq<char>>
    decreases lines.len(),
{
    if lines.len() == 0 {
        None
    } else if "0::"@.is_prefix_of(lines[0]) {
        Some(lines[0].skip("0::"@.len() as int))
    } else {
        v2_entry(lines.skip(1))
    }
}

/// The directory of the cgroup that a `/proc/<pid>/cgroup` text names.
pub fn cgroup_path_from_proc_cgroup(content: &str, pid: i32) -> (r: Result<String, Error>)
    ensures
        match v2_entry(text::lines_of(content@)) {
            Some(path) => r matches Ok(p) && p@ == "/sys/fs/cgroup"@ + path,
            None => r matches Err(e) && e@ == ErrorModel::PolicyInvalid(
                "no cgroup v2 (0::) entry in /proc/"@ + number::signed_decimal(pid as int)
                    + "/cgroup — is this a cgroup v1 host?"@,
            ),
        },
{
    let lines = text::lines(content);
    let ghost all = text::texts(lines@);
    let mut i: usize = 0;
    proof {
        assert(all.skip(0) =~= all);
    }
    while i < lines.len()
        invariant
            i <= lines@.len(),
            all == text::texts(lines@),
            all == text::lines_of(content@),
            v2_entry(all) == v2_entry(all.skip(i as int)),
        decreases lines@.len() - i,
    {
        let ghost rest = all.skip(i as int);
        proof {
            assert(rest[0] == lines@[i as int]@);
            assert(rest.skip(1) =~= all.skip(i + 1));
        }
        if let Some(path) = text::strip_prefix(lines[i].as_str(), "0::") {
            let mut full = "/sys/fs/cgroup".to_owned();
            full.append(path.as_str());
            return Ok(full);
        }
        i = i + 1;
    }
    Err(
        Error::PolicyInvalid(
            text::cat3(
                "no cgroup v2 (0::) entry in /proc/",
                number::format_i64(pid as i64).as_str(),
                "/cgroup — is this a cgroup v1 host?",
            ),
        ),
    )
}

/// The cgroup that a `/proc/<pid>/cgroup` text names, given what looking its directory up gave.
pub fn cgroup_id_from_proc_cgroup(content: &str, pid: i32, inode: Result<u64, String>) -> (r: Result<
    CgroupId,
    Error,
>)
    ensures
        match v2_entry(text::lines_of(content@)) {
            Some(path) => match inode {
                Ok(n) => r == Ok::<CgroupId, Error>(CgroupId(n)),
                Err(m) => r matches Err(e) && e@ == ErrorModel::PolicyInvalid(
                    "stat /sys/fs/cgroup"@ + path + ": "@ + m@,
                ),
            },
            None => r matches Err(e) && e@ == ErrorModel::PolicyInvalid(
                "no cgroup v2 (0::) entry in /proc/"@ + number::signed_decimal(pid as int)
                    + "/cgroup — is this a cgroup v1 host?"@,
            ),
        },
{
    match cgroup_path_from_proc_cgroup(content, pid) {
        Err(e) => Err(e),
        Ok(path) => match inode {
            Ok(n) => Ok(CgroupId(n)),
            Err(m) => {
                let mut t = text::cat3("stat ", path.as_str(), ": ");
                t.append(m.as_str());
                proof {
                    reveal_strlit("stat ");
                    reveal_strlit("/sys/fs/cgroup");
                    reveal_strlit("stat /sys/fs/cgroup");
                    let entry = v2_entry(text::lines_of(content@))->0;
                    assert(t@ =~= "stat /sys/fs/cgroup"@ + entry + ": "@ + m@);
                }
                Err(Error::PolicyInvalid(t))
            },
        },
    }
}

/// A session that is issued starts with all of its budget, and leaves every other session as it
/// was.
pub proof fn new_session_has_its_budget(
    sessions: Map<Seq<char>, SessionState>,
    token: Seq<char>,
    sandbox_id: SandboxId,
    bound: Option<CgroupId>,
    other: Seq<char>,
)
    ensures
        ({
            let after = sessions.insert(
                token,
                SessionState {
                    sandbox_id,
                    bound_cgroup: bound,
                    byte_budget: DEFAULT_BYTE_BUDGET,
                    bytes_used: 0,
                },
            );
            &&& budget_left(after, token) == Some(DEFAULT_BYTE_BUDGET)
            &&& other != token ==> budget_left(after, other) == budget_left(sessions, other)
        }),
{
}

/// A charge that is accepted comes off what was left, and no charge is accepted that is more than
/// was left; one that is refused leaves everything as it was. No other session is touched.
pub proof fn charge_comes_off_the_budget(
    sessions: Map<Seq<char>, SessionState>,
    token: Seq<char>,
    n: u64,
    other: Seq<char>,
)
    requires
        within_budget(sessions),
    ensures
        ({
            let after = charged(sessions, token, n);
            let left = budget_left(sessions, token);
            &&& charge_refusal(sessions, token, n) is None <==> left is Some && n <= left->0
            &&& charge_refusal(sessions, token, n) is None ==> budget_left(after, token) == Some((left->0 - n) as u64)
            &&& charge_refusal(sessions, token, n) is Some ==> after == sessions
            &&& other != token ==> budget_left(after, other) == budget_left(sessions, other)
            &&& within_budget(after)
        }),
{
}

/// A session whose budget is spent moves nothing more.
pub proof fn spent_session_moves_nothing(sessions: Map<Seq<char>, SessionState>, token: Seq<char>, n: u64)
    requires
        within_budget(sessions),
        budget_left(sessions, token) == Some(0u64),
        n > 0,
    ensures
        charge_refusal(sessions, token, n) is Some,
{
}

/// After a session is revoked its token is unknown.
pub proof fn revoked_session_is_unknown(sessions: Map<Seq<char>, SessionState>, token: Seq<char>, n: u64)
    ensures
        budget_left(sessions.remove(token), token) is None,
        charge_refusal(sessions.remove(token), token, n) == Some(unknown_session(token)),
{
}

} // verus!
