//! Audit events: what the kernel's records mean, and the bounded hand-off to whoever reads them.
//!
//! A record that finds the hand-off full is dropped and counted. Nothing ever waits for a slow
//! reader.
use std::collections::VecDeque;

use vstd::prelude::*;

use crate::error::Error;
use crate::error::ErrorModel;
use crate::wire;

verus! {

/// The usual depth of the hand-off.
pub const DEFAULT_CHANNEL_DEPTH: usize = 65536;

/// What an event is about.
#[derive(Debug, Clone, Copy, PartialEq, Eq, Structural)]
pub enum EventKind {
    FileOpen,
    Exec,
    Connect,
    Mount,
    PolicyDeny,
    ResourcePressure,
    Lifecycle,
    BrokerCall,
    /// A number that this build does not know. It is kept: it is evidence too.
    Unknown(u32),
}

impl EventKind {
    /// The kind with a number.
    pub open spec fn of(v: u32) -> EventKind {
        if v == 0 {
            EventKind::FileOpen
        } else if v == 1 {
            EventKind::Exec
        } else if v == 2 {
            EventKind::Connect
        } else if v == 3 {
            EventKind::Mount
        } else if v == 4 {
            EventKind::PolicyDeny
        } else if v == 5 {
            EventKind::ResourcePressure
        } else if v == 6 {
            EventKind::Lifecycle
        } else if v == 7 {
            EventKind::BrokerCall
        } else {
            EventKind::Unknown(v)
        }
    }

    /// The kind with a number.
    pub fn from_raw(v: u32) -> (r: Self)
        ensures
            r == EventKind::of(v),
    {
        match v {
            0 => EventKind::FileOpen,
            1 => EventKind::Exec,
            2 => EventKind::Connect,
            3 => EventKind::Mount,
            4 => EventKind::PolicyDeny,
            5 => EventKind::ResourcePressure,
            6 => EventKind::Lifecycle,
            7 => EventKind::BrokerCall,
            other => EventKind::Unknown(other),
        }
    }
}

/// What a hook decided.
#[derive(Debug, Clone, Copy, PartialEq, Eq, Structural)]
pub enum EventDecision {
    Allow,
    Deny,
    Notify,
    Kill,
    /// A number that this build does not know.
    Unknown(u32),
}

impl EventDecision {
    /// The decision with a number.
    pub open spec fn of(v: u32) -> EventDecision {
        if v == 0 {
            EventDecision::Allow
        } else if v == 1 {
            EventDecision::Deny
        } else if v == 2 {
            EventDecision::Notify
        } else if v == 3 {
            EventDecision::Kill
        } else {
            EventDecision::Unknown(v)
        }
    }

    /// The decision with a number.
    pub fn from_raw(v: u32) -> (r: Self)
        ensures
            r == EventDecision::of(v),
    {
        match v {
            0 => EventDecision::Allow,
            1 => EventDecision::Deny,
            2 => EventDecision::Notify,
            3 => EventDecision::Kill,
            other => EventDecision::Unknown(other),
        }
    }

    /// Whether the sandbox is to be torn down. An unknown decision is no kill.
    pub fn is_kill(self) -> (r: bool)
        ensures
            r == (self == EventDecision::Kill),
    {
        match self {
            EventDecision::Kill => true,
            _ => false,
        }
    }
}

/// An audit event.
#[derive(Debug, Clone, Copy, PartialEq, Eq, Structural)]
pub struct AuditEvent {
    /// The cgroup that the event belongs to.
    pub cgid: u64,
    /// Nanoseconds of the monotonic clock.
    pub ts_ns: u64,
    pub pid: u32,
    pub kind: EventKind,
    pub decision: EventDecision,
    /// The error number that the hook returned, or zero.
    pub errno: u32,
    /// The event's number in its stream.
    pub seq: u64,
    /// How many events were dropped before this one was handed off.
    pub dropped_count: u64,
}

/// The event that a record holds, with its number and the drops before it.
pub open spec fn event_in(b: Seq<u8>, seq: u64, dropped_count: u64) -> AuditEvent {
    AuditEvent {
        cgid: wire::u64_value(b.subrange(0, 8)),
        ts_ns: wire::u64_value(b.subrange(8, 16)),
        pid: wire::u32_value(b.subrange(16, 20)),
        kind: EventKind::of(wire::u32_value(b.subrange(20, 24))),
        decision: EventDecision::of(wire::u32_value(b.subrange(24, 28))),
        errno: wire::u32_value(b.subrange(28, 32)),
        seq,
        dropped_count,
    }
}

impl AuditEvent {
    /// The size of a record.
    pub const WIRE_SIZE: usize = 32;

    /// The event that a record holds; none where the record is too short.
    pub fn from_bytes(b: &[u8], seq: u64, dropped_count: u64) -> (r: Option<Self>)
        ensures
            r == (if b@.len() < 32 {
                None
            } else {
                Some(event_in(b@, seq, dropped_count))
            }),
    {
        if b.len() < 32 {
            return None;
        }
        Some(
            AuditEvent {
                cgid: wire::u64_at(b, 0),
                ts_ns: wire::u64_at(b, 8),
                pid: wire::u32_at(b, 16),
                kind: EventKind::from_raw(wire::u32_at(b, 20)),
                decision: EventDecision::from_raw(wire::u32_at(b, 24)),
                errno: wire::u32_at(b, 28),
                seq,
                dropped_count,
            },
        )
    }
}

/// The hand-off between the ring buffer's consumer and a reader: what is queued, and the counts
/// of what did not get through.
pub struct AuditStream {
    pub depth: usize,
    pub queue: VecDeque<AuditEvent>,
    /// The number of the next event.
    pub seq: u64,
    pub dropped: u64,
    pub malformed: u64,
    /// Whether the reader is gone.
    pub detached: bool,
    pub shutdown: bool,
}

/// `n` and one more; the greatest number is followed by zero.
pub open spec fn bumped(n: u64) -> u64 {
    if n == u64::MAX {
        0
    } else {
        (n + 1) as u64
    }
}

/// A stream as plain values.
#[verifier::ext_equal]
pub struct StreamModel {
    pub depth: nat,
    pub queue: Seq<AuditEvent>,
    pub seq: u64,
    pub dropped: u64,
    pub malformed: u64,
    pub detached: bool,
    pub shutdown: bool,
}

impl View for AuditStream {
    type V = StreamModel;

    open spec fn view(&self) -> StreamModel {
        StreamModel {
            depth: self.depth as nat,
            queue: self.queue@,
            seq: self.seq,
            dropped: self.dropped,
            malformed: self.malformed,
            detached: self.detached,
            shutdown: self.shutdown,
        }
    }
}

/// A stream to which a record was handed: one that cannot be read is counted and gets no number;
/// one that finds no room, or no reader, is counted as dropped.
pub open spec fn offered(m: StreamModel, raw: Seq<u8>) -> StreamModel {
    if raw.len() < 32 {
        StreamModel { malformed: bumped(m.malformed), ..m }
    } else if m.detached || m.queue.len() >= m.depth {
        StreamModel { seq: bumped(m.seq), dropped: bumped(m.dropped), ..m }
    } else {
        StreamModel { seq: bumped(m.seq), queue: m.queue.push(event_in(raw, m.seq, m.dropped)), ..m }
    }
}

/// A stream to which records were handed, one after the other.
pub open spec fn offered_all(m: StreamModel, records: Seq<Seq<u8>>) -> StreamModel
    decreases records.len(),
{
    if records.len() == 0 {
        m
    } else {
        offered(offered_all(m, records.drop_last()), records.last())
    }
}

impl AuditStream {
    /// Whether no more is queued than the depth allows.
    pub open spec fn wf(&self) -> bool {
        self.queue@.len() <= self.depth
    }

    /// Hands a record off, if it can be read and there is room.
    pub fn offer(&mut self, raw: &[u8])
        requires
            old(self).wf(),
            old(self).seq < u64::MAX,
        ensures
            final(self).wf(),
            final(self)@ == offered(old(self)@, raw@),
    {
        let event = match AuditEvent::from_bytes(raw, self.seq, self.dropped) {
            Some(e) => e,
            None => {
                self.malformed = self.malformed.wrapping_add(1);
                return;
            },
        };
        self.seq = self.seq + 1;
        if !self.detached && self.queue.len() < self.depth {
            self.queue.push_back(event);
        } else {
            self.dropped = self.dropped.wrapping_add(1);
        }
    }

    /// Takes the next event, if one is queued.
    pub fn recv(&mut self) -> (r: Option<AuditEvent>)
        requires
            old(self).wf(),
        ensures
            final(self).wf(),
            old(self).queue@.len() == 0 ==> r is None && final(self)@ == old(self)@,
            old(self).queue@.len() > 0 ==> r == Some(old(self).queue@[0]) && final(self)@ == (StreamModel {
                queue: old(self).queue@.skip(1),
                ..old(self)@
            }),
    {
        let r = self.queue.pop_front();
        proof {
            if old(self).queue@.len() > 0 {
                assert(self.queue@ =~= old(self).queue@.skip(1));
            }
        }
        r
    }

    /// Takes all that is queued.
    pub fn drain(&mut self) -> (r: Vec<AuditEvent>)
        requires
            old(self).wf(),
        ensures
            final(self).wf(),
            r@ == old(self).queue@,
            final(self)@ == (StreamModel { queue: Seq::empty(), ..old(self)@ }),
    {
        let mut out: Vec<AuditEvent> = Vec::new();
        let ghost all = self.queue@;
        proof {
            assert(all.skip(0) =~= all);
            assert(all.take(0) =~= out@);
        }
        while self.queue.len() > 0
            invariant
                self.wf(),
                all == old(self).queue@,
                out@.len() <= all.len(),
                out@ == all.take(out@.len() as int),
                self@ == (StreamModel { queue: all.skip(out@.len() as int), ..old(self)@ }),
            decreases self.queue@.len(),
        {
            let ghost n = out@.len() as int;
            proof {
                assert(self.queue@ == all.skip(n));
            }
            if let Some(e) = self.recv() {
                out.push(e);
            }
            proof {
                assert(all.skip(n)[0] == all[n]);
                assert(all.take(n + 1) =~= all.take(n).push(all[n]));
                assert(all.skip(n).skip(1) =~= all.skip(n + 1));
            }
        }
        proof {
            assert(self.queue@ == all.skip(out@.len() as int));
            assert(all.take(out@.len() as int) =~= all);
            assert(self.queue@ =~= Seq::<AuditEvent>::empty());
        }
        out
    }

    /// How many events were dropped.
    pub fn dropped_count(&self) -> (r: u64)
        ensures
            r == self.dropped,
    {
        self.dropped
    }

    /// How many records could not be read.
    pub fn malformed_count(&self) -> (r: u64)
        ensures
            r == self.malformed,
    {
        self.malformed
    }

    /// Whether the consumer has not been told to stop.
    pub fn is_running(&self) -> (r: bool)
        ensures
            r == !self.shutdown,
    {
        !self.shutdown
    }

    /// The reader goes: from now on every event is dropped.
    pub fn detach(&mut self)
        ensures
            final(self)@ == (StreamModel { detached: true, ..old(self)@ }),
    {
        self.detached = true;
    }

    /// Tells the consumer to stop. What is queued stays.
    pub fn stop(&mut self)
        ensures
            final(self)@ == (StreamModel { shutdown: true, ..old(self)@ }),
    {
        self.shutdown = true;
    }
}

/// A hand-off of a given depth, with nothing in it. A depth of zero is refused: nearly every
/// event would be dropped.
pub fn start_consumer(channel_depth: usize) -> (r: Result<AuditStream, Error>)
    ensures
        r is Err <==> channel_depth == 0,
        r matches Err(e) ==> e@ == ErrorModel::PolicyInvalid(
            "audit channel depth must be non-zero — a rendezvous channel would drop every event whose receiver was not already parked in recv()"@,
        ),
        r matches Ok(s) ==> s.wf() && s.depth == channel_depth && s.queue@.len() == 0 && s.seq == 0 && s.dropped == 0
            && s.malformed == 0 && !s.detached && !s.shutdown,
{
    if channel_depth == 0 {
        return Err(
            Error::PolicyInvalid(
                "audit channel depth must be non-zero — a rendezvous channel would drop every event whose receiver was not already parked in recv()".to_owned(),
            ),
        );
    }
    Ok(
        AuditStream {
            depth: channel_depth,
            queue: VecDeque::new(),
            seq: 0,
            dropped: 0,
            malformed: 0,
            detached: false,
            shutdown: false,
        },
    )
}

/// Where the consumer stands.
#[derive(Debug, Clone, Copy, PartialEq, Eq, Structural)]
pub enum ConsumerState {
    /// It attaches to the ring buffer's map.
    Attach,
    /// It builds the ring buffer.
    Build,
    /// It reports that it is ready.
    Announce,
    /// It polls.
    Poll,
    /// It takes what is left in the ring.
    Sweep,
    Done,
}

/// What the consumer does about the outcome of a step.
pub struct ConsumerStep {
    pub next: ConsumerState,
    /// What is reported to whoever started the consumer.
    pub report: Option<Result<(), String>>,
    /// Whether the stream is marked as stopped.
    pub stop: bool,
}

/// What follows a step of the consumer: a failure before it is ready is reported and ends it; a
/// failed poll does not; it leaves the loop when it is told to stop, and takes what is left.
pub fn consumer_step(state: ConsumerState, outcome: Result<(), String>, shutdown: bool) -> (r: ConsumerStep)
    ensures
        state == ConsumerState::Attach ==> match outcome {
            Ok(_) => r.next == ConsumerState::Build && r.report is None && !r.stop,
            Err(m) => r.next == ConsumerState::Done && r.stop && (r.report matches Some(Err(t)) && t@
                == "attach to audit ring buffer: "@ + m@),
        },
        state == ConsumerState::Build ==> match outcome {
            Ok(_) => r.next == ConsumerState::Announce && (r.report matches Some(Ok(_))) && !r.stop,
            Err(m) => r.next == ConsumerState::Done && r.stop && (r.report matches Some(Err(t)) && t@
                == "build audit ring buffer: "@ + m@),
        },
        state == ConsumerState::Announce ==> r.report is None && match outcome {
            Ok(_) => r.next == (if shutdown {
                ConsumerState::Sweep
            } else {
                ConsumerState::Poll
            }) && !r.stop,
            Err(_) => r.next == ConsumerState::Done && r.stop,
        },
        state == ConsumerState::Poll ==> r.report is None && !r.stop && r.next == (if shutdown {
            ConsumerState::Sweep
        } else {
            ConsumerState::Poll
        }),
        state == ConsumerState::Sweep || state == ConsumerState::Done ==> r.report is None && r.stop && r.next
            == ConsumerState::Done,
{
    let go_on = if shutdown {
        ConsumerState::Sweep
    } else {
        ConsumerState::Poll
    };
    match state {
        ConsumerState::Attach => match outcome {
            Ok(_) => ConsumerStep { next: ConsumerState::Build, report: None, stop: false },
            Err(m) => {
                let mut t = "attach to audit ring buffer: ".to_owned();
                t.append(m.as_str());
                ConsumerStep { next: ConsumerState::Done, report: Some(Err(t)), stop: true }
            },
        },
        ConsumerState::Build => match outcome {
            Ok(_) => ConsumerStep { next: ConsumerState::Announce, report: Some(Ok(())), stop: false },
            Err(m) => {
                let mut t = "build audit ring buffer: ".to_owned();
                t.append(m.as_str());
                ConsumerStep { next: ConsumerState::Done, report: Some(Err(t)), stop: true }
            },
        },
        ConsumerState::Announce => match outcome {
            Ok(_) => ConsumerStep { next: go_on, report: None, stop: false },
            Err(_) => ConsumerStep { next: ConsumerState::Done, report: None, stop: true },
        },
        ConsumerState::Poll => ConsumerStep { next: go_on, report: None, stop: false },
        ConsumerState::Sweep => ConsumerStep { next: ConsumerState::Done, report: None, stop: true },
        ConsumerState::Done => ConsumerStep { next: ConsumerState::Done, report: None, stop: true },
    }
}

/// What whoever started the consumer is told, from what it heard of it; nothing was heard where
/// the consumer ended first.
pub fn consumer_ready(heard: Option<Result<(), String>>) -> (r: Result<(), Error>)
    ensures
        r is Ok <==> heard matches Some(Ok(_)),
        heard matches Some(Err(m)) ==> (r matches Err(e) && e@ == ErrorModel::LaunchFailed(m@)),
        heard is None ==> (r matches Err(e) && e@ == ErrorModel::LaunchFailed(
            "audit consumer thread exited before signalling readiness"@,
        )),
{
    match heard {
        Some(Ok(_)) => Ok(()),
        Some(Err(m)) => Err(Error::LaunchFailed(m)),
        None => Err(
            Error::LaunchFailed("audit consumer thread exited before signalling readiness".to_owned()),
        ),
    }
}

/// No record is lost without a trace: of those that are handed to a stream each is queued,
/// counted as dropped or counted as unreadable, and there is never more queued than the depth.
pub proof fn every_record_is_accounted_for(m: StreamModel, records: Seq<Seq<u8>>)
    requires
        m.queue.len() <= m.depth,
        m.seq + records.len() <= u64::MAX,
        m.dropped + records.len() <= u64::MAX,
        m.malformed + records.len() <= u64::MAX,
    ensures
        ({
            let n = offered_all(m, records);
            &&& n.queue.len() <= n.depth
            &&& n.depth == m.depth && n.detached == m.detached
            &&& (n.queue.len() - m.queue.len()) + (n.dropped - m.dropped) + (n.malformed - m.malformed)
                == records.len()
            &&& m.queue.len() <= n.queue.len()
            &&& m.dropped <= n.dropped <= m.dropped + records.len()
            &&& m.malformed <= n.malformed <= m.malformed + records.len()
            &&& n.seq - m.seq == (n.queue.len() - m.queue.len()) + (n.dropped - m.dropped)
        }),
    decreases records.len(),
{
    if records.len() > 0 {
        every_record_is_accounted_for(m, records.drop_last());
    }
}

/// A reader learns of every loss from the events themselves: from one delivered event to the
/// next, the event number grows by one more than the count of drops does.
pub proof fn drops_are_told_in_band(m: StreamModel, records: Seq<Seq<u8>>, i: int)
    requires
        m.queue.len() <= m.depth,
        m.seq + records.len() <= u64::MAX,
        m.dropped + records.len() <= u64::MAX,
        m.malformed + records.len() <= u64::MAX,
        m.queue.len() <= i < offered_all(m, records).queue.len(),
    ensures
        ({
            let e = offered_all(m, records).queue[i];
            e.seq - e.dropped_count == (m.seq - m.dropped) + (i - m.queue.len())
        }),
    decreases records.len(),
{
    if records.len() > 0 {
        let front = records.drop_last();
        let before = offered_all(m, front);
        every_record_is_accounted_for(m, front);
        if i < before.queue.len() {
            drops_are_told_in_band(m, front, i);
        }
    }
}

/// A record that cannot be read uses up no number.
pub proof fn unreadable_records_take_no_number(m: StreamModel, raw: Seq<u8>)
    requires
        raw.len() < 32,
    ensures
        offered(m, raw).seq == m.seq,
        offered(m, raw).queue == m.queue,
{
}

} // verus!
