use aivisor::bpf::audit::{
    consumer_ready, consumer_step, start_consumer, AuditEvent, AuditStream, ConsumerState,
    EventDecision, EventKind, DEFAULT_CHANNEL_DEPTH,
};
use aivisor::error::Error;

fn raw_event(cgid: u64, kind: u32, decision: u32, errno: u32) -> [u8; 32] {
    let mut b = [0u8; 32];
    b[0..8].copy_from_slice(&cgid.to_ne_bytes());
    b[8..16].copy_from_slice(&123u64.to_ne_bytes());
    b[16..20].copy_from_slice(&42u32.to_ne_bytes());
    b[20..24].copy_from_slice(&kind.to_ne_bytes());
    b[24..28].copy_from_slice(&decision.to_ne_bytes());
    b[28..32].copy_from_slice(&errno.to_ne_bytes());
    b
}

fn stream(depth: usize) -> AuditStream {
    start_consumer(depth).unwrap()
}

#[test]
fn decodes_a_kernel_record() {
    let raw = raw_event(7, 1, 1, 1);
    let e = AuditEvent::from_bytes(&raw, 5, 0).unwrap();
    assert_eq!(e.cgid, 7);
    assert_eq!(e.ts_ns, 123);
    assert_eq!(e.pid, 42);
    assert_eq!(e.kind, EventKind::Exec);
    assert_eq!(e.decision, EventDecision::Deny);
    assert_eq!(e.errno, 1);
    assert_eq!(e.seq, 5);
}

#[test]
fn short_records_are_rejected_not_panicked_on() {
    assert!(AuditEvent::from_bytes(&[0u8; 8], 0, 0).is_none());
}

#[test]
fn unknown_kinds_and_decisions_are_preserved() {
    let raw = raw_event(1, 99, 98, 0);
    let e = AuditEvent::from_bytes(&raw, 0, 0).unwrap();
    assert_eq!(e.kind, EventKind::Unknown(99));
    assert_eq!(e.decision, EventDecision::Unknown(98));
    // An unrecognised decision must never be actioned as a kill.
    assert!(!e.decision.is_kill());
}

#[test]
fn only_the_kill_decision_is_a_kill() {
    assert!(EventDecision::Kill.is_kill());
    for d in [
        EventDecision::Allow,
        EventDecision::Deny,
        EventDecision::Notify,
    ] {
        assert!(!d.is_kill());
    }
}

#[test]
fn a_full_channel_drops_instead_of_blocking() {
    let mut s = stream(4);
    // Nobody is reading.
    for _ in 0..100 {
        s.offer(&raw_event(1, 0, 0, 0));
    }
    assert_eq!(s.dropped_count(), 96);
    assert_eq!(s.drain().len(), 4);
}

#[test]
fn drop_count_is_stamped_onto_the_next_delivered_event() {
    let mut s = stream(1);
    s.offer(&raw_event(1, 0, 0, 0)); // fills the channel
    s.offer(&raw_event(2, 0, 0, 0)); // dropped
    s.offer(&raw_event(3, 0, 0, 0)); // dropped

    let first = s.recv().unwrap();
    assert_eq!(first.dropped_count, 0);

    s.offer(&raw_event(4, 0, 0, 0)); // fits again
    let next = s.recv().unwrap();
    // The sink learns, in band, that two records are missing between these two events.
    assert_eq!(next.dropped_count, 2);
    assert_eq!(next.cgid, 4);
}

#[test]
fn sequence_numbers_are_assigned_to_decoded_events_only() {
    let mut s = stream(8);
    s.offer(&raw_event(1, 0, 0, 0));
    s.offer(&[0u8; 4]); // malformed: must not consume a seq
    s.offer(&raw_event(2, 0, 0, 0));

    let got = s.drain();
    assert_eq!(got.len(), 2);
    assert_eq!(got[0].seq, 0);
    assert_eq!(got[1].seq, 1);
    assert_eq!(s.malformed_count(), 1);
}

#[test]
fn every_kind_and_decision_has_its_number() {
    let kinds = [
        EventKind::FileOpen,
        EventKind::Exec,
        EventKind::Connect,
        EventKind::Mount,
        EventKind::PolicyDeny,
        EventKind::ResourcePressure,
        EventKind::Lifecycle,
        EventKind::BrokerCall,
    ];
    for (i, k) in kinds.iter().enumerate() {
        assert_eq!(EventKind::from_raw(i as u32), *k);
    }
    assert_eq!(EventKind::from_raw(8), EventKind::Unknown(8));
    let decisions = [
        EventDecision::Allow,
        EventDecision::Deny,
        EventDecision::Notify,
        EventDecision::Kill,
    ];
    for (i, d) in decisions.iter().enumerate() {
        assert_eq!(EventDecision::from_raw(i as u32), *d);
    }
    assert_eq!(EventDecision::from_raw(4), EventDecision::Unknown(4));
}

#[test]
fn a_record_decodes_from_a_longer_buffer() {
    let mut raw = raw_event(9, 7, 3, 13).to_vec();
    raw.extend_from_slice(&[0xff; 9]);
    let e = AuditEvent::from_bytes(&raw, 1, 2).unwrap();
    assert_eq!(e.cgid, 9);
    assert_eq!(e.kind, EventKind::BrokerCall);
    assert!(e.decision.is_kill());
    assert_eq!(e.errno, 13);
    assert_eq!(e.dropped_count, 2);
    assert!(AuditEvent::from_bytes(&raw[..31], 0, 0).is_none());
}

#[test]
fn numbers_tell_how_much_is_missing() {
    let mut s = stream(1);
    for cgid in 1..=5 {
        s.offer(&raw_event(cgid, 0, 0, 0));
    }
    let first = s.recv().unwrap();
    s.offer(&raw_event(6, 0, 0, 0));
    let next = s.recv().unwrap();
    assert_eq!(first.seq, 0);
    assert_eq!(next.seq, 5);
    // Numbers that are missing between two delivered events were all counted as dropped.
    assert_eq!(next.seq - first.seq - 1, next.dropped_count - first.dropped_count);
    assert_eq!(s.recv(), None);
}

#[test]
fn a_stopped_stream_no_longer_runs() {
    let mut s = stream(DEFAULT_CHANNEL_DEPTH);
    assert!(s.is_running());
    s.stop();
    assert!(!s.is_running());
}

#[test]
fn a_channel_without_room_is_refused() {
    match start_consumer(0) {
        Err(Error::PolicyInvalid(m)) => assert!(m.contains("audit channel depth must be non-zero"), "{m}"),
        Err(e) => panic!("{}", e.to_string()),
        Ok(_) => panic!("a channel that holds nothing loses everything"),
    }
}

#[test]
fn the_consumer_attaches_then_polls_until_it_is_told_to_stop() {
    let s = consumer_step(ConsumerState::Attach, Ok(()), false);
    assert_eq!(s.next, ConsumerState::Build);
    assert!(s.report.is_none());
    let s = consumer_step(ConsumerState::Build, Ok(()), false);
    assert_eq!(s.next, ConsumerState::Announce);
    assert!(matches!(s.report, Some(Ok(()))));
    assert_eq!(consumer_step(ConsumerState::Announce, Ok(()), false).next, ConsumerState::Poll);
    assert_eq!(consumer_step(ConsumerState::Announce, Ok(()), true).next, ConsumerState::Sweep);
    let s = consumer_step(ConsumerState::Poll, Ok(()), false);
    assert_eq!(s.next, ConsumerState::Poll);
    // A failed poll does not end it.
    let s = consumer_step(ConsumerState::Poll, Err("again".to_string()), false);
    assert_eq!(s.next, ConsumerState::Poll);
    assert_eq!(consumer_step(ConsumerState::Poll, Ok(()), true).next, ConsumerState::Sweep);
    let s = consumer_step(ConsumerState::Sweep, Ok(()), true);
    assert_eq!(s.next, ConsumerState::Done);
    assert!(s.stop);
    let s = consumer_step(ConsumerState::Attach, Err("gone".to_string()), false);
    assert_eq!(s.next, ConsumerState::Done);
    assert_eq!(s.report, Some(Err("attach to audit ring buffer: gone".to_string())));
    let s = consumer_step(ConsumerState::Build, Err("gone".to_string()), false);
    assert_eq!(s.report, Some(Err("build audit ring buffer: gone".to_string())));
    assert!(consumer_ready(Some(Ok(()))).is_ok());
    assert!(consumer_ready(Some(Err("gone".to_string()))).is_err());
    assert!(consumer_ready(None).is_err());
}

#[test]
fn without_a_reader_every_event_is_dropped() {
    let mut s = stream(4);
    s.offer(&raw_event(1, 0, 0, 0));
    s.detach();
    assert!(s.is_running());
    s.offer(&raw_event(2, 0, 0, 0));
    s.offer(&raw_event(3, 0, 0, 0));
    assert_eq!(s.dropped_count(), 2);
    assert_eq!(s.drain().len(), 1);
}
