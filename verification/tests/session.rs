use latency_collector::filter::AllowedKeysFilter;
use latency_collector::histogram::LatencyCollector;
use latency_collector::oracle::record_lookup;
use latency_collector::records::{AccountKey, Record, SubRecord};
use latency_collector::session::{
    SessionAction, SessionEnd, SessionEvent, SessionPhase, StreamSession,
};
use latency_collector::sink::{BatchOutput, Sink};
use latency_collector::supervisor::{ConnectionSupervisor, SupervisorAction, SupervisorEvent};
use solana_entry::entry::Entry;
use solana_sdk::instruction::{AccountMeta, Instruction};
use solana_sdk::message::Message;
use solana_sdk::pubkey::Pubkey;
use solana_sdk::transaction::{Transaction, VersionedTransaction};

fn receiving() -> StreamSession {
    let mut session = StreamSession::new();
    let sink = Sink::SlotSummary;
    assert_eq!(session.step(&sink, SessionEvent::Connected), SessionAction::Subscribe);
    assert_eq!(session.step(&sink, SessionEvent::SubscriptionOpened), SessionAction::Pull);
    session
}

fn transaction(payer: u8, other: u8, program: u8) -> VersionedTransaction {
    let instruction = Instruction::new_with_bytes(
        Pubkey::new_from_array([program; 32]),
        &[0],
        vec![AccountMeta::new(Pubkey::new_from_array([other; 32]), false)],
    );
    let message = Message::new(&[instruction], Some(&Pubkey::new_from_array([payer; 32])));
    VersionedTransaction::from(Transaction::new_unsigned(message))
}

fn payload(entries: &Vec<Entry>) -> Vec<u8> {
    bincode::serialize(entries).unwrap()
}

fn two_entries() -> Vec<Entry> {
    vec![
        Entry {
            num_hashes: 3,
            hash: Default::default(),
            transactions: vec![transaction(1, 2, 3), transaction(4, 5, 6)],
        },
        Entry { num_hashes: 1, hash: Default::default(), transactions: vec![transaction(7, 8, 9)] },
    ]
}

fn message(slot: u64, entries: &Vec<Entry>) -> SessionEvent {
    SessionEvent::Message { slot, payload: payload(entries) }
}

fn key(byte: u8) -> AccountKey {
    AccountKey { bytes: [byte; 32] }
}

#[test]
fn a_session_starts_by_dialling() {
    let session = StreamSession::new();
    assert_eq!(session.phase(), SessionPhase::Connecting);
    assert!(!session.has_seen(0));
}

#[test]
fn a_session_walks_through_its_phases() {
    let sink = Sink::SlotSummary;
    let mut session = StreamSession::new();
    assert_eq!(session.step(&sink, SessionEvent::Connected), SessionAction::Subscribe);
    assert_eq!(session.phase(), SessionPhase::Subscribed);
    assert_eq!(session.step(&sink, SessionEvent::SubscriptionOpened), SessionAction::Pull);
    assert_eq!(session.phase(), SessionPhase::Receiving);
    assert_eq!(
        session.step(&sink, SessionEvent::StreamClosed),
        SessionAction::Finish(SessionEnd::Graceful)
    );
    assert_eq!(session.phase(), SessionPhase::Ended(SessionEnd::Graceful));
}

#[test]
fn a_failed_dial_ends_the_session() {
    let sink = Sink::LatencyMeasurement;
    let mut session = StreamSession::new();
    assert_eq!(
        session.step(&sink, SessionEvent::ConnectFailed),
        SessionAction::Finish(SessionEnd::Error)
    );
    assert_eq!(session.phase(), SessionPhase::Ended(SessionEnd::Error));
}

#[test]
fn a_refused_subscription_ends_the_session() {
    let sink = Sink::LatencyMeasurement;
    let mut session = StreamSession::new();
    session.step(&sink, SessionEvent::Connected);
    assert_eq!(
        session.step(&sink, SessionEvent::SubscriptionFailed),
        SessionAction::Finish(SessionEnd::Error)
    );
    assert_eq!(session.phase(), SessionPhase::Ended(SessionEnd::Error));
}

#[test]
fn a_stream_error_ends_the_session() {
    let sink = Sink::LatencyMeasurement;
    let mut session = receiving();
    assert_eq!(
        session.step(&sink, SessionEvent::StreamFailed),
        SessionAction::Finish(SessionEnd::Error)
    );
    assert_eq!(session.phase(), SessionPhase::Ended(SessionEnd::Error));
}

#[test]
fn events_out_of_place_are_ignored() {
    let sink = Sink::SlotSummary;
    let mut session = StreamSession::new();
    let early = [
        SessionEvent::SubscriptionOpened,
        SessionEvent::SubscriptionFailed,
        SessionEvent::StreamFailed,
        SessionEvent::StreamClosed,
        message(1, &two_entries()),
    ];
    for event in early {
        assert_eq!(session.step(&sink, event), SessionAction::Ignore);
        assert_eq!(session.phase(), SessionPhase::Connecting);
    }
    assert!(!session.has_seen(1));
    let mut over = receiving();
    over.step(&sink, SessionEvent::StreamClosed);
    let late = [
        SessionEvent::Connected,
        SessionEvent::ConnectFailed,
        SessionEvent::StreamFailed,
        message(1, &two_entries()),
    ];
    for event in late {
        assert_eq!(over.step(&sink, event), SessionAction::Ignore);
        assert_eq!(over.phase(), SessionPhase::Ended(SessionEnd::Graceful));
    }
}

#[test]
fn summary_counts_records_and_transactions() {
    let sink = Sink::SlotSummary;
    let mut session = receiving();
    assert_eq!(
        session.step(&sink, message(77, &two_entries())),
        SessionAction::Emit(BatchOutput::Summary { slot: 77, records: 2, transactions: 3 })
    );
    assert_eq!(
        session.step(&sink, message(77, &two_entries())),
        SessionAction::Emit(BatchOutput::Summary { slot: 77, records: 2, transactions: 3 })
    );
    assert_eq!(
        session.step(&sink, message(78, &Vec::new())),
        SessionAction::Emit(BatchOutput::Summary { slot: 78, records: 0, transactions: 0 })
    );
    assert_eq!(session.phase(), SessionPhase::Receiving);
}

#[test]
fn a_payload_that_does_not_decode_is_skipped() {
    let sink = Sink::LatencyMeasurement;
    let mut session = receiving();
    let action = session.step(&sink, SessionEvent::Message { slot: 5, payload: vec![1, 2, 3] });
    assert!(matches!(action, SessionAction::SkipBatch { slot: 5, .. }));
    assert_eq!(session.phase(), SessionPhase::Receiving);
    assert!(!session.has_seen(5));
    assert_eq!(
        session.step(&sink, message(5, &two_entries())),
        SessionAction::Emit(BatchOutput::Measure { slot: 5 })
    );
    assert!(session.has_seen(5));
}

fn texts(entries: &Vec<Entry>, places: &[(usize, usize)]) -> Vec<String> {
    places.iter().map(|(e, t)| format!("{:?}", entries[*e].transactions[*t])).collect()
}

fn shown(entries: &Vec<Entry>, places: &[(usize, usize)]) -> SessionAction {
    SessionAction::Emit(BatchOutput::Transactions {
        places: places.to_vec(),
        rendered: texts(entries, places),
    })
}

#[test]
fn decoding_keeps_keys_and_text() {
    let entries = two_entries();
    let filter = AllowedKeysFilter::new(Some(vec![key(5), key(9)]));
    let sink = Sink::TransactionFilter(filter);
    let mut session = receiving();
    let action = session.step(&sink, message(1, &entries));
    assert_eq!(action, shown(&entries, &[(0, 1), (1, 0)]));
    if let SessionAction::Emit(BatchOutput::Transactions { rendered, .. }) = action {
        assert_eq!(rendered.len(), 2);
        assert!(rendered[0].contains("VersionedTransaction"));
        assert_ne!(rendered[0], rendered[1]);
    }
    let none = Sink::TransactionFilter(AllowedKeysFilter::new(Some(vec![key(10)])));
    assert_eq!(session.step(&none, message(2, &entries)), shown(&entries, &[]));
    let all = Sink::TransactionFilter(AllowedKeysFilter::new(None));
    assert_eq!(
        session.step(&all, message(3, &entries)),
        shown(&entries, &[(0, 0), (0, 1), (1, 0)])
    );
}

#[test]
fn decoding_keeps_the_order_of_the_keys() {
    let entries = vec![Entry {
        num_hashes: 0,
        hash: Default::default(),
        transactions: vec![transaction(1, 2, 3)],
    }];
    let mut session = receiving();
    for (byte, places) in [(1u8, vec![(0, 0)]), (2, vec![(0, 0)]), (3, vec![(0, 0)]), (4, vec![])]
    {
        let sink = Sink::TransactionFilter(AllowedKeysFilter::new(Some(vec![key(byte)])));
        assert_eq!(session.step(&sink, message(1, &entries)), shown(&entries, &places));
    }
}

#[test]
fn the_filter_shows_repeated_batches_too() {
    let entries = two_entries();
    let sink = Sink::TransactionFilter(AllowedKeysFilter::new(None));
    let mut session = receiving();
    for _ in 0..3 {
        assert_eq!(
            session.step(&sink, message(9, &entries)),
            shown(&entries, &[(0, 0), (0, 1), (1, 0)])
        );
    }
}

#[test]
fn a_filtered_batch_carries_its_texts() {
    let batch = vec![
        Record {
            transactions: vec![
                SubRecord { account_keys: vec![key(1)], rendered: String::from("first") },
                SubRecord { account_keys: vec![key(2)], rendered: String::from("second") },
            ],
        },
        Record {
            transactions: vec![SubRecord {
                account_keys: vec![key(3), key(1)],
                rendered: String::from("third"),
            }],
        },
    ];
    let sink = Sink::TransactionFilter(AllowedKeysFilter::new(Some(vec![key(1)])));
    assert_eq!(
        sink.consume(8, true, &batch),
        BatchOutput::Transactions {
            places: vec![(0, 0), (1, 0)],
            rendered: vec![String::from("first"), String::from("third")],
        }
    );
    assert_eq!(
        sink.consume(8, false, &batch),
        BatchOutput::Transactions {
            places: vec![(0, 0), (1, 0)],
            rendered: vec![String::from("first"), String::from("third")],
        }
    );
}

#[test]
fn a_decoded_batch_is_handled_without_the_decoder() {
    let batch = vec![Record {
        transactions: vec![SubRecord { account_keys: vec![key(1)], rendered: String::from("a") }],
    }];
    let sink = Sink::SlotSummary;
    let mut session = receiving();
    assert_eq!(
        session.on_decoded(&sink, 4, Ok(batch.clone())),
        SessionAction::Emit(BatchOutput::Summary { slot: 4, records: 1, transactions: 1 })
    );
    assert_eq!(
        session.on_decoded(&sink, 6, Err(String::from("bad bytes"))),
        SessionAction::SkipBatch { slot: 6, reason: String::from("bad bytes") }
    );
    assert!(session.has_seen(4));
    assert!(!session.has_seen(6));
    let mut fresh = StreamSession::new();
    assert_eq!(fresh.on_decoded(&sink, 4, Ok(batch)), SessionAction::Ignore);
    assert!(!fresh.has_seen(4));
}

#[test]
fn the_same_slot_twice_is_measured_once() {
    let sink = Sink::LatencyMeasurement;
    let mut session = receiving();
    let mut collector = LatencyCollector::new();
    let mut lookups = 0;
    for _ in 0..2 {
        if let SessionAction::Emit(BatchOutput::Measure { slot }) =
            session.step(&sink, message(42, &two_entries()))
        {
            assert_eq!(slot, 42);
            lookups += 1;
            record_lookup(&mut collector, 1_450, Ok(1_000));
        }
    }
    assert_eq!(lookups, 1);
    assert_eq!(collector.total_msgs(), 1);
    assert_eq!(collector.total_latency(), 450);
}

#[test]
fn a_repeated_slot_asks_for_nothing() {
    let sink = Sink::LatencyMeasurement;
    let mut session = receiving();
    assert_eq!(
        session.step(&sink, message(42, &two_entries())),
        SessionAction::Emit(BatchOutput::Measure { slot: 42 })
    );
    assert_eq!(
        session.step(&sink, message(42, &two_entries())),
        SessionAction::Emit(BatchOutput::Nothing)
    );
}

#[test]
fn a_new_session_measures_old_slots_again() {
    let sink = Sink::LatencyMeasurement;
    let mut supervisor = ConnectionSupervisor::new();
    let mut session = receiving();
    for slot in [10u64, 11, 12] {
        assert_eq!(
            session.step(&sink, message(slot, &two_entries())),
            SessionAction::Emit(BatchOutput::Measure { slot })
        );
    }
    let end = match session.step(&sink, SessionEvent::StreamFailed) {
        SessionAction::Finish(end) => end,
        other => panic!("unexpected {:?}", other),
    };
    assert_eq!(end, SessionEnd::Error);
    assert_eq!(
        supervisor.step(SupervisorEvent::SessionEnded(end)),
        SupervisorAction::Backoff { ended: SessionEnd::Error, millis: 1000 }
    );
    assert_eq!(supervisor.step(SupervisorEvent::BackoffElapsed), SupervisorAction::StartSession);
    let mut next = receiving();
    assert!(!next.has_seen(11));
    assert_eq!(
        next.step(&sink, message(11, &two_entries())),
        SessionAction::Emit(BatchOutput::Measure { slot: 11 })
    );
    assert_eq!(
        next.step(&sink, message(11, &two_entries())),
        SessionAction::Emit(BatchOutput::Nothing)
    );
}
