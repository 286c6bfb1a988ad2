use pg_replication::engine::{check_and_send_feedback, check_identify_system, feedback_due,
    feedback_payload, process_keepalive_message, process_replication_message, process_wal_message,
    project_tuple_data, standby_status_frame, DmlKind, ReplicationEvent, TruncateRelation};
use pg_replication::errors::ReplicationError;
use pg_replication::parser::MessageParser;
use pg_replication::types::{ColumnData, ColumnInfo, RelationInfo, ReplicationMessage,
    ReplicationState, TupleData};

fn be64(v: u64) -> Vec<u8> {
    v.to_be_bytes().to_vec()
}

fn be32(v: u32) -> Vec<u8> {
    v.to_be_bytes().to_vec()
}

fn sample_relation(oid: u32) -> RelationInfo {
    RelationInfo {
        oid,
        namespace: "public".to_string(),
        relation_name: "users".to_string(),
        replica_identity: 'd',
        column_count: 2,
        columns: vec![
            ColumnInfo {
                key_flag: 1,
                column_name: "id".to_string(),
                column_type: 23,
                atttypmod: -1,
            },
            ColumnInfo {
                key_flag: 0,
                column_name: "name".to_string(),
                column_type: 25,
                atttypmod: -1,
            },
        ],
    }
}

fn relation_message_bytes(oid: u32) -> Vec<u8> {
    let mut buf: Vec<u8> = vec![0x52];
    buf.extend(be32(oid));
    buf.extend(b"public\0".to_vec());
    buf.extend(b"users\0".to_vec());
    buf.push(b'd');
    buf.extend(vec![0x00, 0x01, 1]);
    buf.extend(b"id\0".to_vec());
    buf.extend(be32(23));
    buf.extend(be32(0xFFFF_FFFF));
    buf
}

fn insert_message_bytes(oid: u32) -> Vec<u8> {
    let mut buf: Vec<u8> = vec![0x49];
    buf.extend(be32(oid));
    buf.push(b'N');
    buf.extend(vec![0x00, 0x01, b't', 0x00, 0x00, 0x00, 0x02, b'h', b'i']);
    buf
}

fn wal_frame(message: &[u8], data_start: u64) -> Vec<u8> {
    let mut frame: Vec<u8> = vec![b'w'];
    frame.extend(be64(data_start));
    frame.extend(be64(0));
    frame.extend(be64(0));
    frame.extend(message.to_vec());
    frame
}

#[test]
fn feedback_frame_bit_exact() {
    let lsn: u64 = 0x0102_0304_0506_0708;
    let ts: i64 = 0x1112_1314_1516_1718;
    let frame = standby_status_frame(lsn, ts);
    let mut expected: Vec<u8> = vec![0x72];
    expected.extend(be64(lsn));
    expected.extend(be64(lsn));
    expected.extend(be64(0));
    expected.extend(be64(ts as u64));
    expected.push(0x00);
    assert_eq!(frame.len(), 34);
    assert_eq!(frame, expected);
}

#[test]
fn keepalive_updates_lsn_and_replies() {
    let mut state = ReplicationState::new();
    let mut frame: Vec<u8> = vec![b'k'];
    frame.extend(be64(0xDEAD));
    frame.extend(be64(0));
    frame.push(0);
    assert_eq!(frame.len(), 18);
    let reply = process_keepalive_message(&mut state, &frame, 77).unwrap();
    assert_eq!(state.received_lsn, 0xDEAD);
    let reply = reply.expect("feedback owed once an LSN is known");
    assert_eq!(reply.len(), 34);
    assert_eq!(reply[0], b'r');
    assert_eq!(&reply[1..9], &be64(0xDEAD)[..]);
    assert_eq!(&reply[9..17], &be64(0xDEAD)[..]);
    assert_eq!(&reply[17..25], &be64(0)[..]);
    assert_eq!(&reply[25..33], &be64(77)[..]);
    assert_eq!(reply[33], 0);
}

#[test]
fn keepalive_too_short_is_protocol_error() {
    let mut state = ReplicationState::new();
    let frame: Vec<u8> = vec![b'k', 0, 0];
    let r = process_keepalive_message(&mut state, &frame, 0);
    match r {
        Err(ReplicationError::Protocol { message }) => {
            assert_eq!(message, "Keepalive message too short");
        }
        other => panic!("expected Protocol error, got {:?}", other),
    }
    assert_eq!(state.received_lsn, 0);
}

#[test]
fn keepalive_never_moves_lsn_backwards() {
    let mut state = ReplicationState::new();
    let mut high: Vec<u8> = vec![b'k'];
    high.extend(be64(100));
    high.extend(be64(0));
    high.push(0);
    let mut low: Vec<u8> = vec![b'k'];
    low.extend(be64(50));
    low.extend(be64(0));
    low.push(0);
    process_keepalive_message(&mut state, &high, 0).unwrap();
    process_keepalive_message(&mut state, &low, 0).unwrap();
    assert_eq!(state.received_lsn, 100);
}

#[test]
fn lsn_watermark_is_running_maximum() {
    let mut state = ReplicationState::new();
    for x in [5u64, 3, 0, 9, 9, 2] {
        state.update_lsn(x);
    }
    assert_eq!(state.received_lsn, 9);
}

#[test]
fn relation_then_insert_reports_row() {
    let mut state = ReplicationState::new();
    let rel_frame = wal_frame(&relation_message_bytes(42), 10);
    let (event, _fb) = process_wal_message(&mut state, &rel_frame, 0).unwrap();
    assert!(matches!(event, ReplicationEvent::RelationCached { oid: 42 }));
    let ins_frame = wal_frame(&insert_message_bytes(42), 20);
    let (event, fb) = process_wal_message(&mut state, &ins_frame, 0).unwrap();
    match event {
        ReplicationEvent::Row { kind, namespace, relation_name, fields, is_stream, xid, .. } => {
            assert_eq!(kind, DmlKind::Insert);
            assert_eq!(namespace, "public");
            assert_eq!(relation_name, "users");
            assert_eq!(fields, vec![("id".to_string(), "hi".to_string())]);
            assert!(!is_stream);
            assert_eq!(xid, None);
        }
        other => panic!("expected Row, got {:?}", other),
    }
    assert_eq!(state.received_lsn, 20);
    let fb = fb.unwrap();
    assert_eq!(&fb[1..9], &be64(20)[..]);
}

#[test]
fn insert_for_unknown_relation_is_reported_not_fatal() {
    let mut state = ReplicationState::new();
    let ins_frame = wal_frame(&insert_message_bytes(42), 20);
    let (event, _fb) = process_wal_message(&mut state, &ins_frame, 0).unwrap();
    assert!(matches!(
        event,
        ReplicationEvent::UnknownRelation { kind: DmlKind::Insert, relation_id: 42 }
    ));
    // The session carries on: cache the relation and retry.
    let rel_frame = wal_frame(&relation_message_bytes(42), 21);
    process_wal_message(&mut state, &rel_frame, 0).unwrap();
    let (event, _fb) = process_wal_message(&mut state, &wal_frame(&insert_message_bytes(42), 22), 0)
        .unwrap();
    assert!(matches!(event, ReplicationEvent::Row { .. }));
}

#[test]
fn stream_boundaries_toggle_session_state() {
    let mut state = ReplicationState::new();
    let mut start: Vec<u8> = vec![0x53];
    start.extend(be32(99));
    start.push(1);
    let (event, _) = process_wal_message(&mut state, &wal_frame(&start, 1), 0).unwrap();
    assert!(matches!(
        event,
        ReplicationEvent::StreamStarted { xid: 99, first_segment: true }
    ));
    assert!(state.in_streaming_txn);
    assert_eq!(state.streaming_xid, Some(99));
    let stop: Vec<u8> = vec![0x45];
    let (event, _) = process_wal_message(&mut state, &wal_frame(&stop, 2), 0).unwrap();
    assert!(matches!(event, ReplicationEvent::StreamStopped));
    assert!(!state.in_streaming_txn);
    assert_eq!(state.streaming_xid, None);
}

#[test]
fn stream_commit_and_abort_clear_state() {
    let mut state = ReplicationState::new();
    state.start_streaming(7);
    let mut commit: Vec<u8> = vec![0x63];
    commit.extend(be32(7));
    commit.push(0);
    commit.extend(be64(1));
    commit.extend(be64(2));
    commit.extend(be64(3));
    let (event, _) = process_wal_message(&mut state, &wal_frame(&commit, 3), 0).unwrap();
    assert!(matches!(event, ReplicationEvent::StreamCommitted { xid: 7 }));
    assert!(!state.in_streaming_txn);
    state.start_streaming(8);
    let mut abort: Vec<u8> = vec![0x41];
    abort.extend(be32(8));
    abort.extend(be32(9));
    let (event, _) = process_wal_message(&mut state, &wal_frame(&abort, 4), 0).unwrap();
    assert!(matches!(event, ReplicationEvent::StreamAborted { xid: 8 }));
    assert!(!state.in_streaming_txn);
    assert_eq!(state.streaming_xid, None);
}

#[test]
fn wal_message_too_short_or_empty() {
    let mut state = ReplicationState::new();
    let short: Vec<u8> = vec![b'w', 0, 0];
    match process_wal_message(&mut state, &short, 0) {
        Err(ReplicationError::Protocol { message }) => {
            assert_eq!(message, "WAL message too short");
        }
        other => panic!("expected Protocol error, got {:?}", other),
    }
    // Exactly the header and nothing after it: the LSN advances but the
    // frame is rejected.
    let mut header_only: Vec<u8> = vec![b'w'];
    header_only.extend(be64(33));
    header_only.extend(be64(0));
    header_only.extend(be64(0));
    match process_wal_message(&mut state, &header_only, 0) {
        Err(ReplicationError::Protocol { message }) => {
            assert_eq!(message, "WAL message has no data");
        }
        other => panic!("expected Protocol error, got {:?}", other),
    }
    assert_eq!(state.received_lsn, 33);
}

#[test]
fn wal_message_with_garbage_payload_is_parse_error() {
    let mut state = ReplicationState::new();
    let frame = wal_frame(&[0x5A, 1, 2, 3], 40);
    assert!(matches!(
        process_wal_message(&mut state, &frame, 0),
        Err(ReplicationError::Parse { .. })
    ));
    // The LSN from the frame header was still taken.
    assert_eq!(state.received_lsn, 40);
}

#[test]
fn truncate_event_resolves_names() {
    let mut state = ReplicationState::new();
    process_wal_message(&mut state, &wal_frame(&relation_message_bytes(16), 1), 0).unwrap();
    let mut tr: Vec<u8> = vec![0x54];
    tr.extend(be32(2));
    tr.push(1);
    tr.extend(be32(16));
    tr.extend(be32(17));
    let (event, _) = process_wal_message(&mut state, &wal_frame(&tr, 2), 0).unwrap();
    match event {
        ReplicationEvent::Truncate { flags, relations, is_stream, xid } => {
            assert_eq!(flags, 1);
            assert!(!is_stream);
            assert_eq!(xid, None);
            assert_eq!(relations.len(), 2);
            match &relations[0] {
                TruncateRelation::Known { namespace, relation_name } => {
                    assert_eq!(namespace, "public");
                    assert_eq!(relation_name, "users");
                }
                other => panic!("expected Known, got {:?}", other),
            }
            assert!(matches!(relations[1], TruncateRelation::Unknown { oid: 17 }));
        }
        other => panic!("expected Truncate, got {:?}", other),
    }
}

#[test]
fn projection_elides_nulls_and_extra_columns() {
    let relation = sample_relation(42);
    let tuple = TupleData {
        column_count: 3,
        columns: vec![
            ColumnData { data_type: 'n', length: 0, data: String::new() },
            ColumnData { data_type: 't', length: 3, data: "bob".to_string() },
            ColumnData { data_type: 't', length: 1, data: "x".to_string() },
        ],
        processed_length: 0,
    };
    let fields = project_tuple_data(&relation, &tuple);
    // The NULL in column 0 and the datum beyond the two-column schema
    // are both elided; unchanged-TOAST markers would keep their slot.
    assert_eq!(fields, vec![("name".to_string(), "bob".to_string())]);
}

#[test]
fn dispatch_relation_replaces_earlier_schema() {
    let mut state = ReplicationState::new();
    let msg = MessageParser::parse_wal_message(&relation_message_bytes(42), false).unwrap();
    process_replication_message(&mut state, msg);
    let mut newer = sample_relation(42);
    newer.relation_name = "accounts".to_string();
    process_replication_message(&mut state, ReplicationMessage::Relation { relation: newer });
    let rel = state.get_relation(42).unwrap();
    assert_eq!(rel.relation_name, "accounts");
}

#[test]
fn begin_and_commit_events_pass_fields_through() {
    let mut state = ReplicationState::new();
    let ev = process_replication_message(
        &mut state,
        ReplicationMessage::Begin { final_lsn: 1, timestamp: 2, xid: 3 },
    );
    assert!(matches!(ev, ReplicationEvent::Begin { xid: 3 }));
    let ev = process_replication_message(
        &mut state,
        ReplicationMessage::Commit { flags: 0, commit_lsn: 4, end_lsn: 5, timestamp: 6 },
    );
    match ev {
        ReplicationEvent::Commit { flags, commit_lsn, end_lsn, timestamp } => {
            assert_eq!((flags, commit_lsn, end_lsn, timestamp), (0, 4, 5, 6));
        }
        other => panic!("expected Commit, got {:?}", other),
    }
}

#[test]
fn feedback_skipped_while_lsn_unknown() {
    // The shutdown path sends one final feedback only when an LSN is
    // known; before any data arrived nothing is owed.
    let mut state = ReplicationState::new();
    assert!(feedback_payload(&state, 123).is_none());
    state.update_lsn(0xBEEF);
    let frame = feedback_payload(&state, 123).unwrap();
    assert_eq!(frame.len(), 34);
    assert_eq!(&frame[1..9], &be64(0xBEEF)[..]);
}

#[test]
fn periodic_feedback_honours_interval() {
    assert!(!feedback_due(500, 0, 1));
    assert!(!feedback_due(1000, 0, 1));
    assert!(feedback_due(1001, 0, 1));
    assert!(!feedback_due(0, 500, 1));
    let mut state = ReplicationState::new();
    state.update_lsn(7);
    state.last_feedback_time = 1000;
    assert!(check_and_send_feedback(&mut state, 1500, 9, 1).is_none());
    assert_eq!(state.last_feedback_time, 1000);
    let frame = check_and_send_feedback(&mut state, 2500, 9, 1).unwrap();
    assert_eq!(state.last_feedback_time, 2500);
    assert_eq!(&frame[1..9], &be64(7)[..]);
}

#[test]
fn identify_system_requires_ok_status_and_rows() {
    assert!(check_identify_system(true, 1).is_ok());
    assert!(matches!(
        check_identify_system(true, 0),
        Err(ReplicationError::Protocol { .. })
    ));
    assert!(matches!(
        check_identify_system(false, 3),
        Err(ReplicationError::Protocol { .. })
    ));
}
