use pg_replication::errors::ReplicationError;
use pg_replication::parser::MessageParser;
use pg_replication::types::ReplicationMessage;

fn be32(v: u32) -> Vec<u8> {
    v.to_be_bytes().to_vec()
}

fn be64(v: u64) -> Vec<u8> {
    v.to_be_bytes().to_vec()
}

#[test]
fn begin_decode() {
    let buf: Vec<u8> = vec![
        0x42, 0x00, 0x00, 0x00, 0x00, 0x00, 0x00, 0x01, 0x00, 0x00, 0x00, 0x00, 0x00, 0x00, 0x00,
        0x00, 0x00, 0x00, 0x00, 0x00, 0x2A,
    ];
    let msg = MessageParser::parse_wal_message(&buf, false).unwrap();
    match msg {
        ReplicationMessage::Begin { final_lsn, timestamp, xid } => {
            assert_eq!(final_lsn, 0x100);
            assert_eq!(timestamp, 0);
            assert_eq!(xid, 42);
        }
        other => panic!("expected Begin, got {:?}", other),
    }
}

#[test]
fn commit_decode() {
    let mut buf: Vec<u8> = vec![0x43, 0x07];
    buf.extend(be64(0x10));
    buf.extend(be64(0x20));
    buf.extend(be64(5));
    let msg = MessageParser::parse_wal_message(&buf, false).unwrap();
    match msg {
        ReplicationMessage::Commit { flags, commit_lsn, end_lsn, timestamp } => {
            assert_eq!(flags, 7);
            assert_eq!(commit_lsn, 0x10);
            assert_eq!(end_lsn, 0x20);
            assert_eq!(timestamp, 5);
        }
        other => panic!("expected Commit, got {:?}", other),
    }
}

#[test]
fn insert_non_streaming() {
    let buf: Vec<u8> = vec![
        0x49, 0x00, 0x00, 0x00, 0x10, 0x4E, 0x00, 0x01, 0x74, 0x00, 0x00, 0x00, 0x02, 0x68, 0x69,
    ];
    let msg = MessageParser::parse_wal_message(&buf, false).unwrap();
    match msg {
        ReplicationMessage::Insert { relation_id, tuple_data, is_stream, xid } => {
            assert_eq!(relation_id, 16);
            assert!(!is_stream);
            assert_eq!(xid, None);
            assert_eq!(tuple_data.column_count, 1);
            assert_eq!(tuple_data.columns.len(), 1);
            assert_eq!(tuple_data.columns[0].data_type, 't');
            assert_eq!(tuple_data.columns[0].length, 2);
            assert_eq!(tuple_data.columns[0].data, "hi");
            assert_eq!(tuple_data.processed_length, 9);
        }
        other => panic!("expected Insert, got {:?}", other),
    }
}

#[test]
fn insert_streaming() {
    let buf: Vec<u8> = vec![
        0x49, 0x00, 0x00, 0x00, 0x63, 0x00, 0x00, 0x00, 0x10, 0x4E, 0x00, 0x01, 0x6E,
    ];
    // The session flag must not matter: both values decode alike.
    for flag in [false, true] {
        let msg = MessageParser::parse_wal_message(&buf, flag).unwrap();
        match msg {
            ReplicationMessage::Insert { relation_id, tuple_data, is_stream, xid } => {
                assert_eq!(relation_id, 16);
                assert!(is_stream);
                assert_eq!(xid, Some(99));
                assert_eq!(tuple_data.columns.len(), 1);
                assert_eq!(tuple_data.columns[0].data_type, 'n');
                assert_eq!(tuple_data.columns[0].data, "");
            }
            other => panic!("expected Insert, got {:?}", other),
        }
    }
}

#[test]
fn insert_bad_marker() {
    // Non-streaming shape but the marker after the second u32 is not 'N'.
    let mut buf: Vec<u8> = vec![0x49];
    buf.extend(be32(99));
    buf.extend(be32(16));
    buf.push(b'X');
    let r = MessageParser::parse_wal_message(&buf, false);
    assert!(matches!(r, Err(ReplicationError::Parse { .. })));
}

#[test]
fn update_with_old_tuple_key() {
    let mut buf: Vec<u8> = vec![0x55];
    buf.extend(be32(16));
    buf.push(b'K');
    buf.extend(vec![0x00, 0x01, b't', 0x00, 0x00, 0x00, 0x01, b'k']);
    buf.push(b'N');
    buf.extend(vec![0x00, 0x01, b't', 0x00, 0x00, 0x00, 0x01, b'v']);
    let msg = MessageParser::parse_wal_message(&buf, false).unwrap();
    match msg {
        ReplicationMessage::Update {
            relation_id,
            key_type,
            old_tuple_data,
            new_tuple_data,
            is_stream,
            xid,
        } => {
            assert_eq!(relation_id, 16);
            assert_eq!(key_type, Some('K'));
            assert!(!is_stream);
            assert_eq!(xid, None);
            let old = old_tuple_data.unwrap();
            assert_eq!(old.columns[0].data, "k");
            assert_eq!(new_tuple_data.columns[0].data, "v");
        }
        other => panic!("expected Update, got {:?}", other),
    }
}

#[test]
fn update_new_tuple_only() {
    let mut buf: Vec<u8> = vec![0x55];
    buf.extend(be32(16));
    buf.push(b'N');
    buf.extend(vec![0x00, 0x01, b'u']);
    let msg = MessageParser::parse_wal_message(&buf, false).unwrap();
    match msg {
        ReplicationMessage::Update { key_type, old_tuple_data, new_tuple_data, is_stream, .. } => {
            assert_eq!(key_type, None);
            assert!(old_tuple_data.is_none());
            assert!(!is_stream);
            assert_eq!(new_tuple_data.columns[0].data_type, 'u');
        }
        other => panic!("expected Update, got {:?}", other),
    }
}

#[test]
fn update_streaming() {
    let mut buf: Vec<u8> = vec![0x55];
    buf.extend(be32(7));
    buf.extend(be32(16));
    buf.push(b'N');
    buf.extend(vec![0x00, 0x01, b'n']);
    let msg = MessageParser::parse_wal_message(&buf, false).unwrap();
    match msg {
        ReplicationMessage::Update { relation_id, is_stream, xid, .. } => {
            assert_eq!(relation_id, 16);
            assert!(is_stream);
            assert_eq!(xid, Some(7));
        }
        other => panic!("expected Update, got {:?}", other),
    }
}

#[test]
fn update_invalid_marker() {
    let mut buf: Vec<u8> = vec![0x55];
    buf.extend(be32(7));
    buf.extend(be32(16));
    buf.push(b'Z');
    let r = MessageParser::parse_wal_message(&buf, false);
    assert!(matches!(r, Err(ReplicationError::Parse { .. })));
}

#[test]
fn delete_non_streaming() {
    let mut buf: Vec<u8> = vec![0x44];
    buf.extend(be32(16));
    buf.push(b'O');
    buf.extend(vec![0x00, 0x01, b't', 0x00, 0x00, 0x00, 0x01, b'x']);
    let msg = MessageParser::parse_wal_message(&buf, false).unwrap();
    match msg {
        ReplicationMessage::Delete { relation_id, key_type, tuple_data, is_stream, xid } => {
            assert_eq!(relation_id, 16);
            assert_eq!(key_type, 'O');
            assert!(!is_stream);
            assert_eq!(xid, None);
            assert_eq!(tuple_data.columns[0].data, "x");
        }
        other => panic!("expected Delete, got {:?}", other),
    }
}

#[test]
fn delete_streaming() {
    let mut buf: Vec<u8> = vec![0x44];
    buf.extend(be32(9));
    buf.extend(be32(16));
    buf.push(b'K');
    buf.extend(vec![0x00, 0x00]);
    let msg = MessageParser::parse_wal_message(&buf, true).unwrap();
    match msg {
        ReplicationMessage::Delete { relation_id, key_type, is_stream, xid, .. } => {
            assert_eq!(relation_id, 16);
            assert_eq!(key_type, 'K');
            assert!(is_stream);
            assert_eq!(xid, Some(9));
        }
        other => panic!("expected Delete, got {:?}", other),
    }
}

#[test]
fn relation_non_streaming() {
    let mut buf: Vec<u8> = vec![0x52];
    buf.extend(be32(42));
    buf.extend(b"public\0".to_vec());
    buf.extend(b"users\0".to_vec());
    buf.push(b'd');
    buf.extend(vec![0x00, 0x02]);
    // column 1: key, "id", type 23, typmod -1
    buf.push(1);
    buf.extend(b"id\0".to_vec());
    buf.extend(be32(23));
    buf.extend(be32(0xFFFF_FFFF));
    // column 2: not key, "name", type 25, typmod -1
    buf.push(0);
    buf.extend(b"name\0".to_vec());
    buf.extend(be32(25));
    buf.extend(be32(0xFFFF_FFFF));
    let msg = MessageParser::parse_wal_message(&buf, false).unwrap();
    match msg {
        ReplicationMessage::Relation { relation } => {
            assert_eq!(relation.oid, 42);
            assert_eq!(relation.namespace, "public");
            assert_eq!(relation.relation_name, "users");
            assert_eq!(relation.replica_identity, 'd');
            assert_eq!(relation.column_count, 2);
            assert_eq!(relation.columns.len(), 2);
            assert_eq!(relation.columns[0].key_flag, 1);
            assert_eq!(relation.columns[0].column_name, "id");
            assert_eq!(relation.columns[0].column_type, 23);
            assert_eq!(relation.columns[0].atttypmod, -1);
            assert_eq!(relation.columns[1].key_flag, 0);
            assert_eq!(relation.columns[1].column_name, "name");
        }
        other => panic!("expected Relation, got {:?}", other),
    }
}

#[test]
fn relation_streaming_carries_xid() {
    let mut buf: Vec<u8> = vec![0x52];
    buf.extend(be32(77)); // xid, read only inside a streamed transaction
    buf.extend(be32(42));
    buf.extend(b"s\0".to_vec());
    buf.extend(b"t\0".to_vec());
    buf.push(b'n');
    buf.extend(vec![0x00, 0x00]);
    let msg = MessageParser::parse_wal_message(&buf, true).unwrap();
    match msg {
        ReplicationMessage::Relation { relation } => {
            assert_eq!(relation.oid, 42);
            assert_eq!(relation.namespace, "s");
            assert_eq!(relation.column_count, 0);
        }
        other => panic!("expected Relation, got {:?}", other),
    }
    // The same bytes with the flag off read 77 as the OID.
    let msg2 = MessageParser::parse_wal_message(&buf, false);
    assert!(msg2.is_err() || matches!(msg2, Ok(ReplicationMessage::Relation { .. })));
}

#[test]
fn relation_invalid_utf8_rejected() {
    let mut buf: Vec<u8> = vec![0x52];
    buf.extend(be32(42));
    buf.extend(vec![0xFF, 0xFE, 0x00]); // namespace: invalid UTF-8
    buf.extend(b"t\0".to_vec());
    buf.push(b'n');
    buf.extend(vec![0x00, 0x00]);
    let r = MessageParser::parse_wal_message(&buf, false);
    assert!(matches!(r, Err(ReplicationError::Parse { .. })));
}

#[test]
fn truncate_streaming() {
    let mut buf: Vec<u8> = vec![0x54];
    buf.extend(be32(7)); // xid
    buf.extend(be32(2)); // relation count
    buf.push(1); // flags: CASCADE
    buf.extend(be32(16));
    buf.extend(be32(17));
    let msg = MessageParser::parse_wal_message(&buf, false).unwrap();
    match msg {
        ReplicationMessage::Truncate { relation_ids, flags, is_stream, xid } => {
            assert_eq!(relation_ids, vec![16, 17]);
            assert_eq!(flags, 1);
            assert!(is_stream);
            assert_eq!(xid, Some(7));
        }
        other => panic!("expected Truncate, got {:?}", other),
    }
}

#[test]
fn truncate_non_streaming_rewinds() {
    let mut buf: Vec<u8> = vec![0x54];
    buf.extend(be32(2)); // relation count
    buf.push(2); // flags: RESTART IDENTITY
    buf.extend(be32(16));
    buf.extend(be32(17));
    let msg = MessageParser::parse_wal_message(&buf, false).unwrap();
    match msg {
        ReplicationMessage::Truncate { relation_ids, flags, is_stream, xid } => {
            assert_eq!(relation_ids, vec![16, 17]);
            assert_eq!(flags, 2);
            assert!(!is_stream);
            assert_eq!(xid, None);
        }
        other => panic!("expected Truncate, got {:?}", other),
    }
}

#[test]
fn truncate_prefix_can_reparse_as_streaming() {
    // The Truncate heuristic rests on the remaining length alone, so one
    // particular cut of this valid non-streaming message happens to
    // satisfy the streaming equation and is accepted as a different,
    // shorter message.  This pins that behaviour down.
    let full: Vec<u8> = vec![
        0x54, 0x00, 0x00, 0x00, 0x03, 0x00, 0x00, 0x00, 0x01, 0x00, 0xAA, 0xBB, 0xCC, 0xDD, 0xEE,
        0xFF, 0x11, 0x22,
    ];
    let msg = MessageParser::parse_wal_message(&full, false).unwrap();
    match msg {
        ReplicationMessage::Truncate { relation_ids, flags, is_stream, xid } => {
            assert_eq!(relation_ids, vec![0x0000_0100, 0xAABB_CCDD, 0xEEFF_1122]);
            assert_eq!(flags, 0);
            assert!(!is_stream);
            assert_eq!(xid, None);
        }
        other => panic!("expected Truncate, got {:?}", other),
    }
    let prefix = &full[..14];
    let msg2 = MessageParser::parse_wal_message(prefix, false).unwrap();
    match msg2 {
        ReplicationMessage::Truncate { relation_ids, flags, is_stream, xid } => {
            assert_eq!(relation_ids, vec![0xAABB_CCDD]);
            assert_eq!(flags, 0);
            assert!(is_stream);
            assert_eq!(xid, Some(3));
        }
        other => panic!("expected Truncate, got {:?}", other),
    }
}

#[test]
fn stream_start_with_segment_byte() {
    let mut buf: Vec<u8> = vec![0x53];
    buf.extend(be32(99));
    buf.push(1);
    let msg = MessageParser::parse_wal_message(&buf, false).unwrap();
    match msg {
        ReplicationMessage::StreamStart { xid, first_segment } => {
            assert_eq!(xid, 99);
            assert!(first_segment);
        }
        other => panic!("expected StreamStart, got {:?}", other),
    }
}

#[test]
fn stream_start_missing_segment_byte() {
    let mut buf: Vec<u8> = vec![0x53];
    buf.extend(be32(99));
    let msg = MessageParser::parse_wal_message(&buf, false).unwrap();
    match msg {
        ReplicationMessage::StreamStart { xid, first_segment } => {
            assert_eq!(xid, 99);
            assert!(!first_segment);
        }
        other => panic!("expected StreamStart, got {:?}", other),
    }
}

#[test]
fn stream_stop_decode() {
    let buf: Vec<u8> = vec![0x45];
    let msg = MessageParser::parse_wal_message(&buf, false).unwrap();
    assert!(matches!(msg, ReplicationMessage::StreamStop));
}

#[test]
fn stream_commit_decode() {
    let mut buf: Vec<u8> = vec![0x63];
    buf.extend(be32(99));
    buf.push(0);
    buf.extend(be64(0x10));
    buf.extend(be64(0x20));
    buf.extend(be64(3));
    let msg = MessageParser::parse_wal_message(&buf, false).unwrap();
    match msg {
        ReplicationMessage::StreamCommit { xid, flags, commit_lsn, end_lsn, timestamp } => {
            assert_eq!(xid, 99);
            assert_eq!(flags, 0);
            assert_eq!(commit_lsn, 0x10);
            assert_eq!(end_lsn, 0x20);
            assert_eq!(timestamp, 3);
        }
        other => panic!("expected StreamCommit, got {:?}", other),
    }
}

#[test]
fn stream_abort_decode() {
    let mut buf: Vec<u8> = vec![0x41];
    buf.extend(be32(99));
    buf.extend(be32(100));
    let msg = MessageParser::parse_wal_message(&buf, false).unwrap();
    match msg {
        ReplicationMessage::StreamAbort { xid, subtransaction_xid } => {
            assert_eq!(xid, 99);
            assert_eq!(subtransaction_xid, 100);
        }
        other => panic!("expected StreamAbort, got {:?}", other),
    }
}

#[test]
fn unknown_tag_rejected() {
    let buf: Vec<u8> = vec![0x5A, 0x00, 0x00];
    let r = MessageParser::parse_wal_message(&buf, false);
    assert!(matches!(r, Err(ReplicationError::Parse { .. })));
}

#[test]
fn empty_buffer_rejected() {
    let buf: Vec<u8> = vec![];
    let r = MessageParser::parse_wal_message(&buf, false);
    assert!(matches!(r, Err(ReplicationError::Parse { .. })));
}

#[test]
fn unknown_tuple_tag_rejected() {
    let mut buf: Vec<u8> = vec![0x49];
    buf.extend(be32(16));
    buf.push(b'N');
    buf.extend(vec![0x00, 0x01, b'x']);
    let r = MessageParser::parse_wal_message(&buf, false);
    assert!(matches!(r, Err(ReplicationError::Parse { .. })));
}

#[test]
fn binary_datum_tag_rejected() {
    // The binary-format tuple tag of later protocol versions is not
    // accepted: the session never opts in, so it must be a parse error.
    let mut buf: Vec<u8> = vec![0x49];
    buf.extend(be32(16));
    buf.push(b'N');
    buf.extend(vec![0x00, 0x01, b'b', 0x00, 0x00, 0x00, 0x01, 0x07]);
    let r = MessageParser::parse_wal_message(&buf, false);
    assert!(matches!(r, Err(ReplicationError::Parse { .. })));
}

#[test]
fn text_datum_negative_length_rejected() {
    let mut buf: Vec<u8> = vec![0x49];
    buf.extend(be32(16));
    buf.push(b'N');
    buf.extend(vec![0x00, 0x01, b't']);
    buf.extend(be32(0x8000_0000)); // length < 0 as an i32
    let r = MessageParser::parse_wal_message(&buf, false);
    assert!(matches!(r, Err(ReplicationError::Parse { .. })));
}

#[test]
fn every_strict_prefix_of_valid_messages_rejected() {
    // Parser totality on truncation, exercised on one message of each
    // kind it is proved for (every tag but Truncate; for StreamStart
    // only the cuts inside the fixed header).
    let mut cases: Vec<Vec<u8>> = Vec::new();
    cases.push(vec![
        0x42, 0, 0, 0, 0, 0, 0, 1, 0, 0, 0, 0, 0, 0, 0, 0, 0, 0, 0, 0, 0x2A,
    ]);
    let mut commit: Vec<u8> = vec![0x43, 0];
    commit.extend(be64(1));
    commit.extend(be64(2));
    commit.extend(be64(3));
    cases.push(commit);
    cases.push(vec![
        0x49, 0x00, 0x00, 0x00, 0x10, 0x4E, 0x00, 0x01, 0x74, 0x00, 0x00, 0x00, 0x02, 0x68, 0x69,
    ]);
    cases.push(vec![0x49, 0, 0, 0, 0x63, 0, 0, 0, 0x10, 0x4E, 0x00, 0x01, 0x6E]);
    let mut rel: Vec<u8> = vec![0x52];
    rel.extend(be32(42));
    rel.extend(b"public\0".to_vec());
    rel.extend(b"users\0".to_vec());
    rel.push(b'd');
    rel.extend(vec![0x00, 0x01, 1]);
    rel.extend(b"id\0".to_vec());
    rel.extend(be32(23));
    rel.extend(be32(0xFFFF_FFFF));
    cases.push(rel);
    let mut upd: Vec<u8> = vec![0x55];
    upd.extend(be32(16));
    upd.push(b'K');
    upd.extend(vec![0x00, 0x01, b't', 0x00, 0x00, 0x00, 0x01, b'k']);
    upd.push(b'N');
    upd.extend(vec![0x00, 0x01, b't', 0x00, 0x00, 0x00, 0x01, b'v']);
    cases.push(upd);
    let mut del: Vec<u8> = vec![0x44];
    del.extend(be32(16));
    del.push(b'O');
    del.extend(vec![0x00, 0x01, b'n']);
    cases.push(del);
    let mut sc: Vec<u8> = vec![0x63];
    sc.extend(be32(99));
    sc.push(0);
    sc.extend(be64(1));
    sc.extend(be64(2));
    sc.extend(be64(3));
    cases.push(sc);
    let mut sa: Vec<u8> = vec![0x41];
    sa.extend(be32(99));
    sa.extend(be32(100));
    cases.push(sa);
    for case in &cases {
        assert!(MessageParser::parse_wal_message(case, false).is_ok());
        for k in 0..case.len() {
            let r = MessageParser::parse_wal_message(&case[..k], false);
            assert!(
                matches!(r, Err(ReplicationError::Parse { .. })),
                "prefix of length {} unexpectedly accepted",
                k
            );
        }
    }
    // StreamStart: cuts inside the fixed header are rejected; the cut
    // just before the optional first-segment octet is a valid message.
    let ss: Vec<u8> = vec![0x53, 0, 0, 0, 99, 1];
    for k in 0..5 {
        let r = MessageParser::parse_wal_message(&ss[..k], false);
        assert!(matches!(r, Err(ReplicationError::Parse { .. })));
    }
    assert!(MessageParser::parse_wal_message(&ss[..5], false).is_ok());
}
