//! The logical replication message parser.
//!
//! The spec functions here define, byte for byte, which buffers form a
//! valid `pgoutput` message and what they decode to; `spec_parse` is the
//! whole grammar.  `MessageParser::parse_wal_message` is the executable
//! decoder, and its contract says it returns exactly what `spec_parse`
//! describes, or a `Parse` error where `spec_parse` rejects the buffer.
//!
//! In protocol version 2 the Insert, Update, and Delete messages are
//! self-describing: whether they carry a leading transaction id is
//! decided by peeking the byte after the first `u32`, never by session
//! state.  Only the Relation message consults the session's streaming
//! flag, and Truncate is disambiguated by the total remaining length.

use vstd::prelude::*;

use crate::buffer::BufferReader;
use crate::errors::ReplicationError;
use crate::types::{ColumnData, ColumnDataV, ColumnInfo, ColumnInfoV, MessageV, RelationInfo,
    RelationInfoV, ReplicationMessage, TupleData, TupleDataV};
use crate::wire::{be_u16_at, be_u32_at, be_u64_at, find_nul, spec_cstr, spec_lp_string};

verus! {

/// A parsed datum sequence: the decoded columns and the offset just past
/// them.  Each datum is a one-byte tag; `'n'` (null) and `'u'` (unchanged
/// TOAST) carry nothing, `'t'` carries a length-prefixed string.  Any
/// other tag, or a truncated buffer, rejects the tuple.
pub open spec fn spec_datums(s: Seq<u8>, i: int, n: nat) -> Option<(Seq<ColumnDataV>, int)>
    decreases n,
{
    if n == 0 {
        Some((Seq::<ColumnDataV>::empty(), i))
    } else if i >= s.len() {
        None
    } else if s[i] == 'n' as u8 || s[i] == 'u' as u8 {
        let d = ColumnDataV { data_type: s[i] as char, length: 0, data: Seq::<char>::empty() };
        match spec_datums(s, i + 1, (n - 1) as nat) {
            Some((rest, end)) => Some((seq![d] + rest, end)),
            None => None,
        }
    } else if s[i] == 't' as u8 {
        match spec_lp_string(s, i + 1) {
            Some((cs, end)) => {
                let d = ColumnDataV {
                    data_type: 't',
                    length: (end - i - 5) as i32,
                    data: cs,
                };
                match spec_datums(s, end, (n - 1) as nat) {
                    Some((rest, end2)) => Some((seq![d] + rest, end2)),
                    None => None,
                }
            },
            None => None,
        }
    } else {
        None
    }
}

/// A parsed tuple at offset `i`: an `i16` column count followed by that
/// many datums.  A negative count yields an empty tuple.
pub open spec fn spec_tuple(s: Seq<u8>, i: int) -> Option<(TupleDataV, int)> {
    if i + 2 > s.len() {
        None
    } else {
        let cc = be_u16_at(s, i) as i16;
        let n: nat = if cc < 0 {
            0
        } else {
            cc as nat
        };
        match spec_datums(s, i + 2, n) {
            Some((ds, end)) => Some(
                (
                    TupleDataV {
                        column_count: cc,
                        columns: ds,
                        processed_length: (end - i) as usize,
                    },
                    end,
                ),
            ),
            None => None,
        }
    }
}

/// A parsed run of `n` column descriptors at offset `i`: key flag,
/// null-terminated name, type OID, and type modifier for each.
pub open spec fn spec_columns(s: Seq<u8>, i: int, n: nat) -> Option<(Seq<ColumnInfoV>, int)>
    decreases n,
{
    if n == 0 {
        Some((Seq::<ColumnInfoV>::empty(), i))
    } else if s.len() - i < 9 {
        None
    } else {
        match spec_cstr(s, i + 1) {
            Some((name, j)) => {
                if j + 8 > s.len() {
                    None
                } else {
                    let c = ColumnInfoV {
                        key_flag: s[i] as i8,
                        column_name: name,
                        column_type: be_u32_at(s, j),
                        atttypmod: be_u32_at(s, j + 4) as i32,
                    };
                    match spec_columns(s, j + 8, (n - 1) as nat) {
                        Some((rest, end)) => Some((seq![c] + rest, end)),
                        None => None,
                    }
                }
            },
            None => None,
        }
    }
}

/// A parsed Begin message: final LSN, commit timestamp, and XID.
pub open spec fn spec_begin(s: Seq<u8>) -> Option<(MessageV, int)> {
    if s.len() - 1 < 20 {
        None
    } else {
        Some(
            (
                MessageV::Begin {
                    final_lsn: be_u64_at(s, 1),
                    timestamp: be_u64_at(s, 9) as i64,
                    xid: be_u32_at(s, 17),
                },
                21,
            ),
        )
    }
}

/// A parsed Commit message: flags, commit and end LSNs, and timestamp.
pub open spec fn spec_commit(s: Seq<u8>) -> Option<(MessageV, int)> {
    if s.len() - 1 < 25 {
        None
    } else {
        Some(
            (
                MessageV::Commit {
                    flags: s[1],
                    commit_lsn: be_u64_at(s, 2),
                    end_lsn: be_u64_at(s, 10),
                    timestamp: be_u64_at(s, 18) as i64,
                },
                26,
            ),
        )
    }
}

/// A parsed Relation message.  Inside a streamed transaction the header
/// carries an XID first; the session flag decides, since the wire does
/// not.
pub open spec fn spec_relation(s: Seq<u8>, in_streaming_txn: bool) -> Option<(MessageV, int)> {
    let min: int = if in_streaming_txn {
        11
    } else {
        7
    };
    if s.len() - 1 < min {
        None
    } else {
        let i: int = if in_streaming_txn {
            5
        } else {
            1
        };
        let oid = be_u32_at(s, i);
        match spec_cstr(s, i + 4) {
            Some((namespace, j1)) => match spec_cstr(s, j1) {
                Some((name, j2)) => {
                    if j2 + 3 > s.len() {
                        None
                    } else {
                        let ri = s[j2] as char;
                        let cc = be_u16_at(s, j2 + 1) as i16;
                        let n: nat = if cc < 0 {
                            0
                        } else {
                            cc as nat
                        };
                        match spec_columns(s, j2 + 3, n) {
                            Some((cols, end)) => Some(
                                (
                                    MessageV::Relation {
                                        relation: RelationInfoV {
                                            oid: oid,
                                            namespace: namespace,
                                            relation_name: name,
                                            replica_identity: ri,
                                            column_count: cc,
                                            columns: cols,
                                        },
                                    },
                                    end,
                                ),
                            ),
                            None => None,
                        }
                    }
                },
                None => None,
            },
            None => None,
        }
    }
}

/// A parsed Insert message.  Non-streaming when the byte after the first
/// `u32` is the `'N'` new-tuple marker; otherwise the first `u32` is the
/// XID and a second `u32` carries the relation OID.
pub open spec fn spec_insert(s: Seq<u8>) -> Option<(MessageV, int)> {
    if s.len() - 1 < 5 {
        None
    } else {
        let first = be_u32_at(s, 1);
        let streaming = s[5] != 'N' as u8;
        let p: int = if streaming {
            9
        } else {
            5
        };
        if streaming && s.len() < 9 {
            None
        } else if p >= s.len() {
            None
        } else if s[p] != 'N' as u8 {
            None
        } else {
            let rel = if streaming {
                be_u32_at(s, 5)
            } else {
                first
            };
            match spec_tuple(s, p + 1) {
                Some((t, end)) => Some(
                    (
                        MessageV::Insert {
                            relation_id: rel,
                            tuple_data: t,
                            is_stream: streaming,
                            xid: if streaming {
                                Some(first)
                            } else {
                                None
                            },
                        },
                        end,
                    ),
                ),
                None => None,
            }
        }
    }
}

/// A parsed Update message.  Non-streaming when the byte after the first
/// `u32` is a `'K'`, `'O'`, or `'N'` marker; a `'K'` or `'O'` tuple is
/// the old row and must be followed by the `'N'` new row.
pub open spec fn spec_update(s: Seq<u8>) -> Option<(MessageV, int)> {
    if s.len() - 1 < 5 {
        None
    } else {
        let first = be_u32_at(s, 1);
        let streaming = !(s[5] == 'K' as u8 || s[5] == 'O' as u8 || s[5] == 'N' as u8);
        let p: int = if streaming {
            9
        } else {
            5
        };
        if streaming && s.len() < 9 {
            None
        } else if p >= s.len() {
            None
        } else {
            let rel = if streaming {
                be_u32_at(s, 5)
            } else {
                first
            };
            let xid = if streaming {
                Some(first)
            } else {
                None
            };
            let marker = s[p] as char;
            if marker == 'K' || marker == 'O' {
                match spec_tuple(s, p + 1) {
                    Some((oldt, q)) => {
                        if q >= s.len() {
                            None
                        } else if s[q] != 'N' as u8 {
                            None
                        } else {
                            match spec_tuple(s, q + 1) {
                                Some((newt, end)) => Some(
                                    (
                                        MessageV::Update {
                                            relation_id: rel,
                                            key_type: Some(marker),
                                            old_tuple_data: Some(oldt),
                                            new_tuple_data: newt,
                                            is_stream: streaming,
                                            xid: xid,
                                        },
                                        end,
                                    ),
                                ),
                                None => None,
                            }
                        }
                    },
                    None => None,
                }
            } else if marker == 'N' {
                match spec_tuple(s, p + 1) {
                    Some((newt, end)) => Some(
                        (
                            MessageV::Update {
                                relation_id: rel,
                                key_type: None,
                                old_tuple_data: None,
                                new_tuple_data: newt,
                                is_stream: streaming,
                                xid: xid,
                            },
                            end,
                        ),
                    ),
                    None => None,
                }
            } else {
                None
            }
        }
    }
}

/// A parsed Delete message.  Non-streaming when the byte after the first
/// `u32` is the `'K'` or `'O'` key-type marker.
pub open spec fn spec_delete(s: Seq<u8>) -> Option<(MessageV, int)> {
    if s.len() - 1 < 5 {
        None
    } else {
        let first = be_u32_at(s, 1);
        let streaming = !(s[5] == 'K' as u8 || s[5] == 'O' as u8);
        if streaming && s.len() < 9 {
            None
        } else {
            let kp: int = if streaming {
                9
            } else {
                5
            };
            if kp >= s.len() {
                None
            } else {
                let rel = if streaming {
                    be_u32_at(s, 5)
                } else {
                    first
                };
                let xid = if streaming {
                    Some(first)
                } else {
                    None
                };
                let key_type = s[kp] as char;
                match spec_tuple(s, kp + 1) {
                    Some((t, end)) => Some(
                        (
                            MessageV::Delete {
                                relation_id: rel,
                                key_type: key_type,
                                tuple_data: t,
                                is_stream: streaming,
                                xid: xid,
                            },
                            end,
                        ),
                    ),
                    None => None,
                }
            }
        }
    }
}

/// A parsed run of `n` relation OIDs at offset `i`.
pub open spec fn spec_rel_ids(s: Seq<u8>, i: int, n: nat) -> Option<(Seq<u32>, int)>
    decreases n,
{
    if n == 0 {
        Some((Seq::<u32>::empty(), i))
    } else if s.len() - i < 4 {
        None
    } else {
        match spec_rel_ids(s, i + 4, (n - 1) as nat) {
            Some((rest, end)) => Some((seq![be_u32_at(s, i)] + rest, end)),
            None => None,
        }
    }
}

/// A parsed Truncate message.  The header has no marker: when the bytes
/// remaining after the two leading `u32`s are exactly one flags octet
/// plus four bytes per relation counted by the second `u32`, the message
/// is streaming (first `u32` is the XID); otherwise the first `u32` is
/// the relation count and the second is re-read as the flags octet.
pub open spec fn spec_truncate(s: Seq<u8>) -> Option<(MessageV, int)> {
    if s.len() - 1 < 9 {
        None
    } else {
        let first = be_u32_at(s, 1);
        let second = be_u32_at(s, 5);
        let streaming = s.len() - 9 == 1 + 4 * second;
        let p: int = if streaming {
            9
        } else {
            5
        };
        let nrel: u32 = if streaming {
            second
        } else {
            first
        };
        let flags = s[p] as i8;
        match spec_rel_ids(s, p + 1, nrel as nat) {
            Some((ids, end)) => Some(
                (
                    MessageV::Truncate {
                        relation_ids: ids,
                        flags: flags,
                        is_stream: streaming,
                        xid: if streaming {
                            Some(first)
                        } else {
                            None
                        },
                    },
                    end,
                ),
            ),
            None => None,
        }
    }
}

/// A parsed StreamStart message: the XID and an optional first-segment
/// octet; when the octet is missing the segment is not the first.
pub open spec fn spec_stream_start(s: Seq<u8>) -> Option<(MessageV, int)> {
    if s.len() - 1 < 4 {
        None
    } else {
        let first_segment = s.len() >= 6 && s[5] == 1;
        let end: int = if s.len() >= 6 {
            6
        } else {
            5
        };
        Some((MessageV::StreamStart { xid: be_u32_at(s, 1), first_segment: first_segment }, end))
    }
}

/// A parsed StreamCommit message.
pub open spec fn spec_stream_commit(s: Seq<u8>) -> Option<(MessageV, int)> {
    if s.len() - 1 < 29 {
        None
    } else {
        Some(
            (
                MessageV::StreamCommit {
                    xid: be_u32_at(s, 1),
                    flags: s[5],
                    commit_lsn: be_u64_at(s, 6),
                    end_lsn: be_u64_at(s, 14),
                    timestamp: be_u64_at(s, 22) as i64,
                },
                30,
            ),
        )
    }
}

/// A parsed StreamAbort message: the XID and the aborted subtransaction.
pub open spec fn spec_stream_abort(s: Seq<u8>) -> Option<(MessageV, int)> {
    if s.len() - 1 < 8 {
        None
    } else {
        Some(
            (
                MessageV::StreamAbort {
                    xid: be_u32_at(s, 1),
                    subtransaction_xid: be_u32_at(s, 5),
                },
                9,
            ),
        )
    }
}

/// The whole grammar: what a replication message buffer decodes to, and
/// how many of its leading bytes the decoder consumes.  `None` is a
/// rejected buffer.  Only the `'R'` arm reads the session's streaming
/// flag.
pub open spec fn spec_parse(s: Seq<u8>, in_streaming_txn: bool) -> Option<(MessageV, int)> {
    if s.len() < 1 {
        None
    } else {
        let tag = s[0] as char;
        if tag == 'B' {
            spec_begin(s)
        } else if tag == 'C' {
            spec_commit(s)
        } else if tag == 'R' {
            spec_relation(s, in_streaming_txn)
        } else if tag == 'I' {
            spec_insert(s)
        } else if tag == 'U' {
            spec_update(s)
        } else if tag == 'D' {
            spec_delete(s)
        } else if tag == 'T' {
            spec_truncate(s)
        } else if tag == 'S' {
            spec_stream_start(s)
        } else if tag == 'E' {
            Some((MessageV::StreamStop, 1))
        } else if tag == 'c' {
            spec_stream_commit(s)
        } else if tag == 'A' {
            spec_stream_abort(s)
        } else {
            None
        }
    }
}

/// Parses logical replication messages from a buffer.
pub struct MessageParser;

impl MessageParser {
    /// Decode one replication message.  The result is exactly what
    /// `spec_parse` assigns to the buffer: the decoded variant where the
    /// buffer is well formed, and a `Parse` error where it is not.
    pub fn parse_wal_message(buffer: &[u8], in_streaming_txn: bool) -> (r: Result<
        ReplicationMessage,
        ReplicationError,
    >)
        ensures
            match spec_parse(buffer@, in_streaming_txn) {
                Some((m, n)) => r matches Ok(msg) && msg@ == m,
                None => r matches Err(e) && e is Parse,
            },
    {
        let mut reader = BufferReader::new(buffer);
        let message_type = match reader.skip_message_type() {
            Ok(c) => c,
            Err(e) => {
                return Err(e);
            },
        };
        match message_type {
            'B' => Self::parse_begin_message(&mut reader),
            'C' => Self::parse_commit_message(&mut reader),
            'R' => Self::parse_relation_message(&mut reader, in_streaming_txn),
            'I' => Self::parse_insert_message(&mut reader),
            'U' => Self::parse_update_message(&mut reader),
            'D' => Self::parse_delete_message(&mut reader),
            'T' => Self::parse_truncate_message(&mut reader),
            'S' => Self::parse_stream_start_message(&mut reader),
            'E' => Self::parse_stream_stop_message(&mut reader),
            'c' => Self::parse_stream_commit_message(&mut reader),
            'A' => Self::parse_stream_abort_message(&mut reader),
            _ => Err(
                ReplicationError::parse_with_context(
                    "Unknown message type",
                    message_type as u64,
                ),
            ),
        }
    }

    fn parse_begin_message(reader: &mut BufferReader) -> (r: Result<
        ReplicationMessage,
        ReplicationError,
    >)
        requires
            old(reader).wf(),
            old(reader).pos == 1,
        ensures
            match spec_begin(old(reader).data@) {
                Some((m, n)) => r matches Ok(msg) && msg@ == m,
                None => r matches Err(e) && e is Parse,
            },
    {
        if !reader.has_bytes(20) {
            return Err(ReplicationError::parse("Begin message too short"));
        }
        let final_lsn = match reader.read_u64() {
            Ok(v) => v,
            Err(e) => {
                return Err(e);
            },
        };
        let timestamp = match reader.read_i64() {
            Ok(v) => v,
            Err(e) => {
                return Err(e);
            },
        };
        let xid = match reader.read_u32() {
            Ok(v) => v,
            Err(e) => {
                return Err(e);
            },
        };
        Ok(ReplicationMessage::Begin { final_lsn, timestamp, xid })
    }

    fn parse_commit_message(reader: &mut BufferReader) -> (r: Result<
        ReplicationMessage,
        ReplicationError,
    >)
        requires
            old(reader).wf(),
            old(reader).pos == 1,
        ensures
            match spec_commit(old(reader).data@) {
                Some((m, n)) => r matches Ok(msg) && msg@ == m,
                None => r matches Err(e) && e is Parse,
            },
    {
        if !reader.has_bytes(25) {
            return Err(ReplicationError::parse("Commit message too short"));
        }
        let flags = match reader.read_u8() {
            Ok(v) => v,
            Err(e) => {
                return Err(e);
            },
        };
        let commit_lsn = match reader.read_u64() {
            Ok(v) => v,
            Err(e) => {
                return Err(e);
            },
        };
        let end_lsn = match reader.read_u64() {
            Ok(v) => v,
            Err(e) => {
                return Err(e);
            },
        };
        let timestamp = match reader.read_i64() {
            Ok(v) => v,
            Err(e) => {
                return Err(e);
            },
        };
        Ok(ReplicationMessage::Commit { flags, commit_lsn, end_lsn, timestamp })
    }

    fn parse_stream_start_message(reader: &mut BufferReader) -> (r: Result<
        ReplicationMessage,
        ReplicationError,
    >)
        requires
            old(reader).wf(),
            old(reader).pos == 1,
        ensures
            match spec_stream_start(old(reader).data@) {
                Some((m, n)) => r matches Ok(msg) && msg@ == m,
                None => r matches Err(e) && e is Parse,
            },
    {
        if !reader.has_bytes(4) {
            return Err(ReplicationError::parse("Stream start message too short"));
        }
        let xid = match reader.read_u32() {
            Ok(v) => v,
            Err(e) => {
                return Err(e);
            },
        };
        let first_segment = if reader.has_bytes(1) {
            let b = match reader.read_u8() {
                Ok(v) => v,
                Err(e) => {
                    return Err(e);
                },
            };
            b == 1
        } else {
            false
        };
        Ok(ReplicationMessage::StreamStart { xid, first_segment })
    }

    fn parse_stream_stop_message(reader: &mut BufferReader) -> (r: Result<
        ReplicationMessage,
        ReplicationError,
    >)
        requires
            old(reader).wf(),
        ensures
            r matches Ok(msg) && msg@ == MessageV::StreamStop,
    {
        Ok(ReplicationMessage::StreamStop)
    }

    fn parse_stream_commit_message(reader: &mut BufferReader) -> (r: Result<
        ReplicationMessage,
        ReplicationError,
    >)
        requires
            old(reader).wf(),
            old(reader).pos == 1,
        ensures
            match spec_stream_commit(old(reader).data@) {
                Some((m, n)) => r matches Ok(msg) && msg@ == m,
                None => r matches Err(e) && e is Parse,
            },
    {
        if !reader.has_bytes(29) {
            return Err(ReplicationError::parse("Stream commit message too short"));
        }
        let xid = match reader.read_u32() {
            Ok(v) => v,
            Err(e) => {
                return Err(e);
            },
        };
        let flags = match reader.read_u8() {
            Ok(v) => v,
            Err(e) => {
                return Err(e);
            },
        };
        let commit_lsn = match reader.read_u64() {
            Ok(v) => v,
            Err(e) => {
                return Err(e);
            },
        };
        let end_lsn = match reader.read_u64() {
            Ok(v) => v,
            Err(e) => {
                return Err(e);
            },
        };
        let timestamp = match reader.read_i64() {
            Ok(v) => v,
            Err(e) => {
                return Err(e);
            },
        };
        Ok(ReplicationMessage::StreamCommit { xid, flags, commit_lsn, end_lsn, timestamp })
    }

    fn parse_stream_abort_message(reader: &mut BufferReader) -> (r: Result<
        ReplicationMessage,
        ReplicationError,
    >)
        requires
            old(reader).wf(),
            old(reader).pos == 1,
        ensures
            match spec_stream_abort(old(reader).data@) {
                Some((m, n)) => r matches Ok(msg) && msg@ == m,
                None => r matches Err(e) && e is Parse,
            },
    {
        if !reader.has_bytes(8) {
            return Err(ReplicationError::parse("Stream abort message too short"));
        }
        let xid = match reader.read_u32() {
            Ok(v) => v,
            Err(e) => {
                return Err(e);
            },
        };
        let subtransaction_xid = match reader.read_u32() {
            Ok(v) => v,
            Err(e) => {
                return Err(e);
            },
        };
        Ok(ReplicationMessage::StreamAbort { xid, subtransaction_xid })
    }

    /// Decode a tuple at the reader's position: an `i16` column count
    /// then one tagged datum per column, exactly as `spec_tuple` says.
    #[verifier::loop_isolation(false)]
    pub fn parse_tuple_data(reader: &mut BufferReader) -> (r: Result<TupleData, ReplicationError>)
        requires
            old(reader).wf(),
        ensures
            final(reader).data == old(reader).data,
            final(reader).wf(),
            match spec_tuple(old(reader).data@, old(reader).pos as int) {
                Some((t, end)) => r matches Ok(td) && td@ == t && final(reader).pos == end,
                None => r matches Err(e) && e is Parse,
            },
    {
        let ghost s = reader.data@;
        if !reader.has_bytes(2) {
            return Err(ReplicationError::parse("Tuple data too short"));
        }
        let start_position = reader.position();
        let column_count = match reader.read_i16() {
            Ok(v) => v,
            Err(e) => {
                return Err(e);
            },
        };
        let count: u16 = if column_count < 0 {
            0
        } else {
            column_count as u16
        };
        let ghost n0: nat = count as nat;
        let ghost datums_start = reader.pos as int;
        let mut columns: Vec<ColumnData> = Vec::new();
        let mut idx: u16 = 0;
        while idx < count
            invariant
                reader.wf(),
                reader.data@ == s,
                idx <= count,
                datums_start <= reader.pos,
                ({
                    let cur = spec_datums(s, reader.pos as int, (count - idx) as nat);
                    let total = spec_datums(s, datums_start, n0);
                    match cur {
                        Some((rest, end)) => total == Some(
                            (columns@.map_values(|c: ColumnData| c@) + rest, end),
                        ),
                        None => total is None,
                    }
                }),
            decreases count - idx,
        {
            let ghost pos_here = reader.pos as int;
            let ghost done = columns@.map_values(|c: ColumnData| c@);
            if !reader.has_bytes(1) {
                return Err(
                    ReplicationError::parse_with_context("Tuple data truncated", idx as u64 + 1),
                );
            }
            let data_type = match reader.read_u8() {
                Ok(v) => v,
                Err(e) => {
                    return Err(e);
                },
            };
            let column_data: ColumnData = if data_type == 110 {
                // 'n': SQL NULL
                ColumnData { data_type: 'n', length: 0, data: String::new() }
            } else if data_type == 117 {
                // 'u': unchanged TOAST value
                ColumnData { data_type: 'u', length: 0, data: String::new() }
            } else if data_type == 116 {
                // 't': length-prefixed text
                let before = reader.position();
                let text = match reader.read_length_prefixed_string() {
                    Ok(v) => v,
                    Err(e) => {
                        return Err(e);
                    },
                };
                let len_bytes = reader.position() - before - 4;
                ColumnData { data_type: 't', length: len_bytes as i32, data: text }
            } else {
                return Err(
                    ReplicationError::parse_with_context(
                        "Unknown tuple data type",
                        data_type as u64,
                    ),
                );
            };
            proof {
                let d = column_data@;
                let cur2 = spec_datums(s, reader.pos as int, (count - (idx + 1)) as nat);
                match cur2 {
                    Some((rest2, end)) => {
                        assert(done.push(d) =~= done + seq![d]);
                        assert((done + seq![d]) + rest2 =~= done + (seq![d] + rest2));
                    },
                    None => {},
                }
            }
            columns.push(column_data);
            idx = idx + 1;
        }
        proof {
            let done = columns@.map_values(|c: ColumnData| c@);
            assert(done + Seq::<ColumnDataV>::empty() =~= done);
        }
        let processed_length = reader.position() - start_position;
        Ok(TupleData { column_count, columns, processed_length })
    }

    fn parse_insert_message(reader: &mut BufferReader) -> (r: Result<
        ReplicationMessage,
        ReplicationError,
    >)
        requires
            old(reader).wf(),
            old(reader).pos == 1,
        ensures
            match spec_insert(old(reader).data@) {
                Some((m, n)) => r matches Ok(msg) && msg@ == m,
                None => r matches Err(e) && e is Parse,
            },
    {
        if !reader.has_bytes(5) {
            return Err(ReplicationError::parse("Insert message too short"));
        }
        let transaction_id_or_oid = match reader.read_u32() {
            Ok(v) => v,
            Err(e) => {
                return Err(e);
            },
        };
        let next = match reader.peek_u8() {
            Ok(v) => v,
            Err(e) => {
                return Err(e);
            },
        };
        let (relation_id, is_stream, xid) = if next == 78 {
            // 'N': not a streaming transaction
            (transaction_id_or_oid, false, None)
        } else {
            let relation_id = match reader.read_u32() {
                Ok(v) => v,
                Err(e) => {
                    return Err(e);
                },
            };
            (relation_id, true, Some(transaction_id_or_oid))
        };
        let marker = match reader.read_u8() {
            Ok(v) => v,
            Err(e) => {
                return Err(e);
            },
        };
        if marker != 78 {
            return Err(
                ReplicationError::parse_with_context(
                    "Expected 'N' marker in insert message",
                    marker as u64,
                ),
            );
        }
        let tuple_data = match Self::parse_tuple_data(reader) {
            Ok(v) => v,
            Err(e) => {
                return Err(e);
            },
        };
        Ok(ReplicationMessage::Insert { relation_id, tuple_data, is_stream, xid })
    }

    fn parse_update_message(reader: &mut BufferReader) -> (r: Result<
        ReplicationMessage,
        ReplicationError,
    >)
        requires
            old(reader).wf(),
            old(reader).pos == 1,
        ensures
            match spec_update(old(reader).data@) {
                Some((m, n)) => r matches Ok(msg) && msg@ == m,
                None => r matches Err(e) && e is Parse,
            },
    {
        if !reader.has_bytes(5) {
            return Err(ReplicationError::parse("Update message too short"));
        }
        let transaction_id_or_oid = match reader.read_u32() {
            Ok(v) => v,
            Err(e) => {
                return Err(e);
            },
        };
        let next_byte = match reader.peek_u8() {
            Ok(v) => v,
            Err(e) => {
                return Err(e);
            },
        };
        let (relation_id, is_stream, xid) = if next_byte == 75 || next_byte == 79 || next_byte
            == 78 {
            // 'K', 'O', or 'N': not a streaming transaction
            (transaction_id_or_oid, false, None)
        } else {
            let relation_id = match reader.read_u32() {
                Ok(v) => v,
                Err(e) => {
                    return Err(e);
                },
            };
            (relation_id, true, Some(transaction_id_or_oid))
        };
        let marker_byte = match reader.read_u8() {
            Ok(v) => v,
            Err(e) => {
                return Err(e);
            },
        };
        let marker = marker_byte as char;
        let (key_type, old_tuple_data): (Option<char>, Option<TupleData>) = if marker == 'K'
            || marker == 'O' {
            let tuple_data = match Self::parse_tuple_data(reader) {
                Ok(v) => v,
                Err(e) => {
                    return Err(e);
                },
            };
            let new_marker = match reader.read_u8() {
                Ok(v) => v,
                Err(e) => {
                    return Err(e);
                },
            };
            if new_marker != 78 {
                return Err(
                    ReplicationError::parse_with_context(
                        "Expected 'N' marker after old tuple data",
                        new_marker as u64,
                    ),
                );
            }
            (Some(marker), Some(tuple_data))
        } else if marker == 'N' {
            (None, None)
        } else {
            return Err(
                ReplicationError::parse_with_context(
                    "Invalid marker in update message",
                    marker_byte as u64,
                ),
            );
        };
        let new_tuple_data = match Self::parse_tuple_data(reader) {
            Ok(v) => v,
            Err(e) => {
                return Err(e);
            },
        };
        Ok(
            ReplicationMessage::Update {
                relation_id,
                key_type,
                old_tuple_data,
                new_tuple_data,
                is_stream,
                xid,
            },
        )
    }

    fn parse_delete_message(reader: &mut BufferReader) -> (r: Result<
        ReplicationMessage,
        ReplicationError,
    >)
        requires
            old(reader).wf(),
            old(reader).pos == 1,
        ensures
            match spec_delete(old(reader).data@) {
                Some((m, n)) => r matches Ok(msg) && msg@ == m,
                None => r matches Err(e) && e is Parse,
            },
    {
        if !reader.has_bytes(5) {
            return Err(ReplicationError::parse("Delete message too short"));
        }
        let transaction_id_or_oid = match reader.read_u32() {
            Ok(v) => v,
            Err(e) => {
                return Err(e);
            },
        };
        let next_byte = match reader.peek_u8() {
            Ok(v) => v,
            Err(e) => {
                return Err(e);
            },
        };
        let (relation_id, is_stream, xid, key_type) = if next_byte == 75 || next_byte == 79 {
            // 'K' or 'O': not a streaming transaction
            let key_byte = match reader.read_u8() {
                Ok(v) => v,
                Err(e) => {
                    return Err(e);
                },
            };
            (transaction_id_or_oid, false, None, key_byte as char)
        } else {
            let relation_id = match reader.read_u32() {
                Ok(v) => v,
                Err(e) => {
                    return Err(e);
                },
            };
            let key_byte = match reader.read_u8() {
                Ok(v) => v,
                Err(e) => {
                    return Err(e);
                },
            };
            (relation_id, true, Some(transaction_id_or_oid), key_byte as char)
        };
        let tuple_data = match Self::parse_tuple_data(reader) {
            Ok(v) => v,
            Err(e) => {
                return Err(e);
            },
        };
        Ok(ReplicationMessage::Delete { relation_id, key_type, tuple_data, is_stream, xid })
    }

    #[verifier::loop_isolation(false)]
    fn parse_truncate_message(reader: &mut BufferReader) -> (r: Result<
        ReplicationMessage,
        ReplicationError,
    >)
        requires
            old(reader).wf(),
            old(reader).pos == 1,
        ensures
            match spec_truncate(old(reader).data@) {
                Some((m, n)) => r matches Ok(msg) && msg@ == m,
                None => r matches Err(e) && e is Parse,
            },
    {
        let ghost s = reader.data@;
        if !reader.has_bytes(9) {
            return Err(ReplicationError::parse("Truncate message too short"));
        }
        let first_u32 = match reader.read_u32() {
            Ok(v) => v,
            Err(e) => {
                return Err(e);
            },
        };
        let second_u32 = match reader.read_u32() {
            Ok(v) => v,
            Err(e) => {
                return Err(e);
            },
        };
        let remaining_bytes = reader.remaining();
        // One flags octet plus four bytes per relation counted by the
        // second word: only then is this the streaming form.
        let expected_for_streaming: u64 = 1 + (second_u32 as u64) * 4;
        let (is_stream, xid, num_relations) = if remaining_bytes as u64 == expected_for_streaming {
            (true, Some(first_u32), second_u32)
        } else {
            let current_pos = reader.position();
            match reader.set_position(current_pos - 4) {
                Ok(()) => {},
                Err(e) => {
                    return Err(e);
                },
            };
            (false, None, first_u32)
        };
        let flags_byte = match reader.read_u8() {
            Ok(v) => v,
            Err(e) => {
                return Err(e);
            },
        };
        #[verifier::truncate]
        let flags = flags_byte as i8;
        let ghost ids_start = reader.pos as int;
        let ghost n0: nat = num_relations as nat;
        let mut relation_ids: Vec<u32> = Vec::new();
        let mut idx: u32 = 0;
        while idx < num_relations
            invariant
                reader.wf(),
                reader.data@ == s,
                idx <= num_relations,
                ({
                    let cur = spec_rel_ids(s, reader.pos as int, (num_relations - idx) as nat);
                    let total = spec_rel_ids(s, ids_start, n0);
                    match cur {
                        Some((rest, end)) => total == Some((relation_ids@ + rest, end)),
                        None => total is None,
                    }
                }),
            decreases num_relations - idx,
        {
            let ghost done = relation_ids@;
            if !reader.has_bytes(4) {
                return Err(
                    ReplicationError::parse_with_context(
                        "Truncate relation IDs truncated",
                        idx as u64 + 1,
                    ),
                );
            }
            let relation_id = match reader.read_u32() {
                Ok(v) => v,
                Err(e) => {
                    return Err(e);
                },
            };
            proof {
                let cur2 = spec_rel_ids(s, reader.pos as int, (num_relations - (idx + 1)) as nat);
                match cur2 {
                    Some((rest2, end)) => {
                        assert(done.push(relation_id) =~= done + seq![relation_id]);
                        assert((done + seq![relation_id]) + rest2 =~= done + (seq![relation_id]
                            + rest2));
                    },
                    None => {},
                }
            }
            relation_ids.push(relation_id);
            idx = idx + 1;
        }
        proof {
            assert(relation_ids@ + Seq::<u32>::empty() =~= relation_ids@);
        }
        Ok(ReplicationMessage::Truncate { relation_ids, flags, is_stream, xid })
    }

    #[verifier::loop_isolation(false)]
    fn parse_relation_message(reader: &mut BufferReader, in_streaming_txn: bool) -> (r: Result<
        ReplicationMessage,
        ReplicationError,
    >)
        requires
            old(reader).wf(),
            old(reader).pos == 1,
        ensures
            match spec_relation(old(reader).data@, in_streaming_txn) {
                Some((m, n)) => r matches Ok(msg) && msg@ == m,
                None => r matches Err(e) && e is Parse,
            },
    {
        let ghost s = reader.data@;
        let min_bytes: usize = if in_streaming_txn {
            11
        } else {
            7
        };
        if !reader.has_bytes(min_bytes) {
            return Err(ReplicationError::parse("Relation message too short"));
        }
        if in_streaming_txn {
            // The streamed form carries the transaction id first; it is
            // not part of the descriptor.
            match reader.read_u32() {
                Ok(v) => v,
                Err(e) => {
                    return Err(e);
                },
            };
        }
        let oid = match reader.read_u32() {
            Ok(v) => v,
            Err(e) => {
                return Err(e);
            },
        };
        let namespace = match reader.read_null_terminated_string() {
            Ok(v) => v,
            Err(e) => {
                return Err(e);
            },
        };
        let relation_name = match reader.read_null_terminated_string() {
            Ok(v) => v,
            Err(e) => {
                return Err(e);
            },
        };
        let ri_byte = match reader.read_u8() {
            Ok(v) => v,
            Err(e) => {
                return Err(e);
            },
        };
        let replica_identity = ri_byte as char;
        let column_count = match reader.read_i16() {
            Ok(v) => v,
            Err(e) => {
                return Err(e);
            },
        };
        let count: u16 = if column_count < 0 {
            0
        } else {
            column_count as u16
        };
        let ghost n0: nat = count as nat;
        let ghost cols_start = reader.pos as int;
        let mut columns: Vec<ColumnInfo> = Vec::new();
        let mut idx: u16 = 0;
        while idx < count
            invariant
                reader.wf(),
                reader.data@ == s,
                idx <= count,
                ({
                    let cur = spec_columns(s, reader.pos as int, (count - idx) as nat);
                    let total = spec_columns(s, cols_start, n0);
                    match cur {
                        Some((rest, end)) => total == Some(
                            (columns@.map_values(|c: ColumnInfo| c@) + rest, end),
                        ),
                        None => total is None,
                    }
                }),
            decreases count - idx,
        {
            let ghost done = columns@.map_values(|c: ColumnInfo| c@);
            if !reader.has_bytes(9) {
                return Err(
                    ReplicationError::parse_with_context("Column data truncated", idx as u64 + 1),
                );
            }
            let kf_byte = match reader.read_u8() {
                Ok(v) => v,
                Err(e) => {
                    return Err(e);
                },
            };
            #[verifier::truncate]
            let key_flag = kf_byte as i8;
            let column_name = match reader.read_null_terminated_string() {
                Ok(v) => v,
                Err(e) => {
                    return Err(e);
                },
            };
            let column_type = match reader.read_u32() {
                Ok(v) => v,
                Err(e) => {
                    return Err(e);
                },
            };
            let atttypmod = match reader.read_i32() {
                Ok(v) => v,
                Err(e) => {
                    return Err(e);
                },
            };
            let column = ColumnInfo { key_flag, column_name, column_type, atttypmod };
            proof {
                let c = column@;
                let cur2 = spec_columns(s, reader.pos as int, (count - (idx + 1)) as nat);
                match cur2 {
                    Some((rest2, end)) => {
                        assert(done.push(c) =~= done + seq![c]);
                        assert((done + seq![c]) + rest2 =~= done + (seq![c] + rest2));
                    },
                    None => {},
                }
            }
            columns.push(column);
            idx = idx + 1;
        }
        proof {
            let done = columns@.map_values(|c: ColumnInfo| c@);
            assert(done + Seq::<ColumnInfoV>::empty() =~= done);
        }
        let relation = RelationInfo {
            oid,
            namespace,
            relation_name,
            replica_identity,
            column_count,
            columns,
        };
        Ok(ReplicationMessage::Relation { relation })
    }
}

/// How many leading bytes a successful parse consumes.
pub open spec fn spec_consumed(s: Seq<u8>, f: bool) -> int {
    match spec_parse(s, f) {
        Some((m, n)) => n,
        None => 0,
    }
}

/// The streaming disambiguation never reads the session flag: for every
/// buffer whose tag is not `'R'`, both flag values parse alike.
pub proof fn lemma_parse_flag_independent(s: Seq<u8>, f1: bool, f2: bool)
    requires
        s.len() == 0 || s[0] != 'R' as u8,
    ensures
        spec_parse(s, f1) == spec_parse(s, f2),
{
}

/// Streaming disambiguation of Insert: decided by the byte after the
/// first `u32` alone.  Non-streaming carries the relation OID first and
/// no XID; streaming carries the XID first and the OID second.
pub proof fn lemma_insert_disambiguation(s: Seq<u8>, f: bool)
    requires
        s.len() > 0,
        s[0] == 'I' as u8,
    ensures
        spec_parse(s, f) matches Some((m, n)) ==> {
            &&& m matches MessageV::Insert { relation_id, is_stream, xid, .. } && {
                &&& is_stream == (s[5] != 'N' as u8)
                &&& !is_stream ==> relation_id == be_u32_at(s, 1) && xid is None
                &&& is_stream ==> relation_id == be_u32_at(s, 5) && xid == Some(be_u32_at(s, 1))
            }
        },
{
}

/// Streaming disambiguation of Update: decided by whether the byte
/// after the first `u32` is one of the tuple markers `'K'`, `'O'`,
/// `'N'`.
pub proof fn lemma_update_disambiguation(s: Seq<u8>, f: bool)
    requires
        s.len() > 0,
        s[0] == 'U' as u8,
    ensures
        spec_parse(s, f) matches Some((m, n)) ==> {
            &&& m matches MessageV::Update { relation_id, is_stream, xid, .. } && {
                &&& is_stream == !(s[5] == 'K' as u8 || s[5] == 'O' as u8 || s[5] == 'N' as u8)
                &&& !is_stream ==> relation_id == be_u32_at(s, 1) && xid is None
                &&& is_stream ==> relation_id == be_u32_at(s, 5) && xid == Some(be_u32_at(s, 1))
            }
        },
{
}

/// Streaming disambiguation of Delete: decided by whether the byte
/// after the first `u32` is one of the key-type markers `'K'`, `'O'`.
pub proof fn lemma_delete_disambiguation(s: Seq<u8>, f: bool)
    requires
        s.len() > 0,
        s[0] == 'D' as u8,
    ensures
        spec_parse(s, f) matches Some((m, n)) ==> {
            &&& m matches MessageV::Delete { relation_id, is_stream, xid, .. } && {
                &&& is_stream == !(s[5] == 'K' as u8 || s[5] == 'O' as u8)
                &&& !is_stream ==> relation_id == be_u32_at(s, 1) && xid is None
                &&& is_stream ==> relation_id == be_u32_at(s, 5) && xid == Some(be_u32_at(s, 1))
            }
        },
{
}

/// A found null-terminated string lies inside the buffer.
proof fn lemma_cstr_bounds(s: Seq<u8>, i: int)
    requires
        0 <= i <= s.len(),
    ensures
        spec_cstr(s, i) matches Some((cs, end)) ==> i < end <= s.len(),
{
    if find_nul(s, i) >= 0 {
        crate::wire::lemma_find_nul_found(s, i);
    }
}

/// A parsed datum run stays inside the buffer and yields one datum per
/// column.
proof fn lemma_datums_bounds(s: Seq<u8>, i: int, n: nat)
    requires
        0 <= i <= s.len(),
    ensures
        spec_datums(s, i, n) matches Some((ds, end)) ==> i <= end <= s.len() && ds.len() == n
            && (n > 0 ==> i < end),
    decreases n,
{
    if n > 0 && i < s.len() {
        if s[i] == 'n' as u8 || s[i] == 'u' as u8 {
            lemma_datums_bounds(s, i + 1, (n - 1) as nat);
        } else if s[i] == 't' as u8 {
            match spec_lp_string(s, i + 1) {
                Some((cs, e1)) => {
                    lemma_datums_bounds(s, e1, (n - 1) as nat);
                },
                None => {},
            }
        }
    }
}

/// A parsed column run stays inside the buffer.
proof fn lemma_columns_bounds(s: Seq<u8>, i: int, n: nat)
    requires
        0 <= i <= s.len(),
    ensures
        spec_columns(s, i, n) matches Some((cs, end)) ==> i <= end <= s.len() && cs.len() == n
            && (n > 0 ==> i + 9 < end),
    decreases n,
{
    if n > 0 && s.len() - i >= 9 {
        match spec_cstr(s, i + 1) {
            Some((name, j)) => {
                lemma_cstr_bounds(s, i + 1);
                if j + 8 <= s.len() {
                    lemma_columns_bounds(s, j + 8, (n - 1) as nat);
                }
            },
            None => {},
        }
    }
}

/// Cutting the buffer at `k` preserves where the terminator is found, or
/// loses it entirely when it lay at or past the cut.
proof fn lemma_find_nul_prefix(s: Seq<u8>, i: int, k: int)
    requires
        0 <= i <= s.len(),
        0 <= k <= s.len(),
    ensures
        0 <= find_nul(s, i) < k ==> find_nul(s.take(k), i) == find_nul(s, i),
        (find_nul(s, i) == -1 || find_nul(s, i) >= k) ==> find_nul(s.take(k), i) == -1,
    decreases s.len() - i,
{
    if find_nul(s, i) >= 0 {
        crate::wire::lemma_find_nul_found(s, i);
    }
    if i < k {
        if s[i] != 0 {
            lemma_find_nul_prefix(s, i + 1, k);
        }
    }
}

/// A null-terminated string read survives the cut exactly when it ended
/// before it.
proof fn lemma_cstr_prefix(s: Seq<u8>, i: int, k: int)
    requires
        0 <= i <= k <= s.len(),
    ensures
        spec_cstr(s, i) matches Some((cs, end)) ==> {
            &&& (end <= k ==> spec_cstr(s.take(k), i) == spec_cstr(s, i))
            &&& (end > k ==> spec_cstr(s.take(k), i) is None)
        },
{
    match spec_cstr(s, i) {
        Some((cs, end)) => {
            let j = find_nul(s, i);
            crate::wire::lemma_find_nul_found(s, i);
            lemma_find_nul_prefix(s, i, k);
            if end <= k {
                assert(s.take(k).subrange(i, j) =~= s.subrange(i, j));
            }
        },
        None => {},
    }
}

/// A length-prefixed string read survives the cut exactly when it ended
/// before it.
proof fn lemma_lp_prefix(s: Seq<u8>, i: int, k: int)
    requires
        0 <= i <= k <= s.len(),
    ensures
        spec_lp_string(s, i) matches Some((cs, end)) ==> {
            &&& (end <= k ==> spec_lp_string(s.take(k), i) == spec_lp_string(s, i))
            &&& (end > k ==> spec_lp_string(s.take(k), i) is None)
        },
{
    match spec_lp_string(s, i) {
        Some((cs, end)) => {
            if i + 4 <= k {
                assert(be_u32_at(s.take(k), i) == be_u32_at(s, i));
                if end <= k {
                    assert(s.take(k).subrange(i + 4, end) =~= s.subrange(i + 4, end));
                }
            }
        },
        None => {},
    }
}

/// A datum run survives the cut exactly when it ended before it.
proof fn lemma_datums_prefix(s: Seq<u8>, i: int, n: nat, k: int)
    requires
        0 <= i <= s.len(),
        0 <= k <= s.len(),
    ensures
        spec_datums(s, i, n) matches Some((ds, end)) ==> i <= k ==> {
            &&& (end <= k ==> spec_datums(s.take(k), i, n) == spec_datums(s, i, n))
            &&& (end > k ==> spec_datums(s.take(k), i, n) is None)
        },
    decreases n,
{
    match spec_datums(s, i, n) {
        Some((ds, end)) => {
            if i <= k && n > 0 {
                if i < k {
                    if s[i] == 'n' as u8 || s[i] == 'u' as u8 {
                        lemma_datums_bounds(s, i + 1, (n - 1) as nat);
                        lemma_datums_prefix(s, i + 1, (n - 1) as nat, k);
                    } else if s[i] == 't' as u8 {
                        lemma_lp_prefix(s, i + 1, k);
                        match spec_lp_string(s, i + 1) {
                            Some((cs, e1)) => {
                                lemma_datums_bounds(s, e1, (n - 1) as nat);
                                lemma_datums_prefix(s, e1, (n - 1) as nat, k);
                            },
                            None => {},
                        }
                    }
                } else {
                    // i == k: the run consumes at least one byte, so it
                    // cannot fit before the cut.
                    lemma_datums_bounds(s, i, n);
                }
            }
        },
        None => {},
    }
}

/// A tuple read survives the cut exactly when it ended before it.
proof fn lemma_tuple_prefix(s: Seq<u8>, i: int, k: int)
    requires
        0 <= i <= k <= s.len(),
    ensures
        spec_tuple(s, i) matches Some((t, end)) ==> {
            &&& (end <= k ==> spec_tuple(s.take(k), i) == spec_tuple(s, i))
            &&& (end > k ==> spec_tuple(s.take(k), i) is None)
        },
{
    match spec_tuple(s, i) {
        Some((t, end)) => {
            let cc = be_u16_at(s, i) as i16;
            let n: nat = if cc < 0 {
                0
            } else {
                cc as nat
            };
            lemma_datums_bounds(s, i + 2, n);
            if i + 2 <= k {
                assert(be_u16_at(s.take(k), i) == be_u16_at(s, i));
                lemma_datums_prefix(s, i + 2, n, k);
            }
        },
        None => {},
    }
}

/// A column-descriptor run survives the cut exactly when it ended
/// before it.
proof fn lemma_columns_prefix(s: Seq<u8>, i: int, n: nat, k: int)
    requires
        0 <= i <= s.len(),
        0 <= k <= s.len(),
    ensures
        spec_columns(s, i, n) matches Some((cs, end)) ==> i <= k ==> {
            &&& (end <= k ==> spec_columns(s.take(k), i, n) == spec_columns(s, i, n))
            &&& (end > k ==> spec_columns(s.take(k), i, n) is None)
        },
    decreases n,
{
    match spec_columns(s, i, n) {
        Some((cols, end)) => {
            if i <= k && n > 0 {
                lemma_cstr_bounds(s, i + 1);
                match spec_cstr(s, i + 1) {
                    Some((name, j)) => {
                        lemma_columns_bounds(s, j + 8, (n - 1) as nat);
                        if k - i >= 9 {
                            lemma_cstr_prefix(s, i + 1, k);
                            if j + 1 <= k {
                                if j + 8 <= k {
                                    assert(be_u32_at(s.take(k), j) == be_u32_at(s, j));
                                    assert(be_u32_at(s.take(k), j + 4) == be_u32_at(s, j + 4));
                                    lemma_columns_prefix(s, j + 8, (n - 1) as nat, k);
                                }
                            }
                        }
                    },
                    None => {},
                }
            }
        },
        None => {},
    }
}

/// A successful tuple parse stays inside the buffer.
proof fn lemma_tuple_bounds(s: Seq<u8>, i: int)
    requires
        0 <= i <= s.len(),
    ensures
        spec_tuple(s, i) matches Some((t, end)) ==> i + 2 <= end <= s.len(),
{
    match spec_tuple(s, i) {
        Some((t, end)) => {
            let cc = be_u16_at(s, i) as i16;
            let n: nat = if cc < 0 {
                0
            } else {
                cc as nat
            };
            lemma_datums_bounds(s, i + 2, n);
        },
        None => {},
    }
}

/// A Relation message cut strictly inside its bytes is rejected.
#[verifier::spinoff_prover]
proof fn lemma_relation_prefix_rejected(s: Seq<u8>, f: bool, k: int)
    requires
        spec_relation(s, f) is Some,
        1 <= k,
        spec_relation(s, f) matches Some((m, end)) ==> k < end,
    ensures
        spec_relation(s.take(k), f) is None,
{
    let min: int = if f {
        11
    } else {
        7
    };
    let i: int = if f {
        5
    } else {
        1
    };
    lemma_cstr_bounds(s, i + 4);
    match spec_cstr(s, i + 4) {
        Some((ns, j1)) => {
            lemma_cstr_bounds(s, j1);
            match spec_cstr(s, j1) {
                Some((nm, j2)) => {
                    if j2 + 3 <= s.len() {
                        let cc = be_u16_at(s, j2 + 1) as i16;
                        let n: nat = if cc < 0 {
                            0
                        } else {
                            cc as nat
                        };
                        lemma_columns_bounds(s, j2 + 3, n);
                        // now k < end <= s.len()
                        if k - 1 >= min {
                            assert(be_u32_at(s.take(k), i) == be_u32_at(s, i));
                            lemma_cstr_prefix(s, i + 4, k);
                            if j1 <= k {
                                lemma_cstr_prefix(s, j1, k);
                                if j2 + 3 <= k {
                                    assert(be_u16_at(s.take(k), j2 + 1) == be_u16_at(s, j2 + 1));
                                    lemma_columns_prefix(s, j2 + 3, n, k);
                                }
                            }
                        }
                    }
                },
                None => {},
            }
        },
        None => {},
    }
}

/// An Insert message cut strictly inside its bytes is rejected.
#[verifier::spinoff_prover]
proof fn lemma_insert_prefix_rejected(s: Seq<u8>, k: int)
    requires
        spec_insert(s) is Some,
        1 <= k,
        spec_insert(s) matches Some((m, end)) ==> k < end,
    ensures
        spec_insert(s.take(k)) is None,
{
    let streaming = s[5] != 'N' as u8;
    let pm: int = if streaming {
        9
    } else {
        5
    };
    lemma_tuple_bounds(s, pm + 1);
    if k - 1 >= 5 {
        assert(s.take(k)[5] == s[5]);
        if pm < k {
            assert(be_u32_at(s.take(k), 1) == be_u32_at(s, 1));
            if streaming {
                assert(be_u32_at(s.take(k), 5) == be_u32_at(s, 5));
            }
            lemma_tuple_prefix(s, pm + 1, k);
        }
    }
}

/// An Update message cut strictly inside its bytes is rejected.
#[verifier::spinoff_prover]
proof fn lemma_update_prefix_rejected(s: Seq<u8>, k: int)
    requires
        spec_update(s) is Some,
        1 <= k,
        spec_update(s) matches Some((m, end)) ==> k < end,
    ensures
        spec_update(s.take(k)) is None,
{
    let streaming = !(s[5] == 'K' as u8 || s[5] == 'O' as u8 || s[5] == 'N' as u8);
    let pm: int = if streaming {
        9
    } else {
        5
    };
    let marker = s[pm] as char;
    if marker == 'K' || marker == 'O' {
        lemma_tuple_bounds(s, pm + 1);
        match spec_tuple(s, pm + 1) {
            Some((oldt, q)) => {
                lemma_tuple_bounds(s, q + 1);
                if k - 1 >= 5 && pm < k {
                    assert(s.take(k)[5] == s[5]);
                    lemma_tuple_prefix(s, pm + 1, k);
                    if q < k {
                        lemma_tuple_prefix(s, q + 1, k);
                    }
                }
            },
            None => {},
        }
    } else {
        lemma_tuple_bounds(s, pm + 1);
        if k - 1 >= 5 && pm < k {
            assert(s.take(k)[5] == s[5]);
            lemma_tuple_prefix(s, pm + 1, k);
        }
    }
}

/// A Delete message cut strictly inside its bytes is rejected.
#[verifier::spinoff_prover]
proof fn lemma_delete_prefix_rejected(s: Seq<u8>, k: int)
    requires
        spec_delete(s) is Some,
        1 <= k,
        spec_delete(s) matches Some((m, end)) ==> k < end,
    ensures
        spec_delete(s.take(k)) is None,
{
    let streaming = !(s[5] == 'K' as u8 || s[5] == 'O' as u8);
    let kp: int = if streaming {
        9
    } else {
        5
    };
    lemma_tuple_bounds(s, kp + 1);
    if k - 1 >= 5 && kp < k {
        assert(s.take(k)[5] == s[5]);
        lemma_tuple_prefix(s, kp + 1, k);
    }
}

/// A successful parse consumes at least the tag byte and never more
/// than the buffer holds.
proof fn lemma_parse_consumed_bounds(s: Seq<u8>, f: bool)
    requires
        spec_parse(s, f) is Some,
        s[0] != 'T' as u8,
    ensures
        1 <= spec_consumed(s, f) <= s.len(),
{
    let tag = s[0] as char;
    if tag == 'R' {
        let i: int = if f {
            5
        } else {
            1
        };
        lemma_cstr_bounds(s, i + 4);
        match spec_cstr(s, i + 4) {
            Some((ns, j1)) => {
                lemma_cstr_bounds(s, j1);
                match spec_cstr(s, j1) {
                    Some((nm, j2)) => {
                        if j2 + 3 <= s.len() {
                            let cc = be_u16_at(s, j2 + 1) as i16;
                            let n: nat = if cc < 0 {
                                0
                            } else {
                                cc as nat
                            };
                            lemma_columns_bounds(s, j2 + 3, n);
                        }
                    },
                    None => {},
                }
            },
            None => {},
        }
    } else if tag == 'I' {
        let streaming = s[5] != 'N' as u8;
        let pm: int = if streaming {
            9
        } else {
            5
        };
        lemma_tuple_bounds(s, pm + 1);
    } else if tag == 'U' {
        let streaming = !(s[5] == 'K' as u8 || s[5] == 'O' as u8 || s[5] == 'N' as u8);
        let pm: int = if streaming {
            9
        } else {
            5
        };
        let marker = s[pm] as char;
        lemma_tuple_bounds(s, pm + 1);
        if marker == 'K' || marker == 'O' {
            match spec_tuple(s, pm + 1) {
                Some((oldt, q)) => {
                    lemma_tuple_bounds(s, q + 1);
                },
                None => {},
            }
        }
    } else if tag == 'D' {
        let streaming = !(s[5] == 'K' as u8 || s[5] == 'O' as u8);
        let kp: int = if streaming {
            9
        } else {
            5
        };
        lemma_tuple_bounds(s, kp + 1);
    }
}

/// A successful relation-OID run consumes exactly four bytes per OID.
proof fn lemma_rel_ids_bounds(s: Seq<u8>, i: int, n: nat)
    requires
        0 <= i <= s.len(),
    ensures
        spec_rel_ids(s, i, n) matches Some((ids, end)) ==> end == i + 4 * n && end <= s.len(),
    decreases n,
{
    if n > 0 && s.len() - i >= 4 {
        lemma_rel_ids_bounds(s, i + 4, (n - 1) as nat);
    }
}

/// A relation-OID run that would overrun the buffer is rejected.
proof fn lemma_rel_ids_short(s: Seq<u8>, i: int, n: nat)
    requires
        0 <= i <= s.len(),
        n >= 1,
        i + 4 * n > s.len(),
    ensures
        spec_rel_ids(s, i, n) is None,
    decreases n,
{
    if s.len() - i >= 4 {
        lemma_rel_ids_short(s, i + 4, (n - 1) as nat);
    }
}

/// Totality on truncation for the Truncate message.  Its header has no
/// marker, so two kinds of cut of a valid Truncate are themselves valid
/// shorter Truncates and must be left out: a cut whose remaining length
/// happens to satisfy the streaming equation for the second word, and —
/// when the full message was the streaming form — a cut long enough
/// that its XID, re-read as a relation count, fits.  Every other cut is
/// rejected.
#[verifier::spinoff_prover]
pub proof fn lemma_truncate_prefix_rejected(s: Seq<u8>, f: bool, k: int)
    requires
        s.len() > 0,
        s[0] == 'T' as u8,
        spec_parse(s, f) is Some,
        0 <= k < spec_consumed(s, f),
        k != 10 + 4 * be_u32_at(s, 5),
        s.len() - 9 == 1 + 4 * be_u32_at(s, 5) ==> k < 6 + 4 * be_u32_at(s, 1),
    ensures
        spec_parse(s.take(k), f) is None,
{
    let first = be_u32_at(s, 1);
    let second = be_u32_at(s, 5);
    let streaming = s.len() - 9 == 1 + 4 * second;
    let pos: int = if streaming {
        9
    } else {
        5
    };
    let nrel: u32 = if streaming {
        second
    } else {
        first
    };
    lemma_rel_ids_bounds(s, pos + 1, nrel as nat);
    let p = s.take(k);
    if k == 0 {
        return ;
    }
    assert(p[0] == s[0]);
    if k >= 10 {
        assert(be_u32_at(p, 1) == be_u32_at(s, 1));
        assert(be_u32_at(p, 5) == be_u32_at(s, 5));
        // The cut never satisfies the streaming equation, so it is
        // re-read as the non-streaming form: `first` relations from
        // offset 6, which cannot fit before the cut.
        assert(k - 9 != 1 + 4 * second);
        assert(6 + 4 * (first as int) > k);
        assert(first >= 1);
        lemma_rel_ids_short(p, 6, first as nat);
    }
}

/// Parser totality on truncation: cut anywhere strictly inside the bytes
/// a valid message consumes, and the parser rejects the cut buffer with
/// a parse error — never a partial accept.  Truncate is the one message
/// whose length heuristic can re-read a cut buffer as a shorter valid
/// message, and a StreamStart cut just before its optional first-segment
/// octet is still a valid StreamStart; those cuts are left out.
#[verifier::rlimit(100)]
#[verifier::spinoff_prover]
pub proof fn lemma_parse_totality_on_truncation(s: Seq<u8>, f: bool, k: int)
    requires
        spec_parse(s, f) is Some,
        0 <= k < spec_consumed(s, f),
        s[0] != 'T' as u8,
        s[0] == 'S' as u8 ==> k < 5,
    ensures
        spec_parse(s.take(k), f) is None,
{
    let tag = s[0] as char;
    let p = s.take(k);
    if k == 0 {
        return ;
    }
    lemma_parse_consumed_bounds(s, f);
    assert(p[0] == s[0]);
    assert(p.len() == k);
    if tag == 'R' {
        lemma_relation_prefix_rejected(s, f, k);
    } else if tag == 'I' {
        lemma_insert_prefix_rejected(s, k);
    } else if tag == 'U' {
        lemma_update_prefix_rejected(s, k);
    } else if tag == 'D' {
        lemma_delete_prefix_rejected(s, k);
    } else if tag == 'B' {
        assert(k < 21);
        assert(spec_begin(p) is None);
    } else if tag == 'C' {
        assert(k < 26);
        assert(spec_commit(p) is None);
    } else if tag == 'S' {
        assert(k < 5);
        assert(spec_stream_start(p) is None);
    } else if tag == 'c' {
        assert(k < 30);
        assert(spec_stream_commit(p) is None);
    } else if tag == 'A' {
        assert(k < 9);
        assert(spec_stream_abort(p) is None);
    }
}


} // verus!