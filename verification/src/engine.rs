//! The replication session engine, as pure state transitions.
//!
//! The engine consumes the payloads of `CopyBoth` frames (`'k'`
//! keepalives and `'w'` XLogData), updates the session state, surfaces a
//! structured event for each decoded message, and yields the
//! standby-status frames to send back.  All I/O — polling the
//! connection, sending the frames, reading the clock — stays with the
//! caller, which hands in plain values: the frame bytes, the current
//! time as a PostgreSQL timestamp, and a monotonic millisecond clock.

use vstd::prelude::*;

use crate::errors::ReplicationError;
use crate::parser::{spec_parse, MessageParser};
use crate::types::{lsn_max, ColumnDataV, ColumnInfoV, MessageV, Oid, RelationInfo, RelationInfoV,
    ReplicationMessage, ReplicationState, StateV, TupleData, TupleDataV, Xid};
use crate::wire::{be_u64_at, u64_be_bytes};

verus! {

use vstd::slice::slice_subrange;

/// Which DML operation a row event reports.
#[derive(Debug, Clone, Copy, PartialEq, Eq, Structural)]
pub enum DmlKind {
    Insert,
    Update,
    Delete,
}

/// Mathematical view of a [`DmlKind`].
pub enum DmlKindV {
    Insert,
    Update,
    Delete,
}

/// One relation named by a Truncate message: resolved against the cache
/// where a descriptor is known.
#[derive(Debug)]
pub enum TruncateRelation {
    Known { namespace: String, relation_name: String },
    Unknown { oid: Oid },
}

/// Mathematical view of a [`TruncateRelation`].
pub enum TruncateRelationV {
    Known { namespace: Seq<char>, relation_name: Seq<char> },
    Unknown { oid: Oid },
}

impl View for TruncateRelation {
    type V = TruncateRelationV;

    open spec fn view(&self) -> TruncateRelationV {
        match self {
            TruncateRelation::Known { namespace, relation_name } => TruncateRelationV::Known {
                namespace: namespace@,
                relation_name: relation_name@,
            },
            TruncateRelation::Unknown { oid } => TruncateRelationV::Unknown { oid: *oid },
        }
    }
}

/// What the engine surfaces to its consumer for one decoded message.
/// Row events carry the relation's name and the tuple projected against
/// its columns: one `(column name, text value)` pair per datum, with SQL
/// NULLs and columns beyond the cached schema elided.
#[derive(Debug)]
pub enum ReplicationEvent {
    Begin { xid: Xid },
    Commit { flags: u8, commit_lsn: u64, end_lsn: u64, timestamp: i64 },
    RelationCached { oid: Oid },
    Row {
        kind: DmlKind,
        namespace: String,
        relation_name: String,
        key_type: Option<char>,
        old_fields: Option<Vec<(String, String)>>,
        fields: Vec<(String, String)>,
        is_stream: bool,
        xid: Option<Xid>,
    },
    UnknownRelation { kind: DmlKind, relation_id: Oid },
    Truncate { flags: i8, relations: Vec<TruncateRelation>, is_stream: bool, xid: Option<Xid> },
    StreamStarted { xid: Xid, first_segment: bool },
    StreamStopped,
    StreamCommitted { xid: Xid },
    StreamAborted { xid: Xid },
}

/// Mathematical view of a [`ReplicationEvent`].
pub enum EventV {
    Begin { xid: Xid },
    Commit { flags: u8, commit_lsn: u64, end_lsn: u64, timestamp: i64 },
    RelationCached { oid: Oid },
    Row {
        kind: DmlKindV,
        namespace: Seq<char>,
        relation_name: Seq<char>,
        key_type: Option<char>,
        old_fields: Option<Seq<(Seq<char>, Seq<char>)>>,
        fields: Seq<(Seq<char>, Seq<char>)>,
        is_stream: bool,
        xid: Option<Xid>,
    },
    UnknownRelation { kind: DmlKindV, relation_id: Oid },
    Truncate { flags: i8, relations: Seq<TruncateRelationV>, is_stream: bool, xid: Option<Xid> },
    StreamStarted { xid: Xid, first_segment: bool },
    StreamStopped,
    StreamCommitted { xid: Xid },
    StreamAborted { xid: Xid },
}

/// The view of a field list: each pair of strings as character
/// sequences.
pub open spec fn fields_view(v: Seq<(String, String)>) -> Seq<(Seq<char>, Seq<char>)> {
    v.map_values(|p: (String, String)| (p.0@, p.1@))
}

impl View for DmlKind {
    type V = DmlKindV;

    open spec fn view(&self) -> DmlKindV {
        match self {
            DmlKind::Insert => DmlKindV::Insert,
            DmlKind::Update => DmlKindV::Update,
            DmlKind::Delete => DmlKindV::Delete,
        }
    }
}

impl View for ReplicationEvent {
    type V = EventV;

    open spec fn view(&self) -> EventV {
        match self {
            ReplicationEvent::Begin { xid } => EventV::Begin { xid: *xid },
            ReplicationEvent::Commit { flags, commit_lsn, end_lsn, timestamp } => EventV::Commit {
                flags: *flags,
                commit_lsn: *commit_lsn,
                end_lsn: *end_lsn,
                timestamp: *timestamp,
            },
            ReplicationEvent::RelationCached { oid } => EventV::RelationCached { oid: *oid },
            ReplicationEvent::Row {
                kind,
                namespace,
                relation_name,
                key_type,
                old_fields,
                fields,
                is_stream,
                xid,
            } => EventV::Row {
                kind: kind@,
                namespace: namespace@,
                relation_name: relation_name@,
                key_type: *key_type,
                old_fields: match old_fields {
                    Some(v) => Some(fields_view(v@)),
                    None => None,
                },
                fields: fields_view(fields@),
                is_stream: *is_stream,
                xid: *xid,
            },
            ReplicationEvent::UnknownRelation { kind, relation_id } => EventV::UnknownRelation {
                kind: kind@,
                relation_id: *relation_id,
            },
            ReplicationEvent::Truncate { flags, relations, is_stream, xid } => EventV::Truncate {
                flags: *flags,
                relations: relations@.map_values(|t: TruncateRelation| t@),
                is_stream: *is_stream,
                xid: *xid,
            },
            ReplicationEvent::StreamStarted { xid, first_segment } => EventV::StreamStarted {
                xid: *xid,
                first_segment: *first_segment,
            },
            ReplicationEvent::StreamStopped => EventV::StreamStopped,
            ReplicationEvent::StreamCommitted { xid } => EventV::StreamCommitted { xid: *xid },
            ReplicationEvent::StreamAborted { xid } => EventV::StreamAborted { xid: *xid },
        }
    }
}

/// The tuple `data` projected positionally against the columns `cols`,
/// from index `i` on: one `(column name, value)` pair per datum, with
/// `'n'` (NULL) datums and positions beyond the schema elided.
pub open spec fn spec_project(
    cols: Seq<ColumnInfoV>,
    data: Seq<ColumnDataV>,
    i: int,
) -> Seq<(Seq<char>, Seq<char>)>
    decreases data.len() - i,
{
    if i < 0 || i >= data.len() {
        Seq::<(Seq<char>, Seq<char>)>::empty()
    } else {
        let rest = spec_project(cols, data, i + 1);
        if data[i].data_type == 'n' || i >= cols.len() {
            rest
        } else {
            seq![(cols[i].column_name, data[i].data)] + rest
        }
    }
}

/// Each relation OID of a Truncate message resolved against the cache,
/// from index `i` on.
pub open spec fn spec_truncate_targets(
    relations: Map<Oid, RelationInfoV>,
    ids: Seq<Oid>,
    i: int,
) -> Seq<TruncateRelationV>
    decreases ids.len() - i,
{
    if i < 0 || i >= ids.len() {
        Seq::<TruncateRelationV>::empty()
    } else {
        let rest = spec_truncate_targets(relations, ids, i + 1);
        let t = if relations.contains_key(ids[i]) {
            TruncateRelationV::Known {
                namespace: relations[ids[i]].namespace,
                relation_name: relations[ids[i]].relation_name,
            }
        } else {
            TruncateRelationV::Unknown { oid: ids[i] }
        };
        seq![t] + rest
    }
}

/// A cleared stream state: the flag and the transaction id dropped
/// together.
pub open spec fn spec_stream_cleared(state: StateV) -> StateV {
    StateV { in_streaming_txn: false, streaming_xid: None, ..state }
}

/// What dispatching one decoded message does: the state after it and the
/// event surfaced for it.  Relation messages fill the cache; DML
/// messages for an uncached relation report it unknown and change
/// nothing; stream boundaries set and clear the streaming state.
pub open spec fn spec_dispatch(state: StateV, m: MessageV) -> (StateV, EventV) {
    match m {
        MessageV::Begin { final_lsn, timestamp, xid } => (state, EventV::Begin { xid }),
        MessageV::Commit { flags, commit_lsn, end_lsn, timestamp } => (
            state,
            EventV::Commit { flags, commit_lsn, end_lsn, timestamp },
        ),
        MessageV::Relation { relation } => (
            StateV { relations: state.relations.insert(relation.oid, relation), ..state },
            EventV::RelationCached { oid: relation.oid },
        ),
        MessageV::Insert { relation_id, tuple_data, is_stream, xid } => {
            if state.relations.contains_key(relation_id) {
                let rel = state.relations[relation_id];
                (
                    state,
                    EventV::Row {
                        kind: DmlKindV::Insert,
                        namespace: rel.namespace,
                        relation_name: rel.relation_name,
                        key_type: None,
                        old_fields: None,
                        fields: spec_project(rel.columns, tuple_data.columns, 0),
                        is_stream,
                        xid,
                    },
                )
            } else {
                (state, EventV::UnknownRelation { kind: DmlKindV::Insert, relation_id })
            }
        },
        MessageV::Update { relation_id, key_type, old_tuple_data, new_tuple_data, is_stream, xid } => {
            if state.relations.contains_key(relation_id) {
                let rel = state.relations[relation_id];
                (
                    state,
                    EventV::Row {
                        kind: DmlKindV::Update,
                        namespace: rel.namespace,
                        relation_name: rel.relation_name,
                        key_type: key_type,
                        old_fields: match old_tuple_data {
                            Some(t) => Some(spec_project(rel.columns, t.columns, 0)),
                            None => None,
                        },
                        fields: spec_project(rel.columns, new_tuple_data.columns, 0),
                        is_stream,
                        xid,
                    },
                )
            } else {
                (state, EventV::UnknownRelation { kind: DmlKindV::Update, relation_id })
            }
        },
        MessageV::Delete { relation_id, key_type, tuple_data, is_stream, xid } => {
            if state.relations.contains_key(relation_id) {
                let rel = state.relations[relation_id];
                (
                    state,
                    EventV::Row {
                        kind: DmlKindV::Delete,
                        namespace: rel.namespace,
                        relation_name: rel.relation_name,
                        key_type: Some(key_type),
                        old_fields: None,
                        fields: spec_project(rel.columns, tuple_data.columns, 0),
                        is_stream,
                        xid,
                    },
                )
            } else {
                (state, EventV::UnknownRelation { kind: DmlKindV::Delete, relation_id })
            }
        },
        MessageV::Truncate { relation_ids, flags, is_stream, xid } => (
            state,
            EventV::Truncate {
                flags,
                relations: spec_truncate_targets(state.relations, relation_ids, 0),
                is_stream,
                xid,
            },
        ),
        MessageV::StreamStart { xid, first_segment } => (
            StateV { in_streaming_txn: true, streaming_xid: Some(xid), ..state },
            EventV::StreamStarted { xid, first_segment },
        ),
        MessageV::StreamStop => (spec_stream_cleared(state), EventV::StreamStopped),
        MessageV::StreamCommit { xid, flags, commit_lsn, end_lsn, timestamp } => (
            spec_stream_cleared(state),
            EventV::StreamCommitted { xid },
        ),
        MessageV::StreamAbort { xid, subtransaction_xid } => (
            spec_stream_cleared(state),
            EventV::StreamAborted { xid },
        ),
    }
}

/// Project a decoded tuple against its relation's columns.
#[verifier::loop_isolation(false)]
pub fn project_tuple_data(relation: &RelationInfo, tuple_data: &TupleData) -> (r: Vec<
    (String, String),
>)
    ensures
        fields_view(r@) == spec_project(relation@.columns, tuple_data@.columns, 0),
{
    let ghost cols = relation@.columns;
    let ghost data = tuple_data@.columns;
    let n = tuple_data.columns.len();
    let mut out: Vec<(String, String)> = Vec::new();
    let mut i: usize = 0;
    while i < n
        invariant
            0 <= i <= n,
            fields_view(out@) + spec_project(cols, data, i as int) == spec_project(cols, data, 0),
        decreases n - i,
    {
        let ghost done = fields_view(out@);
        let cd = &tuple_data.columns[i];
        if !(cd.data_type == 'n') && i < relation.columns.len() {
            let name = relation.columns[i].column_name.clone();
            let value = cd.data.clone();
            let ghost pair = (cols[i as int].column_name, data[i as int].data);
            out.push((name, value));
            proof {
                assert(fields_view(out@) =~= done + seq![pair]);
                assert((done + seq![pair]) + spec_project(cols, data, i + 1) =~= done + (seq![pair]
                    + spec_project(cols, data, i + 1)));
            }
        }
        i = i + 1;
    }
    proof {
        assert(fields_view(out@) + Seq::<(Seq<char>, Seq<char>)>::empty() =~= fields_view(out@));
    }
    out
}

/// Resolve the relations named by a Truncate message against the cache.
#[verifier::loop_isolation(false)]
fn truncate_targets(state: &ReplicationState, relation_ids: &Vec<Oid>) -> (r: Vec<
    TruncateRelation,
>)
    ensures
        r@.map_values(|t: TruncateRelation| t@) == spec_truncate_targets(
            state@.relations,
            relation_ids@,
            0,
        ),
{
    let ghost rels = state@.relations;
    let ghost ids = relation_ids@;
    let n = relation_ids.len();
    let mut out: Vec<TruncateRelation> = Vec::new();
    let mut i: usize = 0;
    while i < n
        invariant
            0 <= i <= n,
            out@.map_values(|t: TruncateRelation| t@) + spec_truncate_targets(rels, ids, i as int)
                == spec_truncate_targets(rels, ids, 0),
        decreases n - i,
    {
        let ghost done = out@.map_values(|t: TruncateRelation| t@);
        let oid = relation_ids[i];
        let target: TruncateRelation = match state.get_relation(oid) {
            Some(rel) => TruncateRelation::Known {
                namespace: rel.namespace.clone(),
                relation_name: rel.relation_name.clone(),
            },
            None => TruncateRelation::Unknown { oid },
        };
        let ghost tv = target@;
        out.push(target);
        proof {
            assert(out@.map_values(|t: TruncateRelation| t@) =~= done + seq![tv]);
            assert((done + seq![tv]) + spec_truncate_targets(rels, ids, i + 1) =~= done + (seq![tv]
                + spec_truncate_targets(rels, ids, i + 1)));
        }
        i = i + 1;
    }
    proof {
        assert(out@.map_values(|t: TruncateRelation| t@) + Seq::<TruncateRelationV>::empty()
            =~= out@.map_values(|t: TruncateRelation| t@));
    }
    out
}

/// Dispatch one decoded message: update the session state and surface
/// the event, exactly as `spec_dispatch` says.  A DML message for an
/// unknown relation is reported, never fatal.
pub fn process_replication_message(state: &mut ReplicationState, message: ReplicationMessage) -> (r:
    ReplicationEvent)
    ensures
        (final(state)@, r@) == spec_dispatch(old(state)@, message@),
        old(state)@.stream_consistent() ==> final(state)@.stream_consistent(),
{
    match message {
        ReplicationMessage::Begin { xid, .. } => ReplicationEvent::Begin { xid },
        ReplicationMessage::Commit { flags, commit_lsn, end_lsn, timestamp } => {
            ReplicationEvent::Commit { flags, commit_lsn, end_lsn, timestamp }
        },
        ReplicationMessage::Relation { relation } => {
            let oid = relation.oid;
            state.add_relation(relation);
            ReplicationEvent::RelationCached { oid }
        },
        ReplicationMessage::Insert { relation_id, tuple_data, is_stream, xid } => {
            match state.get_relation(relation_id) {
                Some(relation) => {
                    let fields = project_tuple_data(relation, &tuple_data);
                    ReplicationEvent::Row {
                        kind: DmlKind::Insert,
                        namespace: relation.namespace.clone(),
                        relation_name: relation.relation_name.clone(),
                        key_type: None,
                        old_fields: None,
                        fields,
                        is_stream,
                        xid,
                    }
                },
                None => ReplicationEvent::UnknownRelation {
                    kind: DmlKind::Insert,
                    relation_id,
                },
            }
        },
        ReplicationMessage::Update {
            relation_id,
            key_type,
            old_tuple_data,
            new_tuple_data,
            is_stream,
            xid,
        } => {
            match state.get_relation(relation_id) {
                Some(relation) => {
                    let old_fields: Option<Vec<(String, String)>> = match &old_tuple_data {
                        Some(old_data) => Some(project_tuple_data(relation, old_data)),
                        None => None,
                    };
                    let fields = project_tuple_data(relation, &new_tuple_data);
                    ReplicationEvent::Row {
                        kind: DmlKind::Update,
                        namespace: relation.namespace.clone(),
                        relation_name: relation.relation_name.clone(),
                        key_type,
                        old_fields,
                        fields,
                        is_stream,
                        xid,
                    }
                },
                None => ReplicationEvent::UnknownRelation {
                    kind: DmlKind::Update,
                    relation_id,
                },
            }
        },
        ReplicationMessage::Delete { relation_id, key_type, tuple_data, is_stream, xid } => {
            match state.get_relation(relation_id) {
                Some(relation) => {
                    let fields = project_tuple_data(relation, &tuple_data);
                    ReplicationEvent::Row {
                        kind: DmlKind::Delete,
                        namespace: relation.namespace.clone(),
                        relation_name: relation.relation_name.clone(),
                        key_type: Some(key_type),
                        old_fields: None,
                        fields,
                        is_stream,
                        xid,
                    }
                },
                None => ReplicationEvent::UnknownRelation {
                    kind: DmlKind::Delete,
                    relation_id,
                },
            }
        },
        ReplicationMessage::Truncate { relation_ids, flags, is_stream, xid } => {
            let relations = truncate_targets(state, &relation_ids);
            ReplicationEvent::Truncate { flags, relations, is_stream, xid }
        },
        ReplicationMessage::StreamStart { xid, first_segment } => {
            state.start_streaming(xid);
            ReplicationEvent::StreamStarted { xid, first_segment }
        },
        ReplicationMessage::StreamStop => {
            state.stop_streaming();
            ReplicationEvent::StreamStopped
        },
        ReplicationMessage::StreamCommit { xid, .. } => {
            state.stop_streaming();
            ReplicationEvent::StreamCommitted { xid }
        },
        ReplicationMessage::StreamAbort { xid, .. } => {
            state.stop_streaming();
            ReplicationEvent::StreamAborted { xid }
        },
    }
}

/// The standby-status reply for `lsn` at time `ts`: the `'r'` tag, the
/// received and flushed LSNs (both `lsn`), the untracked applied LSN
/// (zero), the timestamp, and a zero no-reply octet — 34 bytes.
pub open spec fn spec_feedback_frame(lsn: u64, ts: i64) -> Seq<u8> {
    seq![114u8] + u64_be_bytes(lsn) + u64_be_bytes(lsn) + u64_be_bytes(0) + u64_be_bytes(ts as u64)
        + seq![0u8]
}

/// Build the 34-byte standby-status reply frame, bit for bit as
/// `spec_feedback_frame` lays it out.
pub fn standby_status_frame(received_lsn: u64, now_pg_timestamp: i64) -> (r: Vec<u8>)
    ensures
        r@ == spec_feedback_frame(received_lsn, now_pg_timestamp),
        r@.len() == 34,
{
    let mut writer = crate::buffer::BufferWriter::new();
    writer.write_u8(114);
    writer.write_u64(received_lsn);
    writer.write_u64(received_lsn);
    writer.write_u64(crate::types::INVALID_XLOG_REC_PTR);
    writer.write_i64(now_pg_timestamp);
    writer.write_u8(0);
    let r = writer.into_bytes();
    proof {
        assert(r@ =~= spec_feedback_frame(received_lsn, now_pg_timestamp));
    }
    r
}

/// The feedback frame owed for the current state: none while no LSN has
/// been received, else the standby-status reply for the watermark.
pub fn feedback_payload(state: &ReplicationState, now_pg_timestamp: i64) -> (r: Option<Vec<u8>>)
    ensures
        state@.received_lsn == 0 ==> r is None,
        state@.received_lsn != 0 ==> (r matches Some(v) && v@ == spec_feedback_frame(
            state@.received_lsn,
            now_pg_timestamp,
        )),
{
    if state.received_lsn == 0 {
        None
    } else {
        Some(standby_status_frame(state.received_lsn, now_pg_timestamp))
    }
}

/// Consume a `'k'` keepalive frame: at least 18 bytes, the server's WAL
/// end at offset 1.  Advances the LSN watermark and returns the feedback
/// frame to send at once.
pub fn process_keepalive_message(state: &mut ReplicationState, data: &[u8], now_pg_timestamp: i64)
    -> (r: Result<Option<Vec<u8>>, ReplicationError>)
    ensures
        data@.len() < 18 ==> (r matches Err(e) && e is Protocol && e.spec_message()
            == "Keepalive message too short"@ && final(state)@ == old(state)@),
        data@.len() >= 18 ==> ({
            let new_lsn = lsn_max(old(state)@.received_lsn, be_u64_at(data@, 1));
            &&& final(state)@ == (StateV { received_lsn: new_lsn, ..old(state)@ })
            &&& r matches Ok(fb) && (if new_lsn == 0 {
                fb is None
            } else {
                fb matches Some(v) && v@ == spec_feedback_frame(new_lsn, now_pg_timestamp)
            })
        }),
{
    if data.len() < 18 {
        return Err(ReplicationError::protocol("Keepalive message too short"));
    }
    let wal_end = crate::buffer::buf_recv_u64(slice_subrange(data, 1, 9));
    assert(be_u64_at(data@.subrange(1, 9), 0) == be_u64_at(data@, 1));
    state.update_lsn(wal_end);
    Ok(feedback_payload(state, now_pg_timestamp))
}

/// What consuming a `'w'` XLogData frame does to the state before the
/// inner message is dispatched: the WAL start position at offset 1
/// advances the watermark.
pub open spec fn spec_wal_lsn_updated(state: StateV, data: Seq<u8>) -> StateV {
    StateV { received_lsn: lsn_max(state.received_lsn, be_u64_at(data, 1)), ..state }
}

/// Consume a `'w'` XLogData frame: a 25-byte header (tag, WAL start,
/// WAL end, send time) and the replication message after it.  Advances
/// the watermark, decodes and dispatches the message with the streaming
/// flag the session held on entry, and returns the event beside the
/// feedback frame to send.
pub fn process_wal_message(state: &mut ReplicationState, data: &[u8], now_pg_timestamp: i64) -> (r:
    Result<(ReplicationEvent, Option<Vec<u8>>), ReplicationError>)
    ensures
        data@.len() < 25 ==> (r matches Err(e) && e is Protocol && e.spec_message()
            == "WAL message too short"@ && final(state)@ == old(state)@),
        data@.len() == 25 ==> (r matches Err(e) && e is Protocol && e.spec_message()
            == "WAL message has no data"@ && final(state)@ == spec_wal_lsn_updated(
            old(state)@,
            data@,
        )),
        data@.len() > 25 ==> ({
            let mid = spec_wal_lsn_updated(old(state)@, data@);
            match spec_parse(data@.subrange(25, data@.len() as int), old(state)@.in_streaming_txn) {
                Some((m, n)) => {
                    let (after, ev) = spec_dispatch(mid, m);
                    &&& final(state)@ == after
                    &&& r matches Ok((event, fb)) && event@ == ev && (if after.received_lsn == 0 {
                        fb is None
                    } else {
                        fb matches Some(v) && v@ == spec_feedback_frame(
                            after.received_lsn,
                            now_pg_timestamp,
                        )
                    })
                },
                None => r matches Err(e) && e is Parse && final(state)@ == mid,
            }
        }),
{
    if data.len() < 25 {
        return Err(ReplicationError::protocol("WAL message too short"));
    }
    let data_start = crate::buffer::buf_recv_u64(slice_subrange(data, 1, 9));
    assert(be_u64_at(data@.subrange(1, 9), 0) == be_u64_at(data@, 1));
    if data_start > 0 {
        state.update_lsn(data_start);
    }
    if data.len() == 25 {
        return Err(ReplicationError::protocol("WAL message has no data"));
    }
    let message_data = slice_subrange(data, 25, data.len());
    let message = match MessageParser::parse_wal_message(message_data, state.in_streaming_txn) {
        Ok(m) => m,
        Err(e) => {
            return Err(e);
        },
    };
    let event = process_replication_message(state, message);
    let fb = feedback_payload(state, now_pg_timestamp);
    Ok((event, fb))
}

/// True when periodic feedback is due: more than the interval has passed
/// on the caller's monotonic millisecond clock since feedback was last
/// sent.
pub fn feedback_due(now_millis: u64, last_feedback_millis: u64, feedback_interval_secs: u64) -> (r:
    bool)
    ensures
        r == (now_millis >= last_feedback_millis && now_millis - last_feedback_millis
            > feedback_interval_secs * 1000),
{
    if now_millis < last_feedback_millis {
        return false;
    }
    let elapsed = (now_millis - last_feedback_millis) as u128;
    elapsed > (feedback_interval_secs as u128) * 1000
}

/// The periodic feedback check at the top of the replication loop: when
/// the interval has passed, note the time and return the frame to send
/// (none while no LSN is known).
pub fn check_and_send_feedback(
    state: &mut ReplicationState,
    now_millis: u64,
    now_pg_timestamp: i64,
    feedback_interval_secs: u64,
) -> (r: Option<Vec<u8>>)
    ensures
        ({
            let due = now_millis >= old(state)@.last_feedback_time && now_millis - old(
                state,
            )@.last_feedback_time > feedback_interval_secs * 1000;
            if !due {
                final(state)@ == old(state)@ && r is None
            } else {
                &&& final(state)@ == (StateV { last_feedback_time: now_millis, ..old(state)@ })
                &&& (if old(state)@.received_lsn == 0 {
                    r is None
                } else {
                    r matches Some(v) && v@ == spec_feedback_frame(
                        old(state)@.received_lsn,
                        now_pg_timestamp,
                    )
                })
            }
        }),
{
    if feedback_due(now_millis, state.last_feedback_time, feedback_interval_secs) {
        let fb = feedback_payload(state, now_pg_timestamp);
        state.last_feedback_time = now_millis;
        fb
    } else {
        None
    }
}

/// Check the reply of `IDENTIFY_SYSTEM`: the session is usable only
/// when the command succeeded and returned at least one row; anything
/// else means the connection is not in replication mode or lacks
/// replication privileges.
pub fn check_identify_system(status_ok: bool, ntuples: i64) -> (r: Result<(), ReplicationError>)
    ensures
        r is Ok <==> status_ok && ntuples > 0,
        r matches Err(e) ==> e is Protocol,
{
    if status_ok && ntuples > 0 {
        Ok(())
    } else {
        Err(
            ReplicationError::protocol(
                "IDENTIFY_SYSTEM failed: not in replication mode or lacking privileges",
            ),
        )
    }
}

/// Feeding a Relation descriptor and then a DML message for its OID
/// reports the row, projected against that descriptor, and leaves the
/// state as the cache update left it.
pub proof fn lemma_relation_then_dml(
    state: StateV,
    relation: RelationInfoV,
    tuple: TupleDataV,
    is_stream: bool,
    xid: Option<Xid>,
)
    ensures
        ({
            let (cached, _) = spec_dispatch(state, MessageV::Relation { relation });
            let ins = MessageV::Insert {
                relation_id: relation.oid,
                tuple_data: tuple,
                is_stream,
                xid,
            };
            let (after, ev) = spec_dispatch(cached, ins);
            &&& after == cached
            &&& ev == EventV::Row {
                kind: DmlKindV::Insert,
                namespace: relation.namespace,
                relation_name: relation.relation_name,
                key_type: None,
                old_fields: None,
                fields: spec_project(relation.columns, tuple.columns, 0),
                is_stream,
                xid,
            }
        }),
{
}

/// A DML message for an OID with no cached descriptor reports the
/// relation unknown and changes nothing: the session goes on.
pub proof fn lemma_dml_without_relation(
    state: StateV,
    relation_id: Oid,
    tuple: TupleDataV,
    is_stream: bool,
    xid: Option<Xid>,
)
    requires
        !state.relations.contains_key(relation_id),
    ensures
        spec_dispatch(
            state,
            MessageV::Insert { relation_id, tuple_data: tuple, is_stream, xid },
        ) == (state, EventV::UnknownRelation { kind: DmlKindV::Insert, relation_id }),
{
}

} // verus!
