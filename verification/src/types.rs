//! Data model of the replication client: relation and tuple descriptors,
//! the decoded message variants, the session state, and the validated
//! configuration.
//!
//! Each executable type has a mathematical view (`...V`) over `Seq`,
//! `Map`, and plain values; every contract in the crate speaks of those
//! views.

use vstd::prelude::*;

use crate::errors::ReplicationError;

verus! {

broadcast use vstd::std_specs::hash::group_hash_axioms;

use std::collections::HashMap;
use vstd::string::StrSliceExecFns;

/// A PostgreSQL object identifier.
pub type Oid = u32;

/// A PostgreSQL transaction identifier.
pub type Xid = u32;

/// A position in the server's write-ahead log.
pub type XLogRecPtr = u64;

/// Microseconds since 2000-01-01 00:00:00 UTC.
pub type TimestampTz = i64;

/// The LSN sentinel meaning "invalid / not yet known".
pub const INVALID_XLOG_REC_PTR: XLogRecPtr = 0;

/// Information about a table column.
#[derive(Debug)]
pub struct ColumnInfo {
    pub key_flag: i8,
    pub column_name: String,
    pub column_type: Oid,
    pub atttypmod: i32,
}

/// Mathematical view of a [`ColumnInfo`].
pub struct ColumnInfoV {
    pub key_flag: i8,
    pub column_name: Seq<char>,
    pub column_type: Oid,
    pub atttypmod: i32,
}

impl View for ColumnInfo {
    type V = ColumnInfoV;

    open spec fn view(&self) -> ColumnInfoV {
        ColumnInfoV {
            key_flag: self.key_flag,
            column_name: self.column_name@,
            column_type: self.column_type,
            atttypmod: self.atttypmod,
        }
    }
}

/// Information about a relation (table).
#[derive(Debug)]
pub struct RelationInfo {
    pub oid: Oid,
    pub namespace: String,
    pub relation_name: String,
    pub replica_identity: char,
    pub column_count: i16,
    pub columns: Vec<ColumnInfo>,
}

/// Mathematical view of a [`RelationInfo`].
pub struct RelationInfoV {
    pub oid: Oid,
    pub namespace: Seq<char>,
    pub relation_name: Seq<char>,
    pub replica_identity: char,
    pub column_count: i16,
    pub columns: Seq<ColumnInfoV>,
}

impl View for RelationInfo {
    type V = RelationInfoV;

    open spec fn view(&self) -> RelationInfoV {
        RelationInfoV {
            oid: self.oid,
            namespace: self.namespace@,
            relation_name: self.relation_name@,
            replica_identity: self.replica_identity,
            column_count: self.column_count,
            columns: self.columns@.map_values(|c: ColumnInfo| c@),
        }
    }
}

/// Data for a single column in a tuple: tag `'n'` for SQL NULL, `'u'`
/// for an unchanged TOASTed value, `'t'` for text.
#[derive(Debug)]
pub struct ColumnData {
    pub data_type: char,
    pub length: i32,
    pub data: String,
}

/// Mathematical view of a [`ColumnData`].
pub struct ColumnDataV {
    pub data_type: char,
    pub length: i32,
    pub data: Seq<char>,
}

impl View for ColumnData {
    type V = ColumnDataV;

    open spec fn view(&self) -> ColumnDataV {
        ColumnDataV { data_type: self.data_type, length: self.length, data: self.data@ }
    }
}

/// Data for a complete row, with the byte span it occupied on the wire.
#[derive(Debug)]
pub struct TupleData {
    pub column_count: i16,
    pub columns: Vec<ColumnData>,
    pub processed_length: usize,
}

/// Mathematical view of a [`TupleData`].
pub struct TupleDataV {
    pub column_count: i16,
    pub columns: Seq<ColumnDataV>,
    pub processed_length: usize,
}

impl View for TupleData {
    type V = TupleDataV;

    open spec fn view(&self) -> TupleDataV {
        TupleDataV {
            column_count: self.column_count,
            columns: self.columns@.map_values(|c: ColumnData| c@),
            processed_length: self.processed_length,
        }
    }
}

/// A decoded logical replication message.
#[derive(Debug)]
pub enum ReplicationMessage {
    Begin { final_lsn: u64, timestamp: i64, xid: Xid },
    Commit { flags: u8, commit_lsn: u64, end_lsn: u64, timestamp: i64 },
    Relation { relation: RelationInfo },
    Insert { relation_id: Oid, tuple_data: TupleData, is_stream: bool, xid: Option<Xid> },
    Update {
        relation_id: Oid,
        key_type: Option<char>,
        old_tuple_data: Option<TupleData>,
        new_tuple_data: TupleData,
        is_stream: bool,
        xid: Option<Xid>,
    },
    Delete { relation_id: Oid, key_type: char, tuple_data: TupleData, is_stream: bool, xid: Option<
        Xid,
    > },
    Truncate { relation_ids: Vec<Oid>, flags: i8, is_stream: bool, xid: Option<Xid> },
    StreamStart { xid: Xid, first_segment: bool },
    StreamStop,
    StreamCommit { xid: Xid, flags: u8, commit_lsn: u64, end_lsn: u64, timestamp: i64 },
    StreamAbort { xid: Xid, subtransaction_xid: Xid },
}

/// Mathematical view of a [`ReplicationMessage`].
pub enum MessageV {
    Begin { final_lsn: u64, timestamp: i64, xid: Xid },
    Commit { flags: u8, commit_lsn: u64, end_lsn: u64, timestamp: i64 },
    Relation { relation: RelationInfoV },
    Insert { relation_id: Oid, tuple_data: TupleDataV, is_stream: bool, xid: Option<Xid> },
    Update {
        relation_id: Oid,
        key_type: Option<char>,
        old_tuple_data: Option<TupleDataV>,
        new_tuple_data: TupleDataV,
        is_stream: bool,
        xid: Option<Xid>,
    },
    Delete { relation_id: Oid, key_type: char, tuple_data: TupleDataV, is_stream: bool, xid:
        Option<Xid> },
    Truncate { relation_ids: Seq<Oid>, flags: i8, is_stream: bool, xid: Option<Xid> },
    StreamStart { xid: Xid, first_segment: bool },
    StreamStop,
    StreamCommit { xid: Xid, flags: u8, commit_lsn: u64, end_lsn: u64, timestamp: i64 },
    StreamAbort { xid: Xid, subtransaction_xid: Xid },
}

impl View for ReplicationMessage {
    type V = MessageV;

    open spec fn view(&self) -> MessageV {
        match self {
            ReplicationMessage::Begin { final_lsn, timestamp, xid } => MessageV::Begin {
                final_lsn: *final_lsn,
                timestamp: *timestamp,
                xid: *xid,
            },
            ReplicationMessage::Commit { flags, commit_lsn, end_lsn, timestamp } => {
                MessageV::Commit {
                    flags: *flags,
                    commit_lsn: *commit_lsn,
                    end_lsn: *end_lsn,
                    timestamp: *timestamp,
                }
            },
            ReplicationMessage::Relation { relation } => MessageV::Relation {
                relation: relation@,
            },
            ReplicationMessage::Insert { relation_id, tuple_data, is_stream, xid } => {
                MessageV::Insert {
                    relation_id: *relation_id,
                    tuple_data: tuple_data@,
                    is_stream: *is_stream,
                    xid: *xid,
                }
            },
            ReplicationMessage::Update {
                relation_id,
                key_type,
                old_tuple_data,
                new_tuple_data,
                is_stream,
                xid,
            } => MessageV::Update {
                relation_id: *relation_id,
                key_type: *key_type,
                old_tuple_data: match old_tuple_data {
                    Some(t) => Some(t@),
                    None => None,
                },
                new_tuple_data: new_tuple_data@,
                is_stream: *is_stream,
                xid: *xid,
            },
            ReplicationMessage::Delete { relation_id, key_type, tuple_data, is_stream, xid } => {
                MessageV::Delete {
                    relation_id: *relation_id,
                    key_type: *key_type,
                    tuple_data: tuple_data@,
                    is_stream: *is_stream,
                    xid: *xid,
                }
            },
            ReplicationMessage::Truncate { relation_ids, flags, is_stream, xid } => {
                MessageV::Truncate {
                    relation_ids: relation_ids@,
                    flags: *flags,
                    is_stream: *is_stream,
                    xid: *xid,
                }
            },
            ReplicationMessage::StreamStart { xid, first_segment } => MessageV::StreamStart {
                xid: *xid,
                first_segment: *first_segment,
            },
            ReplicationMessage::StreamStop => MessageV::StreamStop,
            ReplicationMessage::StreamCommit { xid, flags, commit_lsn, end_lsn, timestamp } => {
                MessageV::StreamCommit {
                    xid: *xid,
                    flags: *flags,
                    commit_lsn: *commit_lsn,
                    end_lsn: *end_lsn,
                    timestamp: *timestamp,
                }
            },
            ReplicationMessage::StreamAbort { xid, subtransaction_xid } => MessageV::StreamAbort {
                xid: *xid,
                subtransaction_xid: *subtransaction_xid,
            },
        }
    }
}

/// The received LSN after reporting `lsn`: positions only ever move
/// forward, and the zero sentinel is ignored.
pub open spec fn lsn_max(cur: u64, lsn: u64) -> u64 {
    if lsn > cur {
        lsn
    } else {
        cur
    }
}

/// The received LSN after reporting each element of `xs` in turn,
/// starting from `init`.
pub open spec fn lsn_after(init: u64, xs: Seq<u64>) -> u64
    decreases xs.len(),
{
    if xs.len() == 0 {
        init
    } else {
        lsn_max(lsn_after(init, xs.drop_last()), xs.last())
    }
}

/// LSN monotonicity: after any sequence of reports the received LSN is
/// the maximum of the starting point and everything reported.
pub proof fn lemma_lsn_monotonicity(init: u64, xs: Seq<u64>)
    ensures
        lsn_after(init, xs) >= init,
        forall|k: int| 0 <= k < xs.len() ==> lsn_after(init, xs) >= xs[k],
        lsn_after(init, xs) == init || exists|k: int|
            0 <= k < xs.len() && xs[k] == lsn_after(init, xs),
    decreases xs.len(),
{
    if xs.len() > 0 {
        lemma_lsn_monotonicity(init, xs.drop_last());
        let prev = lsn_after(init, xs.drop_last());
        assert(forall|k: int| 0 <= k < xs.len() - 1 ==> xs[k] == xs.drop_last()[k]);
        if lsn_after(init, xs) != init {
            if xs.last() > prev {
                assert(xs[xs.len() - 1] == lsn_after(init, xs));
            } else {
                assert(exists|k: int|
                    0 <= k < xs.len() && xs[k] == lsn_after(init, xs));
            }
        }
    }
}

/// Session state of a replication client: the relation cache, the LSN
/// watermarks, the streamed-transaction flag, and the time feedback was
/// last sent (a caller-supplied monotonic clock in milliseconds).
#[derive(Debug)]
pub struct ReplicationState {
    pub relations: HashMap<Oid, RelationInfo>,
    pub received_lsn: XLogRecPtr,
    pub flushed_lsn: XLogRecPtr,
    pub last_feedback_time: u64,
    pub in_streaming_txn: bool,
    pub streaming_xid: Option<Xid>,
}

/// Mathematical view of a [`ReplicationState`].
pub struct StateV {
    pub relations: Map<Oid, RelationInfoV>,
    pub received_lsn: u64,
    pub flushed_lsn: u64,
    pub last_feedback_time: u64,
    pub in_streaming_txn: bool,
    pub streaming_xid: Option<Xid>,
}

impl StateV {
    /// The streaming flag and the streamed transaction's id are set and
    /// cleared together.
    pub open spec fn stream_consistent(self) -> bool {
        self.in_streaming_txn <==> self.streaming_xid is Some
    }
}

impl View for ReplicationState {
    type V = StateV;

    open spec fn view(&self) -> StateV {
        StateV {
            relations: self.relations@.map_values(|r: RelationInfo| r@),
            received_lsn: self.received_lsn,
            flushed_lsn: self.flushed_lsn,
            last_feedback_time: self.last_feedback_time,
            in_streaming_txn: self.in_streaming_txn,
            streaming_xid: self.streaming_xid,
        }
    }
}

impl ReplicationState {
    /// A fresh session: no relations cached, no LSN known, not inside a
    /// streamed transaction.
    pub fn new() -> (r: Self)
        ensures
            r@.relations =~= Map::<Oid, RelationInfoV>::empty(),
            r@.received_lsn == 0,
            r@.flushed_lsn == 0,
            r@.last_feedback_time == 0,
            r@.in_streaming_txn == false,
            r@.streaming_xid is None,
            r@.stream_consistent(),
    {
        let r = ReplicationState {
            relations: HashMap::new(),
            received_lsn: 0,
            flushed_lsn: 0,
            last_feedback_time: 0,
            in_streaming_txn: false,
            streaming_xid: None,
        };
        proof {
            assert(r@.relations =~= Map::<Oid, RelationInfoV>::empty());
        }
        r
    }

    /// Enter a streamed transaction carrying `xid`.
    pub fn start_streaming(&mut self, xid: Xid)
        ensures
            final(self)@ == (StateV {
                in_streaming_txn: true,
                streaming_xid: Some(xid),
                ..old(self)@
            }),
            final(self)@.stream_consistent(),
    {
        self.in_streaming_txn = true;
        self.streaming_xid = Some(xid);
    }

    /// Leave the streamed transaction, if any.
    pub fn stop_streaming(&mut self)
        ensures
            final(self)@ == (StateV {
                in_streaming_txn: false,
                streaming_xid: None,
                ..old(self)@
            }),
            final(self)@.stream_consistent(),
    {
        self.in_streaming_txn = false;
        self.streaming_xid = None;
    }

    /// Cache a relation descriptor; a later descriptor for the same OID
    /// replaces the earlier one.
    pub fn add_relation(&mut self, relation: RelationInfo)
        ensures
            final(self)@ == (StateV {
                relations: old(self)@.relations.insert(relation.oid, relation@),
                ..old(self)@
            }),
    {
        let ghost oid = relation.oid;
        let ghost rv = relation@;
        self.relations.insert(relation.oid, relation);
        proof {
            assert(self.relations@.map_values(|r: RelationInfo| r@) =~= old(
                self,
            )@.relations.insert(oid, rv));
        }
    }

    /// Look up the cached descriptor for `oid`.
    pub fn get_relation(&self, oid: Oid) -> (r: Option<&RelationInfo>)
        ensures
            match r {
                Some(rel) => self@.relations.contains_key(oid) && rel@ == self@.relations[oid],
                None => !self@.relations.contains_key(oid),
            },
    {
        let r = self.relations.get(&oid);
        proof {
            if self.relations@.contains_key(oid) {
                assert(self@.relations.contains_key(oid));
                assert(self@.relations[oid] == (self.relations@[oid])@);
            } else {
                assert(!self@.relations.contains_key(oid));
            }
        }
        r
    }

    /// Report a received LSN: the watermark moves to `lsn` when that is
    /// an advance, and never moves backwards; zero is the "unknown"
    /// sentinel and is ignored.
    pub fn update_lsn(&mut self, lsn: XLogRecPtr)
        ensures
            final(self)@ == (StateV {
                received_lsn: lsn_max(old(self)@.received_lsn, lsn),
                ..old(self)@
            }),
            final(self)@.received_lsn >= old(self)@.received_lsn,
    {
        if lsn > 0 {
            if lsn > self.received_lsn {
                self.received_lsn = lsn;
            }
        }
    }
}

impl Default for ReplicationState {
    /// The same fresh session as [`ReplicationState::new`].
    fn default() -> (r: Self)
        ensures
            r@.relations =~= Map::<Oid, RelationInfoV>::empty(),
            r@.received_lsn == 0,
            r@.in_streaming_txn == false,
            r@.streaming_xid is None,
    {
        ReplicationState::new()
    }
}

/// True when the character has Unicode's White_Space property: the set
/// that `str::trim` strips and `char::is_whitespace` accepts.
pub open spec fn is_whitespace_char(c: char) -> bool {
    let u = c as u32;
    (9 <= u <= 13) || u == 0x20 || u == 0x85 || u == 0xA0 || u == 0x1680 || (0x2000 <= u
        <= 0x200A) || u == 0x2028 || u == 0x2029 || u == 0x202F || u == 0x205F || u == 0x3000
}

/// True when the string holds nothing but whitespace (an empty string
/// included): such a name is treated as empty.
pub open spec fn blank_chars(s: Seq<char>) -> bool {
    forall|i: int| 0 <= i < s.len() ==> is_whitespace_char(#[trigger] s[i])
}

/// True when the byte may appear in a replication slot name: ASCII
/// alphanumerics and underscore.
pub open spec fn valid_slot_byte(b: u8) -> bool {
    (0x30 <= b <= 0x39) || (0x41 <= b <= 0x5a) || (0x61 <= b <= 0x7a) || b == 0x5f
}

/// True when every byte of the name is a slot-name byte.  Over UTF-8
/// this says exactly that every character is an ASCII alphanumeric or
/// underscore.
pub open spec fn slot_charset_ok(s: Seq<u8>) -> bool {
    forall|i: int| 0 <= i < s.len() ==> valid_slot_byte(#[trigger] s[i])
}

/// A valid slot name: not blank, only ASCII alphanumerics and
/// underscores, and at most 63 bytes (the PostgreSQL identifier limit).
pub open spec fn valid_slot_name(s: Seq<char>) -> bool {
    &&& !blank_chars(s)
    &&& slot_charset_ok(str_bytes(s))
    &&& str_bytes(s).len() <= 63
}

/// The bytes of a string, as the contracts below speak of them.
pub open spec fn str_bytes(s: Seq<char>) -> Seq<u8> {
    vstd::utf8::encode_utf8(s)
}

/// The description of the first validation rule the given names break,
/// in the order the rules are checked.
pub open spec fn spec_config_error(conn: Seq<char>, publ: Seq<char>, slot: Seq<char>) -> Seq<
    char,
> {
    if blank_chars(conn) {
        "Connection string cannot be empty"@
    } else if blank_chars(publ) {
        "Publication name cannot be empty"@
    } else if blank_chars(slot) {
        "Slot name cannot be empty"@
    } else if !slot_charset_ok(str_bytes(slot)) {
        "Slot name can only contain alphanumeric characters and underscores"@
    } else {
        "Slot name cannot be longer than 63 characters"@
    }
}

/// True when the character is Unicode whitespace.
fn char_is_whitespace(c: char) -> (r: bool)
    ensures
        r == is_whitespace_char(c),
{
    let u = c as u32;
    (9 <= u && u <= 13) || u == 0x20 || u == 0x85 || u == 0xA0 || u == 0x1680 || (0x2000 <= u && u
        <= 0x200A) || u == 0x2028 || u == 0x2029 || u == 0x202F || u == 0x205F || u == 0x3000
}

/// True when every character of `s` is whitespace, as `trim` strips it.
fn str_is_blank(s: &str) -> (r: bool)
    ensures
        r == blank_chars(s@),
{
    let n = s.unicode_len();
    let mut i: usize = 0;
    while i < n
        invariant
            0 <= i <= n,
            n == s@.len(),
            forall|k: int| 0 <= k < i ==> is_whitespace_char(#[trigger] s@[k]),
        decreases n - i,
    {
        let c = s.get_char(i);
        if !char_is_whitespace(c) {
            return false;
        }
        i = i + 1;
    }
    true
}

/// True when every byte of `s` is an ASCII alphanumeric or underscore.
fn str_is_slot_charset(s: &str) -> (r: bool)
    ensures
        r == slot_charset_ok(str_bytes(s@)),
{
    let bytes = s.as_bytes();
    let n = bytes.len();
    let mut i: usize = 0;
    while i < n
        invariant
            0 <= i <= n,
            n == str_bytes(s@).len(),
            bytes@ == str_bytes(s@),
            forall|k: int| 0 <= k < i ==> valid_slot_byte(#[trigger] bytes@[k]),
        decreases n - i,
    {
        let b = *vstd::slice::slice_index_get(bytes, i);
        if !((0x30 <= b && b <= 0x39) || (0x41 <= b && b <= 0x5a) || (0x61 <= b && b <= 0x7a) || b
            == 0x5f) {
            return false;
        }
        i = i + 1;
    }
    true
}

/// Configuration of a replication session.
#[derive(Debug)]
pub struct ReplicationConfig {
    pub connection_string: String,
    pub publication_name: String,
    pub slot_name: String,
    pub feedback_interval_secs: u64,
}

impl ReplicationConfig {
    /// Validate and build a configuration.  Succeeds exactly when none
    /// of the three names is blank — blank meaning empty or all Unicode
    /// whitespace, as `trim` strips it — and the slot name is a valid
    /// PostgreSQL identifier: ASCII alphanumerics and `_`, at most 63
    /// bytes.  A rejection names the first rule broken.  The feedback
    /// interval defaults to one second.
    pub fn new(connection_string: String, publication_name: String, slot_name: String) -> (r:
        Result<Self, ReplicationError>)
        ensures
            r is Ok <==> {
                &&& !blank_chars(connection_string@)
                &&& !blank_chars(publication_name@)
                &&& valid_slot_name(slot_name@)
            },
            r matches Ok(c) ==> {
                &&& c.connection_string@ == connection_string@
                &&& c.publication_name@ == publication_name@
                &&& c.slot_name@ == slot_name@
                &&& c.feedback_interval_secs == 1
            },
            r matches Err(e) ==> e is Config && e.spec_message() == spec_config_error(
                connection_string@,
                publication_name@,
                slot_name@,
            ),
    {
        if str_is_blank(connection_string.as_str()) {
            return Err(ReplicationError::config("Connection string cannot be empty"));
        }
        if str_is_blank(publication_name.as_str()) {
            return Err(ReplicationError::config("Publication name cannot be empty"));
        }
        if str_is_blank(slot_name.as_str()) {
            return Err(ReplicationError::config("Slot name cannot be empty"));
        }
        if !str_is_slot_charset(slot_name.as_str()) {
            return Err(ReplicationError::config(
                "Slot name can only contain alphanumeric characters and underscores",
            ));
        }
        if slot_name.as_str().as_bytes().len() > 63 {
            return Err(ReplicationError::config(
                "Slot name cannot be longer than 63 characters",
            ));
        }
        Ok(
            ReplicationConfig {
                connection_string,
                publication_name,
                slot_name,
                feedback_interval_secs: 1,
            },
        )
    }
}

} // verus!
