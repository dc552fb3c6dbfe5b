//! Byte-level frame codec.
//!
//! A frame starts with one ASCII header line
//! `ZENOH_MCAP|topic=<TOPIC>|recording_id=<ID>|count=<N>\n`
//! followed by `N` records, each a 4-byte little-endian length prefix and
//! that many bytes of a structured message holding the record's topic,
//! timestamp, payload, and optional schema descriptor. The encoder and the
//! decoder are both verified against one spec-level byte layout, and
//! decoding is proved to invert encoding on well-formed batches.

use vstd::prelude::*;
use vstd::bytes::*;

verus! {

/// ASCII newline, the header-line terminator.
pub const NEWLINE: u8 = 10;

/// ASCII vertical bar, the header-field separator.
pub const PIPE: u8 = 124;

/// ASCII digit zero.
pub const DIGIT_ZERO: u8 = 48;

/// ASCII digit nine.
pub const DIGIT_NINE: u8 = 57;

/// Error raised by the frame codec.
#[derive(Debug, Clone, Copy, PartialEq, Eq, Structural)]
pub enum CodecError {
    /// A field or a record does not fit its 32-bit length prefix.
    OversizedField,
    /// The input is not a well-formed frame.
    MalformedFrame,
    /// The compressor or the decompressor reported a failure.
    CompressionFailed,
}

/// Optional schema descriptor carried by a record.
#[derive(Debug, PartialEq, Eq)]
pub struct FrameSchema {
    pub format: Vec<u8>,
    pub schema_name: Vec<u8>,
    pub schema_hash: Vec<u8>,
    pub schema_data: Vec<u8>,
}

/// One record of a frame.
#[derive(Debug, PartialEq, Eq)]
pub struct FrameRecord {
    pub topic: Vec<u8>,
    pub timestamp_ns: u64,
    pub payload: Vec<u8>,
    pub schema: Option<FrameSchema>,
}

/// A decoded or to-be-encoded frame: the header fields and the records.
#[derive(Debug, PartialEq, Eq)]
pub struct FrameBatch {
    pub topic: Vec<u8>,
    pub recording_id: Vec<u8>,
    pub records: Vec<FrameRecord>,
}

/// Mathematical image of a schema descriptor.
#[verifier::ext_equal]
pub ghost struct SchemaModel {
    pub format: Seq<u8>,
    pub schema_name: Seq<u8>,
    pub schema_hash: Seq<u8>,
    pub schema_data: Seq<u8>,
}

/// Mathematical image of a record.
#[verifier::ext_equal]
pub ghost struct RecordModel {
    pub topic: Seq<u8>,
    pub timestamp_ns: u64,
    pub payload: Seq<u8>,
    pub schema: Option<SchemaModel>,
}

/// Mathematical image of a frame.
#[verifier::ext_equal]
pub ghost struct BatchModel {
    pub topic: Seq<u8>,
    pub recording_id: Seq<u8>,
    pub records: Seq<RecordModel>,
}

impl View for FrameSchema {
    type V = SchemaModel;

    open spec fn view(&self) -> SchemaModel {
        SchemaModel {
            format: self.format@,
            schema_name: self.schema_name@,
            schema_hash: self.schema_hash@,
            schema_data: self.schema_data@,
        }
    }
}

impl View for FrameRecord {
    type V = RecordModel;

    open spec fn view(&self) -> RecordModel {
        RecordModel {
            topic: self.topic@,
            timestamp_ns: self.timestamp_ns,
            payload: self.payload@,
            schema: match self.schema {
                Option::Some(s) => Option::Some(s@),
                Option::None => Option::None,
            },
        }
    }
}

impl View for FrameBatch {
    type V = BatchModel;

    open spec fn view(&self) -> BatchModel {
        BatchModel {
            topic: self.topic@,
            recording_id: self.recording_id@,
            records: self.records@.map_values(|r: FrameRecord| r@),
        }
    }
}

/// One more than the largest value a 4-byte length prefix can hold.
pub open spec fn len_bound() -> int {
    0x1_0000_0000
}

/// A length-prefixed byte string: 4-byte little-endian length, then the bytes.
pub open spec fn blob_bytes(b: Seq<u8>) -> Seq<u8> {
    spec_u32_to_le_bytes(b.len() as u32) + b
}

/// Byte layout of a schema descriptor: four length-prefixed fields.
pub open spec fn schema_bytes(s: SchemaModel) -> Seq<u8> {
    blob_bytes(s.format) + blob_bytes(s.schema_name) + blob_bytes(s.schema_hash) + blob_bytes(
        s.schema_data,
    )
}

/// Byte layout of a record's message: topic, timestamp, payload, and a
/// one-byte schema flag followed by the schema descriptor when present.
pub open spec fn message_bytes(r: RecordModel) -> Seq<u8> {
    blob_bytes(r.topic) + spec_u64_to_le_bytes(r.timestamp_ns) + blob_bytes(r.payload) + match r
        .schema {
        Option::Some(s) => seq![1u8] + schema_bytes(s),
        Option::None => seq![0u8],
    }
}

/// Byte layout of one record inside a frame: the length-prefixed message.
pub open spec fn record_bytes(r: RecordModel) -> Seq<u8> {
    blob_bytes(message_bytes(r))
}

/// Byte layout of a run of records.
pub open spec fn records_bytes(rs: Seq<RecordModel>) -> Seq<u8>
    decreases rs.len(),
{
    if rs.len() == 0 {
        Seq::empty()
    } else {
        record_bytes(rs[0]) + records_bytes(rs.drop_first())
    }
}

/// The literal `ZENOH_MCAP|topic=` that opens the header line.
pub open spec fn lit_magic_topic() -> Seq<u8> {
    seq![90u8, 69u8, 78u8, 79u8, 72u8, 95u8, 77u8, 67u8, 65u8, 80u8, 124u8, 116u8, 111u8, 112u8, 105u8, 99u8, 61u8]
}

/// The literal `|recording_id=` that separates the topic from the id.
pub open spec fn lit_recording_id() -> Seq<u8> {
    seq![124u8, 114u8, 101u8, 99u8, 111u8, 114u8, 100u8, 105u8, 110u8, 103u8, 95u8, 105u8, 100u8, 61u8]
}

/// The literal `|count=` that separates the id from the record count.
pub open spec fn lit_count() -> Seq<u8> {
    seq![124u8, 99u8, 111u8, 117u8, 110u8, 116u8, 61u8]
}

/// Whether a byte is an ASCII decimal digit.
pub open spec fn is_digit(b: u8) -> bool {
    DIGIT_ZERO <= b && b <= DIGIT_NINE
}

/// Decimal digits of `n`, most significant first.
pub open spec fn dec_bytes(n: nat) -> Seq<u8>
    decreases n,
{
    if n < 10 {
        seq![(DIGIT_ZERO + n) as u8]
    } else {
        dec_bytes(n / 10) + seq![(DIGIT_ZERO + n % 10) as u8]
    }
}

/// Value of a run of decimal digits, most significant first.
pub open spec fn dec_val(s: Seq<u8>) -> nat
    decreases s.len(),
{
    if s.len() == 0 {
        0
    } else {
        (dec_val(s.drop_last()) * 10 + (s.last() - DIGIT_ZERO)) as nat
    }
}

/// The header line of a frame, newline included.
pub open spec fn header_bytes(topic: Seq<u8>, rid: Seq<u8>, count: nat) -> Seq<u8> {
    lit_magic_topic() + topic + lit_recording_id() + rid + lit_count() + dec_bytes(count)
        + seq![NEWLINE]
}

/// The whole uncompressed frame: header line, then the records.
pub open spec fn frame_bytes(b: BatchModel) -> Seq<u8> {
    header_bytes(b.topic, b.recording_id, b.records.len()) + records_bytes(b.records)
}

impl SchemaModel {
    /// Every field fits its 4-byte length prefix.
    pub open spec fn wf(self) -> bool {
        &&& self.format.len() < len_bound()
        &&& self.schema_name.len() < len_bound()
        &&& self.schema_hash.len() < len_bound()
        &&& self.schema_data.len() < len_bound()
    }
}

impl RecordModel {
    /// Every field and the whole message fit their 4-byte length prefixes.
    pub open spec fn wf(self) -> bool {
        &&& self.topic.len() < len_bound()
        &&& self.payload.len() < len_bound()
        &&& match self.schema {
            Option::Some(s) => s.wf(),
            Option::None => true,
        }
        &&& message_bytes(self).len() < len_bound()
    }
}

impl BatchModel {
    /// The records are encodable and the header fields cannot corrupt the
    /// header line: neither may hold a newline or the field separator.
    pub open spec fn wf(self) -> bool {
        &&& forall|i: int| 0 <= i < self.records.len() ==> #[trigger] self.records[i].wf()
        &&& forall|i: int| 0 <= i < self.topic.len() ==> self.topic[i] != NEWLINE && self.topic[i]
            != PIPE
        &&& forall|i: int|
            0 <= i < self.recording_id.len() ==> self.recording_id[i] != NEWLINE
                && self.recording_id[i] != PIPE
    }
}

/// Appends every byte of `src` to `out`.
fn push_all(out: &mut Vec<u8>, src: &Vec<u8>)
    ensures
        final(out)@ == old(out)@ + src@,
{
    let mut i: usize = 0;
    while i < src.len()
        invariant
            i <= src.len(),
            out@ == old(out)@ + src@.take(i as int),
        decreases src.len() - i,
    {
        out.push(src[i]);
        i = i + 1;
        proof {
            assert(out@ =~= old(out)@ + src@.take(i as int));
        }
    }
    proof {
        assert(out@ =~= old(out)@ + src@);
    }
}

/// Appends a 4-byte little-endian length prefix and then `src` to `out`.
/// Fails, leaving `out` unchanged, when `src` does not fit the prefix.
fn push_blob(out: &mut Vec<u8>, src: &Vec<u8>) -> (r: bool)
    ensures
        r == (src@.len() < len_bound()),
        r ==> final(out)@ == old(out)@ + blob_bytes(src@),
        !r ==> final(out)@ == old(out)@,
{
    if src.len() > u32::MAX as usize {
        return false;
    }
    let len_le = u32_to_le_bytes(src.len() as u32);
    push_all(out, &len_le);
    push_all(out, src);
    proof {
        assert(out@ =~= old(out)@ + blob_bytes(src@));
    }
    true
}

/// Appends the decimal digits of `n` to `out`.
fn push_dec(out: &mut Vec<u8>, n: usize)
    ensures
        final(out)@ == old(out)@ + dec_bytes(n as nat),
    decreases n,
{
    if n < 10 {
        out.push(DIGIT_ZERO + n as u8);
    } else {
        push_dec(out, n / 10);
        out.push(DIGIT_ZERO + (n % 10) as u8);
        proof {
            assert(out@ =~= old(out)@ + dec_bytes(n as nat));
        }
    }
}

/// Appends the bytes of a record's message to `out`; fails, leaving `out`
/// unchanged, when a field is too long for its prefix.
fn encode_message(rec: &FrameRecord) -> (r: Result<Vec<u8>, CodecError>)
    ensures
        match r {
            Ok(v) => v@ == message_bytes(rec@) && rec@.topic.len() < len_bound()
                && rec@.payload.len() < len_bound() && (rec@.schema matches Some(s) ==> s.wf()),
            Err(e) => e == CodecError::OversizedField && !rec@.wf(),
        },
{
    let mut msg: Vec<u8> = Vec::new();
    if !push_blob(&mut msg, &rec.topic) {
        return Err(CodecError::OversizedField);
    }
    let ts = u64_to_le_bytes(rec.timestamp_ns);
    push_all(&mut msg, &ts);
    if !push_blob(&mut msg, &rec.payload) {
        return Err(CodecError::OversizedField);
    }
    match &rec.schema {
        Option::None => {
            msg.push(0u8);
        },
        Option::Some(s) => {
            msg.push(1u8);
            if !push_blob(&mut msg, &s.format) {
                return Err(CodecError::OversizedField);
            }
            if !push_blob(&mut msg, &s.schema_name) {
                return Err(CodecError::OversizedField);
            }
            if !push_blob(&mut msg, &s.schema_hash) {
                return Err(CodecError::OversizedField);
            }
            if !push_blob(&mut msg, &s.schema_data) {
                return Err(CodecError::OversizedField);
            }
        },
    }
    proof {
        assert(msg@ =~= message_bytes(rec@));
    }
    Ok(msg)
}

/// `records_bytes` grows by one record at the end when the run does.
pub proof fn lemma_records_bytes_snoc(rs: Seq<RecordModel>, r: RecordModel)
    ensures
        records_bytes(rs.push(r)) == records_bytes(rs) + record_bytes(r),
    decreases rs.len(),
{
    if rs.len() == 0 {
        assert(rs.push(r)[0] == r);
        assert(rs.push(r).drop_first() =~= Seq::<RecordModel>::empty());
        assert(records_bytes(rs.push(r)) == record_bytes(r) + records_bytes(
            Seq::<RecordModel>::empty(),
        ));
        assert(records_bytes(Seq::<RecordModel>::empty()) == Seq::<u8>::empty());
        assert(records_bytes(rs) == Seq::<u8>::empty());
        assert(records_bytes(rs.push(r)) =~= records_bytes(rs) + record_bytes(r));
    } else {
        assert(rs.push(r)[0] == rs[0]);
        assert(rs.push(r).drop_first() =~= rs.drop_first().push(r));
        lemma_records_bytes_snoc(rs.drop_first(), r);
        assert(records_bytes(rs.push(r)) == record_bytes(rs[0]) + records_bytes(
            rs.drop_first().push(r),
        ));
        assert(records_bytes(rs.push(r)) =~= records_bytes(rs) + record_bytes(r));
    }
}

/// Appends the ASCII header line for the given topic, recording id and
/// record count, newline included.
pub(crate) fn push_header_line(out: &mut Vec<u8>, topic: &Vec<u8>, rid: &Vec<u8>, count: usize)
    ensures
        final(out)@ == old(out)@ + header_bytes(topic@, rid@, count as nat),
{
    // ZENOH_MCAP|topic=
    out.push(90u8);
    out.push(69u8);
    out.push(78u8);
    out.push(79u8);
    out.push(72u8);
    out.push(95u8);
    out.push(77u8);
    out.push(67u8);
    out.push(65u8);
    out.push(80u8);
    out.push(124u8);
    out.push(116u8);
    out.push(111u8);
    out.push(112u8);
    out.push(105u8);
    out.push(99u8);
    out.push(61u8);
    proof {
        assert(out@ =~= old(out)@ + lit_magic_topic());
    }
    push_all(out, topic);
    // |recording_id=
    out.push(124u8);
    out.push(114u8);
    out.push(101u8);
    out.push(99u8);
    out.push(111u8);
    out.push(114u8);
    out.push(100u8);
    out.push(105u8);
    out.push(110u8);
    out.push(103u8);
    out.push(95u8);
    out.push(105u8);
    out.push(100u8);
    out.push(61u8);
    proof {
        assert(out@ =~= old(out)@ + lit_magic_topic() + topic@ + lit_recording_id());
    }
    push_all(out, rid);
    // |count=
    out.push(124u8);
    out.push(99u8);
    out.push(111u8);
    out.push(117u8);
    out.push(110u8);
    out.push(116u8);
    out.push(61u8);
    proof {
        assert(out@ =~= old(out)@ + lit_magic_topic() + topic@ + lit_recording_id() + rid@
            + lit_count());
    }
    push_dec(out, count);
    out.push(NEWLINE);
    proof {
        assert(out@ =~= old(out)@ + header_bytes(topic@, rid@, count as nat));
    }
}

/// Encodes a frame: the header line, then the length-prefixed records.
/// Fails exactly when some record does not fit its length prefixes.
pub fn encode_frame(batch: &FrameBatch) -> (r: Result<Vec<u8>, CodecError>)
    ensures
        match r {
            Ok(v) => (forall|i: int|
                0 <= i < batch@.records.len() ==> #[trigger] batch@.records[i].wf()) && v@
                == frame_bytes(batch@),
            Err(e) => e == CodecError::OversizedField && !(forall|i: int|
                0 <= i < batch@.records.len() ==> #[trigger] batch@.records[i].wf()),
        },
{
    let mut out: Vec<u8> = Vec::new();
    push_header_line(&mut out, &batch.topic, &batch.recording_id, batch.records.len());
    let ghost header: Seq<u8> = out@;
    let mut i: usize = 0;
    while i < batch.records.len()
        invariant
            i <= batch.records.len(),
            batch@.records.len() == batch.records.len(),
            forall|j: int| 0 <= j < batch.records.len() ==> batch@.records[j] == batch.records[j]@,
            out@ == header + records_bytes(batch@.records.take(i as int)),
            forall|j: int| 0 <= j < i ==> #[trigger] batch@.records[j].wf(),
        decreases batch.records.len() - i,
    {
        let msg = match encode_message(&batch.records[i]) {
            Ok(m) => m,
            Err(e) => {
                proof {
                    assert(!batch@.records[i as int].wf());
                }
                return Err(e);
            },
        };
        if !push_blob(&mut out, &msg) {
            proof {
                assert(message_bytes(batch@.records[i as int]).len() >= len_bound());
                assert(!batch@.records[i as int].wf());
            }
            return Err(CodecError::OversizedField);
        }
        proof {
            assert(batch@.records.take(i + 1).drop_last() =~= batch@.records.take(i as int));
            assert(batch@.records.take(i + 1) =~= batch@.records.take(i as int).push(
                batch@.records[i as int],
            ));
            lemma_records_bytes_snoc(batch@.records.take(i as int), batch@.records[i as int]);
        }
        i = i + 1;
    }
    proof {
        assert(batch@.records.take(batch.records.len() as int) =~= batch@.records);
        assert(out@ =~= frame_bytes(batch@));
    }
    Ok(out)
}

// ---------------------------------------------------------------------------
// Spec-level parsing
// ---------------------------------------------------------------------------

/// Index of the first occurrence of `x` in `b`, or `-1` when absent.
pub open spec fn find_byte(b: Seq<u8>, x: u8) -> int
    decreases b.len(),
{
    if b.len() == 0 {
        -1
    } else if b[0] == x {
        0
    } else {
        let r = find_byte(b.drop_first(), x);
        if r < 0 {
            -1
        } else {
            r + 1
        }
    }
}

/// What `find_byte` returns: the least index holding `x`, or `-1`.
pub proof fn lemma_find_byte(b: Seq<u8>, x: u8)
    ensures
        find_byte(b, x) == -1 ==> forall|i: int| 0 <= i < b.len() ==> b[i] != x,
        find_byte(b, x) >= 0 ==> 0 <= find_byte(b, x) < b.len() && b[find_byte(b, x)] == x
            && forall|i: int| 0 <= i < find_byte(b, x) ==> b[i] != x,
    decreases b.len(),
{
    if b.len() == 0 {
    } else if b[0] == x {
    } else {
        lemma_find_byte(b.drop_first(), x);
        let r = find_byte(b.drop_first(), x);
        if r < 0 {
            assert forall|i: int| 0 <= i < b.len() implies b[i] != x by {
                if i > 0 {
                    assert(b.drop_first()[i - 1] == b[i]);
                }
            }
        } else {
            assert(b[r + 1] == b.drop_first()[r]);
            assert forall|i: int| 0 <= i < r + 1 implies b[i] != x by {
                if i > 0 {
                    assert(b.drop_first()[i - 1] == b[i]);
                }
            }
        }
    }
}

/// `find_byte` finds exactly the position that is first to hold `x`.
pub proof fn lemma_find_byte_at(b: Seq<u8>, x: u8, i: int)
    requires
        0 <= i < b.len(),
        b[i] == x,
        forall|j: int| 0 <= j < i ==> b[j] != x,
    ensures
        find_byte(b, x) == i,
{
    lemma_find_byte(b, x);
}

/// Reads a 4-byte length prefix at `pos` and yields the prefixed bytes and
/// the position just after them.
pub open spec fn parse_blob(b: Seq<u8>, pos: int) -> Option<(Seq<u8>, int)> {
    if !(0 <= pos && pos + 4 <= b.len()) {
        Option::None
    } else {
        let len = spec_u32_from_le_bytes(b.subrange(pos, pos + 4)) as int;
        if pos + 4 + len > b.len() {
            Option::None
        } else {
            Option::Some((b.subrange(pos + 4, pos + 4 + len), pos + 4 + len))
        }
    }
}

/// Reads a schema descriptor (four length-prefixed fields) at `pos`.
pub open spec fn parse_schema(b: Seq<u8>, pos: int) -> Option<(SchemaModel, int)> {
    match parse_blob(b, pos) {
        Option::None => Option::None,
        Option::Some((format, p1)) => match parse_blob(b, p1) {
            Option::None => Option::None,
            Option::Some((name, p2)) => match parse_blob(b, p2) {
                Option::None => Option::None,
                Option::Some((hash, p3)) => match parse_blob(b, p3) {
                    Option::None => Option::None,
                    Option::Some((data, p4)) => Option::Some(
                        (
                            SchemaModel {
                                format: format,
                                schema_name: name,
                                schema_hash: hash,
                                schema_data: data,
                            },
                            p4,
                        ),
                    ),
                },
            },
        },
    }
}

/// Parses one record message: topic, timestamp, payload, schema flag, and
/// an optional schema descriptor; the message must end exactly there.
pub open spec fn parse_message(msg: Seq<u8>) -> Option<RecordModel> {
    match parse_blob(msg, 0) {
        Option::None => Option::None,
        Option::Some((topic, p1)) => {
            if p1 + 8 > msg.len() {
                Option::None
            } else {
                let ts = spec_u64_from_le_bytes(msg.subrange(p1, p1 + 8));
                match parse_blob(msg, p1 + 8) {
                    Option::None => Option::None,
                    Option::Some((payload, p2)) => {
                        if p2 >= msg.len() {
                            Option::None
                        } else if msg[p2] == 0 {
                            if p2 + 1 == msg.len() {
                                Option::Some(
                                    (RecordModel {
                                        topic: topic,
                                        timestamp_ns: ts,
                                        payload: payload,
                                        schema: Option::None,
                                    }),
                                )
                            } else {
                                Option::None
                            }
                        } else if msg[p2] == 1 {
                            match parse_schema(msg, p2 + 1) {
                                Option::None => Option::None,
                                Option::Some((sch, p3)) => {
                                    if p3 == msg.len() {
                                        Option::Some(
                                            (RecordModel {
                                                topic: topic,
                                                timestamp_ns: ts,
                                                payload: payload,
                                                schema: Option::Some(sch),
                                            }),
                                        )
                                    } else {
                                        Option::None
                                    }
                                },
                            }
                        } else {
                            Option::None
                        }
                    },
                }
            }
        },
    }
}

/// Parses `n` length-prefixed records starting at `pos`; the records must
/// consume the input exactly.
pub open spec fn parse_records_from(b: Seq<u8>, pos: int, n: nat) -> Option<Seq<RecordModel>>
    decreases n,
{
    if n == 0 {
        if pos == b.len() {
            Option::Some(Seq::empty())
        } else {
            Option::None
        }
    } else {
        match parse_blob(b, pos) {
            Option::None => Option::None,
            Option::Some((msg, p2)) => match parse_message(msg) {
                Option::None => Option::None,
                Option::Some(r) => match parse_records_from(b, p2, (n - 1) as nat) {
                    Option::None => Option::None,
                    Option::Some(rs) => Option::Some(seq![r] + rs),
                },
            },
        }
    }
}

/// Parses the header line (without its newline) into topic, recording id,
/// and record count.
pub open spec fn parse_header(line: Seq<u8>) -> Option<(Seq<u8>, Seq<u8>, int)> {
    if line.len() < 17 || line.subrange(0, 17) != lit_magic_topic() {
        Option::None
    } else {
        let rest = line.subrange(17, line.len() as int);
        let i = find_byte(rest, PIPE);
        if i < 0 {
            Option::None
        } else {
            let topic = rest.subrange(0, i);
            let rest2 = rest.subrange(i, rest.len() as int);
            if rest2.len() < 14 || rest2.subrange(0, 14) != lit_recording_id() {
                Option::None
            } else {
                let rest3 = rest2.subrange(14, rest2.len() as int);
                let j = find_byte(rest3, PIPE);
                if j < 0 {
                    Option::None
                } else {
                    let rid = rest3.subrange(0, j);
                    let rest4 = rest3.subrange(j, rest3.len() as int);
                    if rest4.len() < 7 || rest4.subrange(0, 7) != lit_count() {
                        Option::None
                    } else {
                        let digits = rest4.subrange(7, rest4.len() as int);
                        if digits.len() == 0 || exists|k: int|
                            0 <= k < digits.len() && !is_digit(digits[k]) {
                            Option::None
                        } else if dec_val(digits) > usize::MAX {
                            Option::None
                        } else {
                            Option::Some((topic, rid, dec_val(digits) as int))
                        }
                    }
                }
            }
        }
    }
}

/// Parses a whole uncompressed frame.
pub open spec fn parse_frame(b: Seq<u8>) -> Option<BatchModel> {
    let nl = find_byte(b, NEWLINE);
    if nl < 0 {
        Option::None
    } else {
        match parse_header(b.subrange(0, nl)) {
            Option::None => Option::None,
            Option::Some((topic, rid, n)) => match parse_records_from(b, nl + 1, n as nat) {
                Option::None => Option::None,
                Option::Some(rs) => {
                    if rs.len() == n {
                        Option::Some((BatchModel { topic: topic, recording_id: rid, records: rs }))
                    } else {
                        Option::None
                    }
                },
            },
        }
    }
}

// ---------------------------------------------------------------------------
// Decoding inverts encoding
// ---------------------------------------------------------------------------


/// Equality with a subrange transfers to every sub-subrange of it.
pub proof fn lemma_subrange_of_subrange(b: Seq<u8>, pos: int, v: Seq<u8>, lo: int, hi: int)
    requires
        0 <= pos,
        pos + v.len() <= b.len(),
        b.subrange(pos, pos + v.len() as int) == v,
        0 <= lo <= hi <= v.len(),
    ensures
        b.subrange(pos + lo, pos + hi) == v.subrange(lo, hi),
{
    assert forall|k: int| 0 <= k < hi - lo implies b.subrange(pos + lo, pos + hi)[k] == v.subrange(
        lo,
        hi,
    )[k] by {
        assert(b.subrange(pos, pos + v.len() as int)[lo + k] == v[lo + k]);
    }
    assert(b.subrange(pos + lo, pos + hi) =~= v.subrange(lo, hi));
}

/// A length-prefixed byte string parses back to itself wherever it stands.
pub proof fn lemma_parse_blob_at(b: Seq<u8>, pos: int, x: Seq<u8>)
    requires
        0 <= pos,
        x.len() < len_bound(),
        pos + 4 + x.len() <= b.len(),
        b.subrange(pos, pos + 4 + x.len()) == blob_bytes(x),
    ensures
        parse_blob(b, pos) == Option::Some((x, pos + 4 + x.len())),
{
    lemma_auto_spec_u32_to_from_le_bytes();
    let v = blob_bytes(x);
    assert(v.len() == 4 + x.len());
    lemma_subrange_of_subrange(b, pos, v, 0, 4);
    assert(v.subrange(0, 4) =~= spec_u32_to_le_bytes(x.len() as u32));
    assert(b.subrange(pos, pos + 4) =~= v.subrange(0, 4));
    assert(spec_u32_from_le_bytes(b.subrange(pos, pos + 4)) == x.len() as u32);
    lemma_subrange_of_subrange(b, pos, v, 4, v.len() as int);
    assert(v.subrange(4, v.len() as int) =~= x);
    assert(b.subrange(pos + 4, pos + 4 + x.len() as int) =~= x);
}

/// A schema descriptor parses back to itself wherever it stands.
pub proof fn lemma_parse_schema_at(b: Seq<u8>, pos: int, s: SchemaModel)
    requires
        0 <= pos,
        s.wf(),
        pos + schema_bytes(s).len() <= b.len(),
        b.subrange(pos, pos + schema_bytes(s).len()) == schema_bytes(s),
    ensures
        parse_schema(b, pos) == Option::Some((s, pos + schema_bytes(s).len())),
{
    lemma_auto_spec_u32_to_from_le_bytes();
    let v = schema_bytes(s);
    let l0: int = 4 + s.format.len() as int;
    let l1: int = 4 + s.schema_name.len() as int;
    let l2: int = 4 + s.schema_hash.len() as int;
    let l3: int = 4 + s.schema_data.len() as int;
    assert(v.len() == l0 + l1 + l2 + l3);
    lemma_subrange_of_subrange(b, pos, v, 0, l0);
    assert(v.subrange(0, l0) =~= blob_bytes(s.format));
    lemma_parse_blob_at(b, pos, s.format);
    lemma_subrange_of_subrange(b, pos, v, l0, l0 + l1);
    assert(v.subrange(l0, l0 + l1) =~= blob_bytes(s.schema_name));
    lemma_parse_blob_at(b, pos + l0, s.schema_name);
    lemma_subrange_of_subrange(b, pos, v, l0 + l1, l0 + l1 + l2);
    assert(v.subrange(l0 + l1, l0 + l1 + l2) =~= blob_bytes(s.schema_hash));
    lemma_parse_blob_at(b, pos + l0 + l1, s.schema_hash);
    lemma_subrange_of_subrange(b, pos, v, l0 + l1 + l2, l0 + l1 + l2 + l3);
    assert(v.subrange(l0 + l1 + l2, l0 + l1 + l2 + l3) =~= blob_bytes(s.schema_data));
    lemma_parse_blob_at(b, pos + l0 + l1 + l2, s.schema_data);
}

/// A record message parses back to the record that produced it.
pub proof fn lemma_parse_message(r: RecordModel)
    requires
        r.wf(),
    ensures
        parse_message(message_bytes(r)) == Option::Some(r),
{
    lemma_auto_spec_u32_to_from_le_bytes();
    lemma_auto_spec_u64_to_from_le_bytes();
    let msg = message_bytes(r);
    assert(msg.subrange(0, msg.len() as int) =~= msg);
    let l0: int = 4 + r.topic.len() as int;
    let p1: int = l0;
    lemma_subrange_of_subrange(msg, 0, msg, 0, p1);
    assert(msg.subrange(0, p1) =~= blob_bytes(r.topic));
    lemma_parse_blob_at(msg, 0, r.topic);
    lemma_subrange_of_subrange(msg, 0, msg, p1, p1 + 8);
    assert(msg.subrange(p1, p1 + 8) =~= spec_u64_to_le_bytes(r.timestamp_ns));
    assert(spec_u64_from_le_bytes(msg.subrange(p1, p1 + 8)) == r.timestamp_ns);
    let l1: int = 4 + r.payload.len() as int;
    let p2: int = p1 + 8 + l1;
    lemma_subrange_of_subrange(msg, 0, msg, p1 + 8, p2);
    assert(msg.subrange(p1 + 8, p2) =~= blob_bytes(r.payload));
    lemma_parse_blob_at(msg, p1 + 8, r.payload);
    match r.schema {
        Option::None => {
            assert(msg.len() == p2 + 1);
            assert(msg[p2] == 0);
        },
        Option::Some(sch) => {
            assert(msg.len() == p2 + 1 + schema_bytes(sch).len());
            assert(msg[p2] == 1);
            lemma_subrange_of_subrange(msg, 0, msg, p2 + 1, p2 + 1 + schema_bytes(sch).len() as int);
            assert(msg.subrange(p2 + 1, p2 + 1 + schema_bytes(sch).len() as int) =~= schema_bytes(
                sch,
            ));
            lemma_parse_schema_at(msg, p2 + 1, sch);
        },
    }
}

/// A run of well-formed records parses back to itself from its own bytes.
pub proof fn lemma_parse_records_from(b: Seq<u8>, pos: int, rs: Seq<RecordModel>)
    requires
        0 <= pos <= b.len(),
        forall|i: int| 0 <= i < rs.len() ==> #[trigger] rs[i].wf(),
        b.subrange(pos, b.len() as int) == records_bytes(rs),
    ensures
        parse_records_from(b, pos, rs.len()) == Option::Some(rs),
    decreases rs.len(),
{
    lemma_auto_spec_u32_to_from_le_bytes();
    if rs.len() == 0 {
        assert(records_bytes(rs).len() == 0);
        assert(pos == b.len());
    } else {
        let r0 = rs[0];
        assert(r0.wf());
        let msg = message_bytes(r0);
        let rl: int = 4 + msg.len() as int;
        let v = records_bytes(rs);
        assert(records_bytes(rs) == record_bytes(r0) + records_bytes(rs.drop_first()));
        assert(record_bytes(r0).len() == rl);
        assert(pos + rl <= b.len());
        lemma_subrange_of_subrange(b, pos, v, 0, rl);
        assert(v.subrange(0, rl) =~= blob_bytes(msg));
        lemma_parse_blob_at(b, pos, msg);
        lemma_parse_message(r0);
        lemma_subrange_of_subrange(b, pos, v, rl, v.len() as int);
        assert(v.subrange(rl, v.len() as int) =~= records_bytes(rs.drop_first()));
        assert(b.subrange(pos + rl, b.len() as int) == records_bytes(rs.drop_first()));
        lemma_parse_records_from(b, pos + rl, rs.drop_first());
        assert(seq![r0] + rs.drop_first() =~= rs);
    }
}

/// Every digit of `dec_bytes(n)` is a decimal digit.
pub proof fn lemma_dec_bytes_digits(n: nat)
    ensures
        dec_bytes(n).len() >= 1,
        forall|k: int| 0 <= k < dec_bytes(n).len() ==> is_digit(#[trigger] dec_bytes(n)[k]),
    decreases n,
{
    if n >= 10 {
        lemma_dec_bytes_digits(n / 10);
    }
}

/// Reading the decimal digits of `n` gives back `n`.
pub proof fn lemma_dec_val_of_dec_bytes(n: nat)
    ensures
        dec_val(dec_bytes(n)) == n,
    decreases n,
{
    if n < 10 {
        assert(dec_bytes(n) == seq![(DIGIT_ZERO + n) as u8]);
        assert(dec_bytes(n).drop_last() =~= Seq::<u8>::empty());
        assert(dec_bytes(n).last() == (DIGIT_ZERO + n) as u8);
        assert((DIGIT_ZERO + n) as u8 == 48 + n);
        assert(dec_val(Seq::<u8>::empty()) == 0);
    } else {
        lemma_dec_val_of_dec_bytes(n / 10);
        assert(dec_bytes(n).drop_last() =~= dec_bytes(n / 10));
        assert(dec_bytes(n).last() == (DIGIT_ZERO + n % 10) as u8);
        assert((DIGIT_ZERO + n % 10) as u8 == 48 + n % 10);
        assert(dec_val(dec_bytes(n)) == (dec_val(dec_bytes(n / 10)) * 10 + (48 + n % 10 - 48)) as nat);
        assert((n / 10) * 10 + n % 10 == n);
    }
}

/// The header line parses back to the fields that produced it. The line is
/// the header without its terminating newline.
#[verifier::rlimit(60)]
pub proof fn lemma_parse_header(topic: Seq<u8>, rid: Seq<u8>, n: nat)
    requires
        forall|i: int| 0 <= i < topic.len() ==> topic[i] != NEWLINE && topic[i] != PIPE,
        forall|i: int| 0 <= i < rid.len() ==> rid[i] != NEWLINE && rid[i] != PIPE,
        n <= usize::MAX,
    ensures
        parse_header(
            lit_magic_topic() + topic + lit_recording_id() + rid + lit_count() + dec_bytes(n),
        ) == Option::Some((topic, rid, n as int)),
{
    let line = lit_magic_topic() + topic + lit_recording_id() + rid + lit_count() + dec_bytes(n);
    lemma_dec_bytes_digits(n);
    lemma_dec_val_of_dec_bytes(n);
    let dn = dec_bytes(n).len() as int;
    assert(line.len() == 17 + topic.len() + 14 + rid.len() + 7 + dn);
    assert(line.subrange(0, 17) =~= lit_magic_topic());
    let rest = line.subrange(17, line.len() as int);
    assert(rest =~= topic + lit_recording_id() + rid + lit_count() + dec_bytes(n));
    assert(lit_recording_id()[0] == PIPE);
    assert(rest[topic.len() as int] == PIPE);
    lemma_find_byte_at(rest, PIPE, topic.len() as int);
    assert(rest.subrange(0, topic.len() as int) =~= topic);
    let rest2 = rest.subrange(topic.len() as int, rest.len() as int);
    assert(rest2 =~= lit_recording_id() + rid + lit_count() + dec_bytes(n));
    assert(rest2.subrange(0, 14) =~= lit_recording_id());
    let rest3 = rest2.subrange(14, rest2.len() as int);
    assert(rest3 =~= rid + lit_count() + dec_bytes(n));
    assert(lit_count()[0] == PIPE);
    assert(rest3[rid.len() as int] == PIPE);
    lemma_find_byte_at(rest3, PIPE, rid.len() as int);
    assert(rest3.subrange(0, rid.len() as int) =~= rid);
    let rest4 = rest3.subrange(rid.len() as int, rest3.len() as int);
    assert(rest4 =~= lit_count() + dec_bytes(n));
    assert(rest4.subrange(0, 7) =~= lit_count());
    let digits = rest4.subrange(7, rest4.len() as int);
    assert(digits =~= dec_bytes(n));
}

/// No byte of the header line before its newline is a newline.
proof fn lemma_header_no_early_newline(topic: Seq<u8>, rid: Seq<u8>, n: nat)
    requires
        forall|i: int| 0 <= i < topic.len() ==> topic[i] != NEWLINE && topic[i] != PIPE,
        forall|i: int| 0 <= i < rid.len() ==> rid[i] != NEWLINE && rid[i] != PIPE,
    ensures
        forall|i: int|
            0 <= i < header_bytes(topic, rid, n).len() - 1 ==> #[trigger] header_bytes(
                topic,
                rid,
                n,
            )[i] != NEWLINE,
        header_bytes(topic, rid, n)[header_bytes(topic, rid, n).len() - 1] == NEWLINE,
{
    lemma_dec_bytes_digits(n);
    let h = header_bytes(topic, rid, n);
    let line = lit_magic_topic() + topic + lit_recording_id() + rid + lit_count() + dec_bytes(n);
    assert(h =~= line + seq![NEWLINE]);
    assert forall|i: int| 0 <= i < h.len() - 1 implies #[trigger] h[i] != NEWLINE by {
        assert(h[i] == line[i]);
        if i < 17 {
            assert(lit_magic_topic()[i] != NEWLINE);
        } else if i < 17 + topic.len() {
            assert(line[i] == topic[i - 17]);
        } else if i < 17 + topic.len() + 14 {
            assert(line[i] == lit_recording_id()[i - 17 - topic.len()]);
            assert(lit_recording_id()[i - 17 - topic.len()] != NEWLINE);
        } else if i < 17 + topic.len() + 14 + rid.len() {
            assert(line[i] == rid[i - 17 - topic.len() - 14]);
        } else if i < 17 + topic.len() + 14 + rid.len() + 7 {
            assert(line[i] == lit_count()[i - 17 - topic.len() - 14 - rid.len()]);
            assert(lit_count()[i - 17 - topic.len() - 14 - rid.len()] != NEWLINE);
        } else {
            assert(line[i] == dec_bytes(n)[i - 17 - topic.len() - 14 - rid.len() - 7]);
            assert(is_digit(dec_bytes(n)[i - 17 - topic.len() - 14 - rid.len() - 7]));
        }
    }
}

/// Decoding inverts encoding: a well-formed batch parses back from its own
/// frame bytes, with the same header fields and the same records in the same
/// order.
pub proof fn lemma_frame_round_trip(m: BatchModel)
    requires
        m.wf(),
        m.records.len() <= usize::MAX,
    ensures
        parse_frame(frame_bytes(m)) == Option::Some(m),
{
    let b = frame_bytes(m);
    let h = header_bytes(m.topic, m.recording_id, m.records.len());
    let line = lit_magic_topic() + m.topic + lit_recording_id() + m.recording_id + lit_count()
        + dec_bytes(m.records.len());
    lemma_header_no_early_newline(m.topic, m.recording_id, m.records.len());
    assert(b[h.len() - 1] == h[h.len() - 1]);
    assert forall|i: int| 0 <= i < h.len() - 1 implies b[i] != NEWLINE by {
        assert(b[i] == h[i]);
    }
    lemma_find_byte_at(b, NEWLINE, h.len() - 1);
    assert(b.subrange(0, h.len() - 1) =~= line);
    lemma_parse_header(m.topic, m.recording_id, m.records.len());
    assert(b.subrange(h.len() as int, b.len() as int) =~= records_bytes(m.records));
    lemma_parse_records_from(b, h.len() as int, m.records);
}

// ---------------------------------------------------------------------------
// Executable decoding
// ---------------------------------------------------------------------------

/// The header-opening literal as a vector.
fn lit_magic_topic_vec() -> (v: Vec<u8>)
    ensures
        v@ == lit_magic_topic(),
{
    let mut v: Vec<u8> = Vec::new();
    v.push(90u8);
    v.push(69u8);
    v.push(78u8);
    v.push(79u8);
    v.push(72u8);
    v.push(95u8);
    v.push(77u8);
    v.push(67u8);
    v.push(65u8);
    v.push(80u8);
    v.push(124u8);
    v.push(116u8);
    v.push(111u8);
    v.push(112u8);
    v.push(105u8);
    v.push(99u8);
    v.push(61u8);
    proof {
        assert(v@ =~= lit_magic_topic());
    }
    v
}

/// The recording-id separator literal as a vector.
fn lit_recording_id_vec() -> (v: Vec<u8>)
    ensures
        v@ == lit_recording_id(),
{
    let mut v: Vec<u8> = Vec::new();
    v.push(124u8);
    v.push(114u8);
    v.push(101u8);
    v.push(99u8);
    v.push(111u8);
    v.push(114u8);
    v.push(100u8);
    v.push(105u8);
    v.push(110u8);
    v.push(103u8);
    v.push(95u8);
    v.push(105u8);
    v.push(100u8);
    v.push(61u8);
    proof {
        assert(v@ =~= lit_recording_id());
    }
    v
}

/// The count separator literal as a vector.
fn lit_count_vec() -> (v: Vec<u8>)
    ensures
        v@ == lit_count(),
{
    let mut v: Vec<u8> = Vec::new();
    v.push(124u8);
    v.push(99u8);
    v.push(111u8);
    v.push(117u8);
    v.push(110u8);
    v.push(116u8);
    v.push(61u8);
    proof {
        assert(v@ =~= lit_count());
    }
    v
}

/// Whether `data` holds exactly `lit` starting at `pos`.
fn starts_with_at(data: &Vec<u8>, pos: usize, lit: &Vec<u8>) -> (r: bool)
    requires
        pos <= data@.len(),
    ensures
        r == (pos + lit@.len() <= data@.len() && data@.subrange(
            pos as int,
            pos + lit@.len(),
        ) == lit@),
{
    if data.len() - pos < lit.len() {
        return false;
    }
    let mut i: usize = 0;
    while i < lit.len()
        invariant
            i <= lit@.len(),
            pos + lit@.len() <= data@.len(),
            data@.len() <= usize::MAX,
            forall|j: int| 0 <= j < i ==> data@[pos + j] == lit@[j],
        decreases lit@.len() - i,
    {
        if data[pos + i] != lit[i] {
            proof {
                assert(data@.subrange(pos as int, pos + lit@.len())[i as int] != lit@[i as int]);
            }
            return false;
        }
        i = i + 1;
    }
    proof {
        assert(data@.subrange(pos as int, pos + lit@.len()) =~= lit@);
    }
    true
}

/// First position of `x` in `data`, if any.
fn find_byte_in(data: &Vec<u8>, x: u8) -> (r: Option<usize>)
    ensures
        match r {
            Some(i) => find_byte(data@, x) == i as int,
            None => find_byte(data@, x) == -1,
        },
{
    let mut i: usize = 0;
    while i < data.len()
        invariant
            i <= data@.len(),
            forall|j: int| 0 <= j < i ==> data@[j] != x,
        decreases data@.len() - i,
    {
        if data[i] == x {
            proof {
                lemma_find_byte_at(data@, x, i as int);
            }
            return Some(i);
        }
        i = i + 1;
    }
    proof {
        lemma_find_byte(data@, x);
    }
    None
}

/// Copies the subrange `[from, to)` of `data` into a fresh vector.
pub(crate) fn copy_range(data: &Vec<u8>, from: usize, to: usize) -> (r: Vec<u8>)
    requires
        from <= to <= data@.len(),
    ensures
        r@ == data@.subrange(from as int, to as int),
{
    vstd::slice::slice_to_vec(vstd::slice::slice_subrange(data.as_slice(), from, to))
}

/// Reads a 4-byte length prefix at `pos` and copies out the prefixed bytes.
fn read_blob(data: &Vec<u8>, pos: usize) -> (r: Option<(Vec<u8>, usize)>)
    requires
        pos <= data@.len(),
    ensures
        match parse_blob(data@, pos as int) {
            Option::Some(v) => (r matches Some(p) && p.0@ == v.0 && p.1 as int == v.1 && p.1
                <= data@.len()),
            Option::None => r is None,
        },
{
    if data.len() - pos < 4 {
        return None;
    }
    let len_bytes = vstd::slice::slice_subrange(data.as_slice(), pos, pos + 4);
    let len32 = u32_from_le_bytes(len_bytes);
    let len = len32 as usize;
    if data.len() - (pos + 4) < len {
        return None;
    }
    let body = copy_range(data, pos + 4, pos + 4 + len);
    Some((body, pos + 4 + len))
}

/// Decodes one record message; fails on anything that is not the exact
/// encoding of a record.
fn decode_message(msg: &Vec<u8>) -> (r: Result<FrameRecord, CodecError>)
    ensures
        match parse_message(msg@) {
            Option::Some(m) => (r matches Ok(rec) && rec@ == m),
            Option::None => (r matches Err(e) && e == CodecError::MalformedFrame),
        },
{
    let (topic, p1) = match read_blob(msg, 0) {
        Some(p) => p,
        None => {
            return Err(CodecError::MalformedFrame);
        },
    };
    if msg.len() - p1 < 8 {
        return Err(CodecError::MalformedFrame);
    }
    let ts_bytes = vstd::slice::slice_subrange(msg.as_slice(), p1, p1 + 8);
    let ts = u64_from_le_bytes(ts_bytes);
    let (payload, p2) = match read_blob(msg, p1 + 8) {
        Some(p) => p,
        None => {
            return Err(CodecError::MalformedFrame);
        },
    };
    if p2 >= msg.len() {
        return Err(CodecError::MalformedFrame);
    }
    let flag = msg[p2];
    if flag == 0 {
        if p2 + 1 == msg.len() {
            Ok(FrameRecord { topic, timestamp_ns: ts, payload, schema: None })
        } else {
            Err(CodecError::MalformedFrame)
        }
    } else if flag == 1 {
        let (format, q1) = match read_blob(msg, p2 + 1) {
            Some(p) => p,
            None => {
                return Err(CodecError::MalformedFrame);
            },
        };
        let (schema_name, q2) = match read_blob(msg, q1) {
            Some(p) => p,
            None => {
                return Err(CodecError::MalformedFrame);
            },
        };
        let (schema_hash, q3) = match read_blob(msg, q2) {
            Some(p) => p,
            None => {
                return Err(CodecError::MalformedFrame);
            },
        };
        let (schema_data, q4) = match read_blob(msg, q3) {
            Some(p) => p,
            None => {
                return Err(CodecError::MalformedFrame);
            },
        };
        if q4 == msg.len() {
            Ok(
                FrameRecord {
                    topic,
                    timestamp_ns: ts,
                    payload,
                    schema: Some(FrameSchema { format, schema_name, schema_hash, schema_data }),
                },
            )
        } else {
            Err(CodecError::MalformedFrame)
        }
    } else {
        Err(CodecError::MalformedFrame)
    }
}

/// `dec_val` never shrinks as the digit run grows.
proof fn lemma_dec_val_grows(s: Seq<u8>, i: int)
    requires
        0 <= i <= s.len(),
        forall|k: int| 0 <= k < s.len() ==> is_digit(s[k]),
    ensures
        dec_val(s.take(i)) <= dec_val(s),
    decreases s.len() - i,
{
    if i < s.len() {
        assert(s.take(i + 1).drop_last() =~= s.take(i));
        assert(is_digit(s[i]));
        assert(s.take(i + 1).last() == s[i]);
        assert(dec_val(s.take(i + 1)) == (dec_val(s.take(i)) * 10 + (s.take(i + 1).last()
            - DIGIT_ZERO)) as nat);
        assert(dec_val(s.take(i)) * 10 >= dec_val(s.take(i)));
        lemma_dec_val_grows(s, i + 1);
    } else {
        assert(s.take(i) =~= s);
    }
}

/// Reads a run of decimal digits as a `usize`, detecting overflow.
fn parse_dec_digits(digits: &Vec<u8>) -> (r: Option<usize>)
    requires
        digits@.len() > 0,
        forall|k: int| 0 <= k < digits@.len() ==> is_digit(digits@[k]),
    ensures
        match r {
            Some(n) => dec_val(digits@) == n as nat,
            None => dec_val(digits@) > usize::MAX,
        },
{
    let mut acc: usize = 0;
    let mut i: usize = 0;
    while i < digits.len()
        invariant
            i <= digits@.len(),
            forall|k: int| 0 <= k < digits@.len() ==> is_digit(digits@[k]),
            acc as nat == dec_val(digits@.take(i as int)),
        decreases digits@.len() - i,
    {
        let d = digits[i] - DIGIT_ZERO;
        if acc > (usize::MAX - d as usize) / 10 {
            proof {
                assert(acc * 10 + d > usize::MAX) by (nonlinear_arith)
                    requires
                        acc > (usize::MAX - d as usize) / 10,
                        d <= 9,
                ;
                assert(digits@.take(i + 1).drop_last() =~= digits@.take(i as int));
                assert(dec_val(digits@.take(i + 1)) == (dec_val(digits@.take(i as int)) * 10 + (
                digits@[i as int] - DIGIT_ZERO)) as nat);
                assert(dec_val(digits@.take(i + 1)) > usize::MAX);
                lemma_dec_val_grows(digits@, i + 1);
            }
            return None;
        }
        proof {
            assert(acc * 10 + d <= usize::MAX) by (nonlinear_arith)
                requires
                    acc <= (usize::MAX - d as usize) / 10,
                    d <= 9,
            ;
            assert(digits@.take(i + 1).drop_last() =~= digits@.take(i as int));
        }
        acc = acc * 10 + d as usize;
        i = i + 1;
    }
    proof {
        assert(digits@.take(digits@.len() as int) =~= digits@);
    }
    Some(acc)
}

/// Decodes the header line (without its newline).
fn decode_header(line: &Vec<u8>) -> (r: Result<(Vec<u8>, Vec<u8>, usize), CodecError>)
    ensures
        match parse_header(line@) {
            Option::Some(t) => (r matches Ok(p) && p.0@ == t.0 && p.1@ == t.1 && p.2 as int
                == t.2),
            Option::None => (r matches Err(e) && e == CodecError::MalformedFrame),
        },
{
    let magic = lit_magic_topic_vec();
    if !starts_with_at(line, 0, &magic) {
        return Err(CodecError::MalformedFrame);
    }
    let rest = copy_range(line, 17, line.len());
    let i = match find_byte_in(&rest, PIPE) {
        Some(i) => i,
        None => {
            return Err(CodecError::MalformedFrame);
        },
    };
    proof {
        lemma_find_byte(rest@, PIPE);
    }
    let topic = copy_range(&rest, 0, i);
    let lit_rid = lit_recording_id_vec();
    if !starts_with_at(&rest, i, &lit_rid) {
        proof {
            let rest2 = rest@.subrange(i as int, rest@.len() as int);
            assert(rest2.len() < 14 || rest2.subrange(0, 14) != lit_recording_id()) by {
                if rest2.len() >= 14 && rest2.subrange(0, 14) == lit_recording_id() {
                    assert forall|k: int| 0 <= k < 14 implies rest@.subrange(
                        i as int,
                        i + 14,
                    )[k] == lit_recording_id()[k] by {
                        assert(rest2.subrange(0, 14)[k] == lit_recording_id()[k]);
                    }
                    assert(rest@.subrange(i as int, i + 14) =~= lit_recording_id());
                }
            }
        }
        return Err(CodecError::MalformedFrame);
    }
    proof {
        let rest2 = rest@.subrange(i as int, rest@.len() as int);
        assert(rest2.subrange(0, 14) =~= rest@.subrange(i as int, i + 14));
    }
    let rest3 = copy_range(&rest, i + 14, rest.len());
    proof {
        let rest2 = rest@.subrange(i as int, rest@.len() as int);
        assert(rest3@ =~= rest2.subrange(14, rest2.len() as int));
    }
    let j = match find_byte_in(&rest3, PIPE) {
        Some(j) => j,
        None => {
            return Err(CodecError::MalformedFrame);
        },
    };
    proof {
        lemma_find_byte(rest3@, PIPE);
    }
    let rid = copy_range(&rest3, 0, j);
    let lit_cnt = lit_count_vec();
    if !starts_with_at(&rest3, j, &lit_cnt) {
        proof {
            let rest4 = rest3@.subrange(j as int, rest3@.len() as int);
            assert(rest4.len() < 7 || rest4.subrange(0, 7) != lit_count()) by {
                if rest4.len() >= 7 && rest4.subrange(0, 7) == lit_count() {
                    assert forall|k: int| 0 <= k < 7 implies rest3@.subrange(
                        j as int,
                        j + 7,
                    )[k] == lit_count()[k] by {
                        assert(rest4.subrange(0, 7)[k] == lit_count()[k]);
                    }
                    assert(rest3@.subrange(j as int, j + 7) =~= lit_count());
                }
            }
        }
        return Err(CodecError::MalformedFrame);
    }
    proof {
        let rest4 = rest3@.subrange(j as int, rest3@.len() as int);
        assert(rest4.subrange(0, 7) =~= rest3@.subrange(j as int, j + 7));
    }
    let digits = copy_range(&rest3, j + 7, rest3.len());
    proof {
        let rest4 = rest3@.subrange(j as int, rest3@.len() as int);
        assert(digits@ =~= rest4.subrange(7, rest4.len() as int));
    }
    if digits.len() == 0 {
        return Err(CodecError::MalformedFrame);
    }
    let mut all_digits = true;
    let mut k: usize = 0;
    while k < digits.len()
        invariant
            k <= digits@.len(),
            all_digits ==> forall|t: int| 0 <= t < k ==> is_digit(digits@[t]),
            !all_digits ==> exists|t: int| 0 <= t < digits@.len() && !is_digit(#[trigger] digits@[t]),
        decreases digits@.len() - k,
    {
        let b = digits[k];
        if b < DIGIT_ZERO || b > DIGIT_NINE {
            proof {
                assert(!is_digit(digits@[k as int]));
            }
            all_digits = false;
        }
        k = k + 1;
    }
    if !all_digits {
        return Err(CodecError::MalformedFrame);
    }
    let n = match parse_dec_digits(&digits) {
        Some(n) => n,
        None => {
            return Err(CodecError::MalformedFrame);
        },
    };
    Ok((topic, rid, n))
}

/// Decodes a whole uncompressed frame; fails on anything that is not the
/// exact encoding of some batch.
pub fn decode_frame(data: &Vec<u8>) -> (r: Result<FrameBatch, CodecError>)
    ensures
        match parse_frame(data@) {
            Option::Some(m) => (r matches Ok(b) && b@ == m),
            Option::None => (r matches Err(e) && e == CodecError::MalformedFrame),
        },
{
    let dlen = data.len();
    let nl = match find_byte_in(data, NEWLINE) {
        Some(i) => i,
        None => {
            return Err(CodecError::MalformedFrame);
        },
    };
    proof {
        lemma_find_byte(data@, NEWLINE);
        assert(nl < dlen);
    }
    let line = copy_range(data, 0, nl);
    let (topic, rid, n) = match decode_header(&line) {
        Ok(h) => h,
        Err(e) => {
            return Err(CodecError::MalformedFrame);
        },
    };
    let mut records: Vec<FrameRecord> = Vec::new();
    let mut pos: usize = nl + 1;
    let mut i: usize = 0;
    proof {
        let t0 = parse_records_from(data@, pos as int, n as nat);
        if t0 is Some {
            assert(records@.map_values(|rr: FrameRecord| rr@) =~= Seq::<RecordModel>::empty());
            assert(records@.map_values(|rr: FrameRecord| rr@) + t0->0 =~= t0->0);
        }
    }
    while i < n
        invariant
            i <= n,
            pos <= data@.len(),
            records@.len() == i,
            parse_frame(data@) == (match parse_records_from(data@, pos as int, (n - i) as nat) {
                Option::None => Option::None::<BatchModel>,
                Option::Some(rest) => {
                    let rs = records@.map_values(|rr: FrameRecord| rr@) + rest;
                    if rs.len() == n {
                        Option::Some(
                            (BatchModel {
                                topic: topic@,
                                recording_id: rid@,
                                records: rs,
                            }),
                        )
                    } else {
                        Option::None::<BatchModel>
                    }
                },
            }),
        decreases n - i,
    {
        let (msg, p2) = match read_blob(data, pos) {
            Some(p) => p,
            None => {
                return Err(CodecError::MalformedFrame);
            },
        };
        let rec = match decode_message(&msg) {
            Ok(rr) => rr,
            Err(e) => {
                return Err(CodecError::MalformedFrame);
            },
        };
        proof {
            let old_map = records@.map_values(|rr: FrameRecord| rr@);
            let tail = parse_records_from(data@, p2 as int, (n - i - 1) as nat);
            assert(parse_records_from(data@, pos as int, (n - i) as nat) == (match tail {
                Option::None => Option::None::<Seq<RecordModel>>,
                Option::Some(rs) => Option::Some(seq![rec@] + rs),
            }));
            assert(records@.push(rec).map_values(|rr: FrameRecord| rr@) =~= old_map.push(rec@));
            if tail is Some {
                assert(old_map + (seq![rec@] + tail->0) =~= old_map.push(rec@) + tail->0);
            }
        }
        records.push(rec);
        pos = p2;
        i = i + 1;
    }
    if pos != data.len() {
        return Err(CodecError::MalformedFrame);
    }
    proof {
        assert(parse_records_from(data@, pos as int, 0) == Option::Some(Seq::<RecordModel>::empty()));
        assert(records@.map_values(|rr: FrameRecord| rr@) + Seq::<RecordModel>::empty()
            =~= records@.map_values(|rr: FrameRecord| rr@));
    }
    Ok(FrameBatch { topic, recording_id: rid, records })
}

/// The produced frame opens with a well-formed header line: the magic,
/// `topic=` with a nonempty topic, `recording_id=` with a nonempty id, and
/// `count=` with a run of decimal digits that reads back as the number of
/// records, terminated by the frame's first newline.
pub proof fn lemma_header_wellformed(m: BatchModel)
    requires
        m.wf(),
        m.topic.len() > 0,
        m.recording_id.len() > 0,
    ensures
        ({
            let b = frame_bytes(m);
            let nl = find_byte(b, NEWLINE);
            let digits = dec_bytes(m.records.len());
            &&& 0 <= nl < b.len()
            &&& b.subrange(0, nl) == lit_magic_topic() + m.topic + lit_recording_id()
                + m.recording_id + lit_count() + digits
            &&& digits.len() > 0
            &&& forall|k: int| 0 <= k < digits.len() ==> is_digit(#[trigger] digits[k])
            &&& dec_val(digits) == m.records.len()
        }),
{
    let b = frame_bytes(m);
    let h = header_bytes(m.topic, m.recording_id, m.records.len());
    let line = lit_magic_topic() + m.topic + lit_recording_id() + m.recording_id + lit_count()
        + dec_bytes(m.records.len());
    lemma_header_no_early_newline(m.topic, m.recording_id, m.records.len());
    lemma_dec_bytes_digits(m.records.len());
    lemma_dec_val_of_dec_bytes(m.records.len());
    assert(b[h.len() - 1] == h[h.len() - 1]);
    assert forall|i: int| 0 <= i < h.len() - 1 implies b[i] != NEWLINE by {
        assert(b[i] == h[i]);
    }
    lemma_find_byte_at(b, NEWLINE, h.len() - 1);
    assert(b.subrange(0, h.len() - 1) =~= line);
}

} // verus!
