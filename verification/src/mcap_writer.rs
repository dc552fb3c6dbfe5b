//! Batch serializer: turns an ordered list of samples into one
//! length-prefixed, optionally compressed byte frame, and turns such a
//! frame back into its records.

use std::io::Read;
use std::io::Write;

use vstd::prelude::*;
use vstd::string::StrSliceExecFns;
use vstd::string::StringSliceAdditionalSpecFns;

use crate::buffer::Sample;
use crate::codec::{
    decode_frame, encode_frame, frame_bytes, parse_frame, BatchModel, CodecError, FrameBatch,
    FrameRecord, FrameSchema, RecordModel, SchemaModel,
};
use crate::config::{string_is, SchemaConfig, TopicSchemaInfo};
use crate::protocol::{spec_lz4_level, spec_zstd_level, CompressionLevel, CompressionType};

verus! {

/// The lz4 frame that the fast-lz-family compressor produces for the given
/// input at the given level.
pub uninterp spec fn lz4_of(data: Seq<u8>, level: u32) -> Seq<u8>;

/// What lz4 frame decoding yields for the given bytes: the original input
/// for a well-formed frame, nothing for a rejected one.
pub uninterp spec fn lz4_plain(data: Seq<u8>) -> Option<Seq<u8>>;

/// The zstd frame that the dictionary-family compressor produces for the
/// given input at the given level.
pub uninterp spec fn zstd_of(data: Seq<u8>, level: i32) -> Seq<u8>;

/// What zstd frame decoding yields for the given bytes: the original input
/// for a well-formed frame, nothing for a rejected one.
pub uninterp spec fn zstd_plain(data: Seq<u8>) -> Option<Seq<u8>>;

/// Relies on lz4's `EncoderBuilder::build`, `Encoder::write_all` and
/// `Encoder::finish`: compresses the whole input into one lz4 frame whose
/// decoding yields the input again.
#[verifier::external_body]
fn lz4_compress(data: &Vec<u8>, level: u32) -> (r: Result<Vec<u8>, CodecError>)
    ensures
        r matches Ok(v) ==> v@ == lz4_of(data@, level) && lz4_plain(v@) == Some(data@),
        r matches Err(e) ==> e == CodecError::CompressionFailed,
{
    let run = || -> std::io::Result<Vec<u8>> {
        let mut encoder = lz4::EncoderBuilder::new().level(level).build(Vec::new())?;
        encoder.write_all(data)?;
        let (compressed, result) = encoder.finish();
        result?;
        Ok(compressed)
    };
    run().map_err(|_e| CodecError::CompressionFailed)
}

/// Relies on lz4's `Decoder::new` and `Read::read_to_end`: decodes one lz4
/// frame; rejection is a function of the bytes alone.
#[verifier::external_body]
fn lz4_decompress(data: &Vec<u8>) -> (r: Result<Vec<u8>, CodecError>)
    ensures
        r matches Ok(v) ==> lz4_plain(data@) == Some(v@),
        r matches Err(e) ==> lz4_plain(data@) is None && e == CodecError::CompressionFailed,
{
    let run = || -> std::io::Result<Vec<u8>> {
        let mut decoder = lz4::Decoder::new(&data[..])?;
        let mut out = Vec::new();
        decoder.read_to_end(&mut out)?;
        Ok(out)
    };
    run().map_err(|_e| CodecError::CompressionFailed)
}

/// Relies on zstd's `encode_all`: compresses the whole input into one zstd
/// frame whose decoding yields the input again.
#[verifier::external_body]
fn zstd_compress(data: &Vec<u8>, level: i32) -> (r: Result<Vec<u8>, CodecError>)
    ensures
        r matches Ok(v) ==> v@ == zstd_of(data@, level) && zstd_plain(v@) == Some(data@),
        r matches Err(e) ==> e == CodecError::CompressionFailed,
{
    zstd::stream::encode_all(&data[..], level).map_err(|_e| CodecError::CompressionFailed)
}

/// Relies on zstd's `decode_all`: decodes one zstd frame; rejection is a
/// function of the bytes alone.
#[verifier::external_body]
fn zstd_decompress(data: &Vec<u8>) -> (r: Result<Vec<u8>, CodecError>)
    ensures
        r matches Ok(v) ==> zstd_plain(data@) == Some(v@),
        r matches Err(e) ==> zstd_plain(data@) is None && e == CodecError::CompressionFailed,
{
    zstd::stream::decode_all(&data[..]).map_err(|_e| CodecError::CompressionFailed)
}

/// The frame that serialization produces from the raw frame bytes under the
/// given compression selector.
pub open spec fn compressed_bytes(
    ct: CompressionType,
    level: CompressionLevel,
    raw: Seq<u8>,
) -> Seq<u8> {
    match ct {
        CompressionType::Uncompressed => raw,
        CompressionType::Lz4 => lz4_of(raw, spec_lz4_level(level)),
        CompressionType::Zstd => zstd_of(raw, spec_zstd_level(level)),
    }
}

/// What decompression yields for a frame under the given selector.
pub open spec fn decompressed_bytes(ct: CompressionType, data: Seq<u8>) -> Option<Seq<u8>> {
    match ct {
        CompressionType::Uncompressed => Some(data),
        CompressionType::Lz4 => lz4_plain(data),
        CompressionType::Zstd => zstd_plain(data),
    }
}

/// First schema entry for the topic, scanning in order.
pub open spec fn spec_lookup_schema(
    entries: Seq<(String, TopicSchemaInfo)>,
    topic: Seq<char>,
) -> Option<TopicSchemaInfo>
    decreases entries.len(),
{
    if entries.len() == 0 {
        None
    } else if entries[0].0@ == topic {
        Some(entries[0].1)
    } else {
        spec_lookup_schema(entries.drop_first(), topic)
    }
}

/// The UTF-8 bytes of a string.
pub open spec fn string_bytes(s: String) -> Seq<u8> {
    vstd::utf8::encode_utf8(s@)
}

/// Bytes of a schema option field: the string's UTF-8 bytes, or empty.
pub open spec fn opt_str_bytes(s: Option<String>) -> Seq<u8> {
    match s {
        Some(v) => string_bytes(v),
        None => Seq::empty(),
    }
}

/// The schema descriptor that serialization attaches to every record of a
/// topic: none unless metadata is enabled; the topic's own entry when one
/// exists, else the default format with empty name, hash and payload.
pub open spec fn spec_schema_info(c: SchemaConfig, topic: Seq<char>) -> Option<SchemaModel> {
    if !c.include_metadata {
        None
    } else {
        match spec_lookup_schema(c.per_topic@, topic) {
            Some(info) => Some(
                (SchemaModel {
                    format: string_bytes(info.format),
                    schema_name: opt_str_bytes(info.schema_name),
                    schema_hash: opt_str_bytes(info.schema_hash),
                    schema_data: Seq::empty(),
                }),
            ),
            None => Some(
                (SchemaModel {
                    format: string_bytes(c.default_format),
                    schema_name: Seq::empty(),
                    schema_hash: Seq::empty(),
                    schema_data: Seq::empty(),
                }),
            ),
        }
    }
}

/// The record that serialization produces for one sample: the batch topic,
/// the sample's own timestamp or the serialization-time clock, the payload,
/// and the topic's schema descriptor.
pub open spec fn record_model_of(
    topic: Seq<u8>,
    s: Sample,
    now_ns: u64,
    schema: Option<SchemaModel>,
) -> RecordModel {
    RecordModel {
        topic: topic,
        timestamp_ns: match s.timestamp_ns {
            Some(t) => t,
            None => now_ns,
        },
        payload: s.payload@,
        schema: schema,
    }
}

/// The frame that serialization produces for a batch of samples.
pub open spec fn batch_model_of(
    topic: Seq<u8>,
    rid: Seq<u8>,
    samples: Seq<Sample>,
    now_ns: u64,
    schema: Option<SchemaModel>,
) -> BatchModel {
    BatchModel {
        topic: topic,
        recording_id: rid,
        records: Seq::new(samples.len(), |i: int| record_model_of(topic, samples[i], now_ns, schema)),
    }
}

/// Stateless serializer from sample batches to compressed byte frames.
pub struct McapSerializer {
    pub compression_type: CompressionType,
    pub compression_level: CompressionLevel,
    pub schema_config: SchemaConfig,
}

impl McapSerializer {
    /// A serializer with the given compression settings and no schema
    /// metadata.
    pub fn new(compression_type: CompressionType, compression_level: CompressionLevel) -> (r: Self)
        ensures
            r.compression_type == compression_type,
            r.compression_level == compression_level,
            r.schema_config.is_default(),
    {
        McapSerializer {
            compression_type,
            compression_level,
            schema_config: SchemaConfig::default(),
        }
    }

    /// A serializer with the given compression and schema settings.
    pub fn with_schema_config(
        compression_type: CompressionType,
        compression_level: CompressionLevel,
        schema_config: SchemaConfig,
    ) -> (r: Self)
        ensures
            r.compression_type == compression_type,
            r.compression_level == compression_level,
            r.schema_config == schema_config,
    {
        McapSerializer { compression_type, compression_level, schema_config }
    }

    /// The schema descriptor attached to every record of the topic.
    fn get_schema_info(&self, topic: &str) -> (r: Option<FrameSchema>)
        ensures
            match spec_schema_info(self.schema_config, topic@) {
                Some(m) => (r matches Some(f) && f@ == m),
                None => r is None,
            },
    {
        if !self.schema_config.include_metadata {
            return None;
        }
        proof {
            assert(self.schema_config.per_topic@.skip(0) =~= self.schema_config.per_topic@);
        }
        let mut i: usize = 0;
        while i < self.schema_config.per_topic.len()
            invariant
                self.schema_config.include_metadata,
                i <= self.schema_config.per_topic@.len(),
                spec_lookup_schema(self.schema_config.per_topic@, topic@) == spec_lookup_schema(
                    self.schema_config.per_topic@.skip(i as int),
                    topic@,
                ),
            decreases self.schema_config.per_topic@.len() - i,
        {
            let entry = &self.schema_config.per_topic[i];
            proof {
                assert(self.schema_config.per_topic@.skip(i as int)[0]
                    == self.schema_config.per_topic@[i as int]);
                assert(self.schema_config.per_topic@.skip(i as int).drop_first()
                    =~= self.schema_config.per_topic@.skip(i + 1));
            }
            if string_is(&entry.0, topic) {
                proof {
                    assert(spec_lookup_schema(
                        self.schema_config.per_topic@.skip(i as int),
                        topic@,
                    ) == Some(self.schema_config.per_topic@[i as int].1));
                }
                let info = &entry.1;
                let schema_name = match &info.schema_name {
                    Some(s) => s.as_str().as_bytes_vec(),
                    None => Vec::new(),
                };
                let schema_hash = match &info.schema_hash {
                    Some(s) => s.as_str().as_bytes_vec(),
                    None => Vec::new(),
                };
                let f = FrameSchema {
                    format: info.format.as_str().as_bytes_vec(),
                    schema_name,
                    schema_hash,
                    schema_data: Vec::new(),
                };
                proof {
                    assert(f@ =~= spec_schema_info(self.schema_config, topic@)->0);
                }
                return Some(f);
            }
            i = i + 1;
        }
        proof {
            assert(self.schema_config.per_topic@.skip(self.schema_config.per_topic@.len() as int)
                =~= Seq::<(String, TopicSchemaInfo)>::empty());
        }
        let f = FrameSchema {
            format: self.schema_config.default_format.as_str().as_bytes_vec(),
            schema_name: Vec::new(),
            schema_hash: Vec::new(),
            schema_data: Vec::new(),
        };
        proof {
            assert(f@ =~= spec_schema_info(self.schema_config, topic@)->0);
        }
        Some(f)
    }

    /// Writes the ASCII header line for a batch into `buffer`:
    /// `ZENOH_MCAP|topic=<TOPIC>|recording_id=<ID>|count=<N>` and a
    /// newline.
    pub fn write_header(
        &self,
        buffer: &mut Vec<u8>,
        topic: &str,
        recording_id: &str,
        count: usize,
    )
        ensures
            final(buffer)@ == old(buffer)@ + crate::codec::header_bytes(
                topic.spec_bytes(),
                recording_id.spec_bytes(),
                count as nat,
            ),
    {
        let t = topic.as_bytes_vec();
        let r = recording_id.as_bytes_vec();
        crate::codec::push_header_line(buffer, &t, &r, count);
    }

    /// Serializes a batch of samples into one frame: the header line, the
    /// length-prefixed records in push order, then the selected compressor
    /// over the whole assembly. An empty batch yields an empty output.
    /// Fails with an oversize error exactly when a record does not fit its
    /// length prefixes; a compressed frame may also fail when the
    /// compressor itself does.
    pub fn serialize_batch(
        &self,
        topic: &str,
        samples: Vec<Sample>,
        recording_id: &str,
        now_ns: u64,
    ) -> (r: Result<Vec<u8>, CodecError>)
        ensures
            samples@.len() == 0 ==> (r matches Ok(v) && v@ == Seq::<u8>::empty()),
            samples@.len() > 0 ==> ({
                let m = batch_model_of(
                    topic.spec_bytes(),
                    recording_id.spec_bytes(),
                    samples@,
                    now_ns,
                    spec_schema_info(self.schema_config, topic@),
                );
                match r {
                    Ok(v) => (forall|i: int|
                        0 <= i < m.records.len() ==> (#[trigger] m.records[i]).wf()) && v@
                        == compressed_bytes(
                        self.compression_type,
                        self.compression_level,
                        frame_bytes(m),
                    ) && decompressed_bytes(self.compression_type, v@) == Some(frame_bytes(m)),
                    Err(e) => match e {
                        CodecError::OversizedField => !(forall|i: int|
                            0 <= i < m.records.len() ==> (#[trigger] m.records[i]).wf()),
                        CodecError::CompressionFailed => self.compression_type
                            != CompressionType::Uncompressed,
                        CodecError::MalformedFrame => false,
                    },
                }
            }),
    {
        if samples.is_empty() {
            return Ok(Vec::new());
        }
        let topic_bytes = topic.as_bytes_vec();
        let rid_bytes = recording_id.as_bytes_vec();
        let ghost m = batch_model_of(
            topic.spec_bytes(),
            recording_id.spec_bytes(),
            samples@,
            now_ns,
            spec_schema_info(self.schema_config, topic@),
        );
        let mut records: Vec<FrameRecord> = Vec::new();
        let mut i: usize = 0;
        while i < samples.len()
            invariant
                i <= samples@.len(),
                topic_bytes@ == topic.spec_bytes(),
                m == batch_model_of(
                    topic.spec_bytes(),
                    recording_id.spec_bytes(),
                    samples@,
                    now_ns,
                    spec_schema_info(self.schema_config, topic@),
                ),
                m.records.len() == samples@.len(),
                records@.len() == i,
                forall|j: int| 0 <= j < i ==> #[trigger] records@[j]@ == m.records[j],
            decreases samples@.len() - i,
        {
            let sample = &samples[i];
            let ts = match sample.timestamp_ns {
                Some(t) => t,
                None => now_ns,
            };
            let rec = FrameRecord {
                topic: crate::codec::copy_range(&topic_bytes, 0, topic_bytes.len()),
                timestamp_ns: ts,
                payload: crate::codec::copy_range(&sample.payload, 0, sample.payload.len()),
                schema: self.get_schema_info(topic),
            };
            proof {
                assert(rec.topic@ =~= topic_bytes@);
                assert(rec.payload@ =~= samples@[i as int].payload@);
                assert(m.records[i as int] == record_model_of(
                    topic.spec_bytes(),
                    samples@[i as int],
                    now_ns,
                    spec_schema_info(self.schema_config, topic@),
                ));
                assert(rec@.schema == spec_schema_info(self.schema_config, topic@));
                assert(rec@ =~= m.records[i as int]);
            }
            records.push(rec);
            i = i + 1;
        }
        let batch = FrameBatch { topic: topic_bytes, recording_id: rid_bytes, records };
        proof {
            assert(batch@.records =~= m.records);
            assert(batch@ == m);
        }
        let raw = match encode_frame(&batch) {
            Ok(v) => v,
            Err(e) => {
                return Err(e);
            },
        };
        match self.compression_type {
            CompressionType::Uncompressed => Ok(raw),
            CompressionType::Lz4 => lz4_compress(&raw, self.compression_level.to_lz4_level()),
            CompressionType::Zstd => zstd_compress(&raw, self.compression_level.to_zstd_level()),
        }
    }

    /// Decodes a frame produced by `serialize_batch` with the same
    /// settings: decompresses under the selected compressor, then parses
    /// the header line and the records. An empty input yields an empty
    /// batch; anything that is not the exact encoding of some batch fails.
    pub fn deserialize_batch(&self, data: &Vec<u8>) -> (r: Result<FrameBatch, CodecError>)
        ensures
            data@.len() == 0 ==> (r matches Ok(b) && b@.topic.len() == 0 && b@.recording_id.len()
                == 0 && b@.records.len() == 0),
            data@.len() > 0 ==> match decompressed_bytes(self.compression_type, data@) {
                Some(raw) => match parse_frame(raw) {
                    Some(m) => (r matches Ok(b) && b@ == m),
                    None => (r matches Err(e) && e == CodecError::MalformedFrame),
                },
                None => (r matches Err(e) && e == CodecError::CompressionFailed),
            },
    {
        if data.len() == 0 {
            return Ok(
                FrameBatch { topic: Vec::new(), recording_id: Vec::new(), records: Vec::new() },
            );
        }
        let raw = match self.compression_type {
            CompressionType::Uncompressed => crate::codec::copy_range(data, 0, data.len()),
            CompressionType::Lz4 => match lz4_decompress(data) {
                Ok(v) => v,
                Err(_e) => {
                    return Err(CodecError::CompressionFailed);
                },
            },
            CompressionType::Zstd => match zstd_decompress(data) {
                Ok(v) => v,
                Err(_e) => {
                    return Err(CodecError::CompressionFailed);
                },
            },
        };
        proof {
            assert(data@.subrange(0, data@.len() as int) =~= data@);
        }
        decode_frame(&raw)
    }
}

} // verus!
