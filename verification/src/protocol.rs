//! Control-protocol data types: commands, compression selectors, requests,
//! responses, and status snapshots exchanged over the control surface.

use vstd::prelude::*;

verus! {

/// Command carried by a control request.
#[derive(Debug, Clone, Copy, PartialEq, Eq, Structural)]
pub enum RecorderCommand {
    Start,
    Pause,
    Resume,
    Cancel,
    Finish,
}

/// Compression level on a five-step ordinal scale.
#[derive(Debug, Clone, Copy, PartialEq, Eq, Structural)]
pub enum CompressionLevel {
    Fastest,
    Fast,
    Default,
    Slow,
    Slowest,
}

/// The fixed ordinal-to-native level table for the dictionary-family
/// compressor.
pub open spec fn spec_zstd_level(l: CompressionLevel) -> i32 {
    match l {
        CompressionLevel::Fastest => 1,
        CompressionLevel::Fast => 3,
        CompressionLevel::Default => 5,
        CompressionLevel::Slow => 10,
        CompressionLevel::Slowest => 19,
    }
}

/// The fixed ordinal-to-native level table for the fast-lz-family
/// compressor.
pub open spec fn spec_lz4_level(l: CompressionLevel) -> u32 {
    match l {
        CompressionLevel::Fastest => 1,
        CompressionLevel::Fast => 3,
        CompressionLevel::Default => 5,
        CompressionLevel::Slow => 9,
        CompressionLevel::Slowest => 12,
    }
}

impl CompressionLevel {
    /// Fixed ordinal-to-native mapping for the dictionary-family compressor.
    pub fn to_zstd_level(self) -> (r: i32)
        ensures
            r == spec_zstd_level(self),
    {
        match self {
            CompressionLevel::Fastest => 1,
            CompressionLevel::Fast => 3,
            CompressionLevel::Default => 5,
            CompressionLevel::Slow => 10,
            CompressionLevel::Slowest => 19,
        }
    }

    /// Fixed ordinal-to-native mapping for the fast-lz-family compressor.
    pub fn to_lz4_level(self) -> (r: u32)
        ensures
            r == spec_lz4_level(self),
    {
        match self {
            CompressionLevel::Fastest => 1,
            CompressionLevel::Fast => 3,
            CompressionLevel::Default => 5,
            CompressionLevel::Slow => 9,
            CompressionLevel::Slowest => 12,
        }
    }
}

impl Default for CompressionLevel {
    fn default() -> (r: Self)
        ensures
            r == CompressionLevel::Default,
    {
        CompressionLevel::Default
    }
}

/// Compression selector for serialized frames.
#[derive(Debug, Clone, Copy, PartialEq, Eq, Structural)]
pub enum CompressionType {
    Uncompressed,
    Lz4,
    Zstd,
}

impl Default for CompressionType {
    fn default() -> (r: Self)
        ensures
            r == CompressionType::Zstd,
    {
        CompressionType::Zstd
    }
}

/// Request message for recording control operations.
#[derive(Debug, Clone)]
pub struct RecorderRequest {
    pub command: RecorderCommand,
    pub recording_id: Option<String>,
    pub scene: Option<String>,
    pub skills: Vec<String>,
    pub organization: Option<String>,
    pub task_id: Option<String>,
    pub device_id: String,
    pub data_collector_id: Option<String>,
    pub topics: Vec<String>,
    pub compression_level: CompressionLevel,
    pub compression_type: CompressionType,
}

/// Response message for recording control operations.
#[derive(Debug, Clone)]
pub struct RecorderResponse {
    pub success: bool,
    pub message: String,
    pub recording_id: Option<String>,
    pub bucket_name: Option<String>,
}

impl RecorderResponse {
    /// A successful response with the standard message.
    pub fn success(recording_id: Option<String>, bucket_name: Option<String>) -> (r: Self)
        ensures
            r.success,
            r.message@ == "Operation completed successfully"@,
            r.recording_id == recording_id,
            r.bucket_name == bucket_name,
    {
        RecorderResponse {
            success: true,
            message: "Operation completed successfully".to_owned(),
            recording_id,
            bucket_name,
        }
    }

    /// A failed response carrying the given message.
    pub fn error(message: String) -> (r: Self)
        ensures
            !r.success,
            r.message == message,
            r.recording_id is None,
            r.bucket_name is None,
    {
        RecorderResponse { success: false, message, recording_id: None, bucket_name: None }
    }
}

/// Externally visible state of a recording.
#[derive(Debug, Clone, Copy, PartialEq, Eq, Structural)]
pub enum RecordingStatus {
    Idle,
    Recording,
    Paused,
    Uploading,
    Finished,
    Cancelled,
}

/// Response message for recording status queries.
#[derive(Debug, Clone)]
pub struct StatusResponse {
    pub success: bool,
    pub message: String,
    pub status: RecordingStatus,
    pub scene: Option<String>,
    pub skills: Vec<String>,
    pub organization: Option<String>,
    pub task_id: Option<String>,
    pub device_id: String,
    pub data_collector_id: Option<String>,
    pub active_topics: Vec<String>,
    pub buffer_size_bytes: i32,
    pub total_recorded_bytes: i64,
}

/// Terminal metadata record written when a recording finishes.
#[derive(Debug, Clone)]
pub struct RecordingMetadata {
    pub recording_id: String,
    pub scene: Option<String>,
    pub skills: Vec<String>,
    pub organization: Option<String>,
    pub task_id: Option<String>,
    pub device_id: String,
    pub data_collector_id: Option<String>,
    pub topics: Vec<String>,
    pub compression_type: String,
    pub compression_level: i32,
    pub start_time: u64,
    pub end_time: Option<u64>,
    pub total_bytes: i64,
    pub total_samples: i64,
}

} // verus!
