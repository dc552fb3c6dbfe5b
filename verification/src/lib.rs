//! A verified core for a topic recorder: batch framing with optional
//! compression, per-topic buffering with size and age flush thresholds,
//! a bounded flush-task queue, the recording-session state machine, and
//! the storage-side mapping, labeling and retry policy.

use vstd::prelude::*;

pub mod buffer;
pub mod codec;
pub mod config;
pub mod control;
pub mod mcap_writer;
pub mod protocol;
pub mod recorder;
pub mod storage;

pub use buffer::{FlushTask, Sample, TopicBuffer};
pub use config::{ConfigLoader, RecorderConfig};
pub use mcap_writer::McapSerializer;
pub use protocol::{
    CompressionLevel, CompressionType, RecorderCommand, RecorderRequest, RecorderResponse,
    RecordingMetadata, RecordingStatus, StatusResponse,
};
pub use recorder::{RecorderManager, RecordingSession};
pub use storage::topic_to_entry_name;

verus! {

} // verus!
