use zenoh_recorder::buffer::{FlushTask, Sample};
use zenoh_recorder::mcap_writer::McapSerializer;
use zenoh_recorder::protocol::{
    CompressionLevel, CompressionType, RecordingStatus, StatusResponse,
};

const NOW_NS: u64 = 1_700_000_000_000_000_000;

fn create_sample(topic: &str, data: Vec<u8>) -> Sample {
    Sample::new(topic.to_string(), data)
}

#[test]
fn test_mcap_with_very_long_topic_name() {
    let serializer = McapSerializer::new(CompressionType::Uncompressed, CompressionLevel::Default);
    let long_topic = "/very/long/topic/name/with/many/segments/that/goes/on/and/on";
    let sample = create_sample("test/topic", b"data".to_vec());

    let result = serializer.serialize_batch(long_topic, vec![sample], "rec-123", NOW_NS);
    assert!(result.is_ok());
}

#[test]
fn comprehensive_coverage_tests_test_mcap_with_very_long_recording_id() {
    let serializer = McapSerializer::new(CompressionType::Uncompressed, CompressionLevel::Default);
    let long_id = "a".repeat(1000);
    let sample = create_sample("test/topic", b"data".to_vec());

    let result = serializer.serialize_batch("/test/topic", vec![sample], &long_id, NOW_NS);
    assert!(result.is_ok());
}

#[test]
fn test_mcap_with_huge_sample_count() {
    let serializer = McapSerializer::new(CompressionType::Uncompressed, CompressionLevel::Fastest);

    let samples: Vec<Sample> = (0..500)
        .map(|i| create_sample("test/topic", format!("sample_{}", i).into_bytes()))
        .collect();

    let result = serializer.serialize_batch("/test/topic", samples, "rec-123", NOW_NS);
    assert!(result.is_ok());
}

#[test]
fn test_large_sample_count_serialization() {
    let serializer = McapSerializer::new(CompressionType::Lz4, CompressionLevel::Fastest);

    let samples: Vec<Sample> = (0..1000)
        .map(|i| create_sample("test/topic", format!("{}", i).into_bytes()))
        .collect();

    let result = serializer.serialize_batch("/test/topic", samples, "rec-large", NOW_NS);
    assert!(result.is_ok());
    assert!(result.unwrap().len() > 0);
}

#[test]
fn test_mcap_alternating_data_sizes() {
    let serializer = McapSerializer::new(CompressionType::Zstd, CompressionLevel::Default);

    let mut samples = Vec::new();
    for i in 0..50 {
        let size = if i % 2 == 0 { 100 } else { 10000 };
        let data = vec![0u8; size];
        samples.push(create_sample("test/topic", data));
    }

    let result = serializer.serialize_batch("/test/topic", samples, "rec-alt", NOW_NS);
    assert!(result.is_ok());
}

#[test]
fn test_flush_task_with_large_batch() {
    let samples: Vec<Sample> = (0..1000)
        .map(|i| create_sample("test/topic", format!("sample_{}", i).into_bytes()))
        .collect();

    let task = FlushTask {
        topic: "/test/large_batch".to_string(),
        samples: samples.clone(),
        recording_id: "rec-large-batch".to_string(),
    };

    assert_eq!(task.samples.len(), 1000);
    assert_eq!(task.topic, "/test/large_batch");
}

#[test]
fn test_all_compression_levels() {
    let levels = vec![
        CompressionLevel::Fastest,
        CompressionLevel::Fast,
        CompressionLevel::Default,
        CompressionLevel::Slow,
        CompressionLevel::Slowest,
    ];

    for level in levels {
        let zstd = level.to_zstd_level();
        let lz4 = level.to_lz4_level();

        assert!(zstd >= 1 && zstd <= 19);
        assert!(lz4 >= 1 && lz4 <= 12);
    }
}

#[test]
fn test_status_response_clone() {
    let response = StatusResponse {
        success: true,
        message: "OK".to_string(),
        status: RecordingStatus::Recording,
        scene: Some("scene".to_string()),
        skills: vec!["skill".to_string()],
        organization: None,
        task_id: None,
        device_id: "dev".to_string(),
        data_collector_id: None,
        active_topics: vec!["/a".to_string()],
        buffer_size_bytes: 1,
        total_recorded_bytes: 2,
    };
    let cloned = response.clone();
    assert_eq!(cloned.success, response.success);
    assert_eq!(cloned.device_id, response.device_id);
    assert_eq!(cloned.active_topics, response.active_topics);
}
