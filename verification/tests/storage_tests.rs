use std::collections::HashMap;
use std::time::{SystemTime, UNIX_EPOCH};

use zenoh_recorder::protocol::CompressionType;
use zenoh_recorder::storage::{
    bucket_create_ok, bucket_url, build_flush_labels, classify_write_status, dec_string,
    label_header_name, metadata_file_path, record_file_path, topic_to_entry_name, RetryDecision,
    RetryState, WriteOutcome,
};

#[test]
fn test_topic_to_entry_name() {
    assert_eq!(topic_to_entry_name("/camera/front"), "camera_front");
    assert_eq!(topic_to_entry_name("/lidar/points"), "lidar_points");
    assert_eq!(topic_to_entry_name("/imu/data"), "imu_data");
    assert_eq!(topic_to_entry_name("camera/front"), "camera_front");
    assert_eq!(topic_to_entry_name("/a/b/c/d"), "a_b_c_d");
    assert_eq!(topic_to_entry_name("/test/**"), "test_all");
}

#[test]
fn test_topic_to_entry_name_special_chars() {
    assert_eq!(topic_to_entry_name("/topic-with-dash"), "topic-with-dash");
    assert_eq!(
        topic_to_entry_name("/topic_with_underscore"),
        "topic_with_underscore"
    );
}

#[test]
fn test_topic_to_entry_conversions() {
    let test_cases = vec![
        ("/camera/front", "camera_front"),
        ("/lidar/points", "lidar_points"),
        ("/imu/data", "imu_data"),
        ("camera/front", "camera_front"),
        ("/a/b/c/d/e", "a_b_c_d_e"),
        ("/test/**", "test_all"),
        ("/topic-with-dash", "topic-with-dash"),
        ("/topic_with_underscore", "topic_with_underscore"),
        ("/very/long/path/to/topic", "very_long_path_to_topic"),
        ("/", ""),
    ];

    for (input, expected) in test_cases {
        assert_eq!(
            topic_to_entry_name(input),
            expected,
            "Failed for input: {}",
            input
        );
    }
}

#[test]
fn test_topic_to_entry_edge_cases() {
    assert_eq!(topic_to_entry_name(""), "");
    assert_eq!(topic_to_entry_name("/"), "");
    assert_eq!(topic_to_entry_name("//"), "");
    assert_eq!(topic_to_entry_name("///"), "");
    assert_eq!(topic_to_entry_name("/a/"), "a_");
}

#[test]
fn test_entry_name_consistency() {
    let topic = "/test/topic";
    let entry1 = topic_to_entry_name(topic);
    let entry2 = topic_to_entry_name(topic);
    assert_eq!(entry1, entry2);
}

#[test]
fn test_entry_name_special_characters() {
    let topics_with_special = vec![
        "/topic$special",
        "/topic@email",
        "/topic#hash",
        "/topic%percent",
    ];

    for topic in topics_with_special {
        let entry = topic_to_entry_name(topic);
        assert!(!entry.is_empty() || topic == "/");
    }
}

#[test]
fn test_wildcard_topic_conversion() {
    assert_eq!(topic_to_entry_name("/test/*"), "test_*");
    assert_eq!(topic_to_entry_name("/test/**"), "test_all");
    assert_eq!(topic_to_entry_name("/**"), "all");
    assert_eq!(topic_to_entry_name("*"), "*");
}

#[test]
fn test_numeric_topics() {
    assert_eq!(topic_to_entry_name("/123/456"), "123_456");
    assert_eq!(topic_to_entry_name("/sensor/1"), "sensor_1");
    assert_eq!(topic_to_entry_name("/0"), "0");
}

#[test]
fn test_topic_conversion_comprehensive() {
    assert_eq!(topic_to_entry_name("/camera/front"), "camera_front");
    assert_eq!(topic_to_entry_name("/camera/back"), "camera_back");
    assert_eq!(topic_to_entry_name("/lidar/top"), "lidar_top");

    assert_eq!(topic_to_entry_name("/a/b/c/d/e/f"), "a_b_c_d_e_f");

    assert_eq!(topic_to_entry_name("/topic-dash"), "topic-dash");
    assert_eq!(topic_to_entry_name("/topic_underscore"), "topic_underscore");
    assert_eq!(topic_to_entry_name("/topic.dot"), "topic.dot");

    assert_eq!(topic_to_entry_name("/sensor/1"), "sensor_1");
    assert_eq!(topic_to_entry_name("/123/456"), "123_456");

    assert_eq!(topic_to_entry_name("/test/*"), "test_*");
    assert_eq!(topic_to_entry_name("/test/**"), "test_all");
    assert_eq!(topic_to_entry_name("/**"), "all");

    assert_eq!(topic_to_entry_name(""), "");
    assert_eq!(topic_to_entry_name("/"), "");
    assert_eq!(topic_to_entry_name("topic"), "topic");
}

#[test]
fn test_topic_conversion_idempotent() {
    let topics = vec!["/camera/front", "/lidar/points", "/imu/data", "/test/**"];

    for topic in topics {
        let result1 = topic_to_entry_name(topic);
        let result2 = topic_to_entry_name(topic);
        assert_eq!(
            result1, result2,
            "Conversion should be idempotent for {}",
            topic
        );
    }
}

#[test]
fn test_entry_names_no_collision() {
    let topics = vec![
        "/camera/front",
        "/camera/back",
        "/lidar/points",
        "/imu/data",
        "/gps/location",
    ];

    let mut entry_names = std::collections::HashSet::new();
    for topic in topics {
        let entry = topic_to_entry_name(topic);
        assert!(
            entry_names.insert(entry.clone()),
            "Collision detected for topic: {}",
            topic
        );
    }

    assert_eq!(entry_names.len(), 5);
}

#[test]
fn test_topic_conversion_preserves_info() {
    let topic = "/camera/front/left";
    let entry = topic_to_entry_name(topic);

    assert!(entry.contains("camera"));
    assert!(entry.contains("front"));
    assert!(entry.contains("left"));
}

#[test]
fn test_complex_topic_names() {
    let complex_topics = vec![
        ("/robot/arm/joint_1/position", "robot_arm_joint_1_position"),
        ("/robot/arm/joint_2/velocity", "robot_arm_joint_2_velocity"),
        ("/sensor/lidar/scan/filtered", "sensor_lidar_scan_filtered"),
        ("/nav/goal/waypoint/current", "nav_goal_waypoint_current"),
    ];

    for (topic, expected) in complex_topics {
        assert_eq!(topic_to_entry_name(topic), expected);
    }
}

#[test]
fn test_topic_with_multiple_slashes() {
    assert_eq!(topic_to_entry_name("///test"), "test");
    assert_eq!(topic_to_entry_name("/test///topic"), "test___topic");
    assert_eq!(topic_to_entry_name("test////data"), "test____data");
}

#[test]
fn test_very_long_topic_names() {
    let long_topic = format!("/{}", "segment/".repeat(20));
    let entry = topic_to_entry_name(&long_topic);

    assert!(entry.len() > 0);
    assert!(entry.contains("segment"));
}

#[test]
fn test_unicode_in_topics() {
    let topics = vec!["/test/日本語", "/тест/topic", "/test/🚀"];

    for topic in topics {
        let _entry = topic_to_entry_name(topic);
    }
}

#[test]
fn test_topic_to_entry_all_ascii() {
    for c in 33u8..127u8 {
        if c == b'/' {
            continue;
        }
        let topic = format!("/test/{}", c as char);
        let entry = topic_to_entry_name(&topic);
        assert!(!entry.is_empty());
    }
}

#[test]
fn test_labels_structure() {
    let mut labels = HashMap::new();
    labels.insert("recording_id".to_string(), "rec-123".to_string());
    labels.insert("topic".to_string(), "/test/topic".to_string());
    labels.insert("format".to_string(), "mcap".to_string());

    assert_eq!(labels.len(), 3);
    assert_eq!(labels.get("recording_id").unwrap(), "rec-123");
    assert_eq!(labels.get("topic").unwrap(), "/test/topic");
    assert_eq!(labels.get("format").unwrap(), "mcap");
}

#[test]
fn test_labels_creation() {
    let mut labels = HashMap::new();
    labels.insert("recording_id".to_string(), "rec-001".to_string());
    labels.insert("topic".to_string(), "/camera/front".to_string());
    labels.insert("format".to_string(), "mcap".to_string());
    labels.insert("device_id".to_string(), "robot-01".to_string());

    assert_eq!(labels.len(), 4);
    assert!(labels.contains_key("recording_id"));
    assert!(labels.contains_key("topic"));
    assert!(labels.contains_key("format"));
    assert!(labels.contains_key("device_id"));
}

#[test]
fn test_timestamp_generation() {
    let timestamp_us = SystemTime::now()
        .duration_since(UNIX_EPOCH)
        .unwrap()
        .as_micros() as u64;

    assert!(timestamp_us > 0);
    assert!(timestamp_us > 1_600_000_000_000_000);
}

#[test]
fn test_timestamp_microseconds() {
    let timestamp_us = SystemTime::now()
        .duration_since(UNIX_EPOCH)
        .unwrap()
        .as_micros() as u64;

    assert!(timestamp_us > 1_600_000_000_000_000);
    assert!(timestamp_us < 2_000_000_000_000_000);
}

#[test]
fn test_flush_labels_exact() {
    let labels = build_flush_labels("rec-7", "/cam/front", CompressionType::Zstd, "mcap", 12);
    assert_eq!(labels.len(), 5);
    assert_eq!(labels[0], ("recording_id".to_string(), "rec-7".to_string()));
    assert_eq!(labels[1], ("topic".to_string(), "/cam/front".to_string()));
    assert_eq!(labels[2], ("compression".to_string(), "zstd".to_string()));
    assert_eq!(labels[3], ("format".to_string(), "mcap".to_string()));
    assert_eq!(labels[4], ("count".to_string(), "12".to_string()));

    let labels = build_flush_labels("r", "/t", CompressionType::Uncompressed, "raw", 0);
    assert_eq!(labels[2].1, "none");
    assert_eq!(labels[4].1, "0");

    let labels = build_flush_labels("r", "/t", CompressionType::Lz4, "raw", 1000);
    assert_eq!(labels[2].1, "lz4");
    assert_eq!(labels[4].1, "1000");
}

#[test]
fn test_dec_string_values() {
    assert_eq!(dec_string(0), "0");
    assert_eq!(dec_string(7), "7");
    assert_eq!(dec_string(10), "10");
    assert_eq!(dec_string(1234567890), "1234567890");
    assert_eq!(dec_string(u64::MAX), "18446744073709551615");
}

#[test]
fn test_write_and_bucket_urls() {
    let url = zenoh_recorder::storage::write_record_url(
        "http://localhost:8383",
        "zenoh_recordings",
        "camera_front",
        1234567890,
    );
    assert_eq!(
        url,
        "http://localhost:8383/api/v1/b/zenoh_recordings/camera_front?ts=1234567890"
    );

    let url = bucket_url("http://localhost:8383", "zenoh_recordings");
    assert_eq!(url, "http://localhost:8383/api/v1/b/zenoh_recordings");

    assert_eq!(label_header_name("topic"), "x-reduct-label-topic");
}

#[test]
fn test_record_and_metadata_paths() {
    assert_eq!(
        record_file_path("camera_front", 1000000, "mcap"),
        "camera_front/1000000.mcap"
    );
    assert_eq!(
        metadata_file_path("camera_front", 1000000),
        "camera_front/1000000.meta.json"
    );
}

#[test]
fn test_classify_write_status_classes() {
    assert_eq!(classify_write_status(200), WriteOutcome::Success);
    assert_eq!(classify_write_status(204), WriteOutcome::Success);
    assert_eq!(classify_write_status(299), WriteOutcome::Success);
    assert_eq!(classify_write_status(500), WriteOutcome::Transient);
    assert_eq!(classify_write_status(503), WriteOutcome::Transient);
    assert_eq!(classify_write_status(400), WriteOutcome::Permanent);
    assert_eq!(classify_write_status(404), WriteOutcome::Permanent);
    assert_eq!(classify_write_status(409), WriteOutcome::Permanent);
    assert_eq!(classify_write_status(301), WriteOutcome::Permanent);
}

#[test]
fn test_bucket_create_status() {
    assert!(bucket_create_ok(200));
    assert!(bucket_create_ok(201));
    assert!(bucket_create_ok(409));
    assert!(!bucket_create_ok(404));
    assert!(!bucket_create_ok(500));
}

#[test]
fn test_retry_backoff_doubles_and_caps() {
    let mut state = RetryState::new(10);
    assert_eq!(state.delay_ms, 100);

    let mut waits = Vec::new();
    for _ in 0..10 {
        match state.next(WriteOutcome::Transient) {
            RetryDecision::RetryAfterMs(ms) => waits.push(ms),
            other => panic!("expected a retry, got {:?}", other),
        }
    }
    assert_eq!(
        waits,
        vec![100, 200, 400, 800, 1600, 3200, 6400, 12800, 25600, 30000]
    );
    assert_eq!(state.next(WriteOutcome::Transient), RetryDecision::GiveUp);
}

#[test]
fn test_retry_success_and_permanent() {
    let mut state = RetryState::new(3);
    assert_eq!(state.next(WriteOutcome::Success), RetryDecision::Done);

    let mut state = RetryState::new(3);
    assert_eq!(state.next(WriteOutcome::Permanent), RetryDecision::GiveUp);

    let mut state = RetryState::new(0);
    assert_eq!(state.next(WriteOutcome::Transient), RetryDecision::GiveUp);
}
