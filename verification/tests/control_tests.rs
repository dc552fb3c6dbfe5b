use zenoh_recorder::control::{control_key_for, handle_request, parse_status_key};
use zenoh_recorder::protocol::{
    CompressionLevel, CompressionType, RecorderCommand, RecorderRequest,
};
use zenoh_recorder::recorder::RecorderManager;

const NOW_SECS: u64 = 1_700_000_000;

fn manager() -> RecorderManager {
    RecorderManager::new("test_bucket".to_string(), 1024, 10, 16)
}

fn request(command: RecorderCommand, recording_id: Option<&str>) -> RecorderRequest {
    RecorderRequest {
        command,
        recording_id: recording_id.map(|s| s.to_string()),
        scene: None,
        skills: vec![],
        organization: None,
        task_id: None,
        device_id: "device-1".to_string(),
        data_collector_id: None,
        topics: vec!["/a".to_string()],
        compression_level: CompressionLevel::Default,
        compression_type: CompressionType::Zstd,
    }
}

#[test]
fn test_control_key_format_parsing() {
    let key = "recorder/control/device-123";
    let parts: Vec<&str> = key.split('/').collect();

    assert_eq!(parts.len(), 3);
    assert_eq!(parts[0], "recorder");
    assert_eq!(parts[1], "control");
    assert_eq!(parts[2], "device-123");
}

#[test]
fn test_status_key_format_parsing() {
    let key = "recorder/status/rec-001";
    let parts: Vec<&str> = key.split('/').collect();

    assert_eq!(parts.len(), 3);
    assert_eq!(parts[0], "recorder");
    assert_eq!(parts[1], "status");
    assert_eq!(parts[2], "rec-001");
}

#[test]
fn test_status_key_format_invalid() {
    let key = "recorder/status";
    let parts: Vec<&str> = key.split('/').collect();

    assert!(parts.len() < 3);
}

#[test]
fn test_status_key_with_uuid_recording_id() {
    let key = "recorder/status/550e8400-e29b-41d4-a716-446655440000";
    let parts: Vec<&str> = key.split('/').collect();

    assert_eq!(parts.len(), 3);
    assert_eq!(parts[2], "550e8400-e29b-41d4-a716-446655440000");
}

#[test]
fn test_control_key_with_complex_device_id() {
    let key = "recorder/control/device-region-us-west-001";
    let parts: Vec<&str> = key.split('/').collect();

    assert_eq!(parts.len(), 3);
    assert_eq!(parts[2], "device-region-us-west-001");
}

#[test]
fn test_parse_status_key_extracts_third_segment() {
    assert_eq!(
        parse_status_key("recorder/status/rec-001"),
        Some("rec-001".to_string())
    );
    assert_eq!(
        parse_status_key("recorder/status/550e8400-e29b-41d4-a716-446655440000"),
        Some("550e8400-e29b-41d4-a716-446655440000".to_string())
    );
    assert_eq!(
        parse_status_key("recorder/status/rec/extra"),
        Some("rec".to_string())
    );
    assert_eq!(parse_status_key("recorder/status"), None);
    assert_eq!(parse_status_key("recorder"), None);
    assert_eq!(parse_status_key(""), None);
}

#[test]
fn test_control_key_construction() {
    assert_eq!(
        control_key_for("device-123"),
        "recorder/control/device-123"
    );
    assert_eq!(control_key_for(""), "recorder/control/");
}

#[test]
fn test_dispatch_start_then_finish() {
    let mut m = manager();
    let r = handle_request(
        &mut m,
        request(RecorderCommand::Start, Some("rec-1")),
        "gen-1".to_string(),
        NOW_SECS,
    );
    assert!(r.success);
    assert_eq!(r.recording_id, Some("rec-1".to_string()));

    let r = handle_request(
        &mut m,
        request(RecorderCommand::Finish, Some("rec-1")),
        "gen-2".to_string(),
        NOW_SECS + 1,
    );
    assert!(r.success);
}

#[test]
fn test_dispatch_uses_generated_id_when_absent() {
    let mut m = manager();
    let r = handle_request(
        &mut m,
        request(RecorderCommand::Start, None),
        "generated-77".to_string(),
        NOW_SECS,
    );
    assert!(r.success);
    assert_eq!(r.recording_id, Some("generated-77".to_string()));
}

#[test]
fn test_dispatch_unknown_recording_fails() {
    let mut m = manager();
    let r = handle_request(
        &mut m,
        request(RecorderCommand::Pause, Some("missing")),
        "gen".to_string(),
        NOW_SECS,
    );
    assert!(!r.success);
    assert!(r.message.to_lowercase().contains("not found"));
}

#[test]
fn test_dispatch_missing_id_reads_empty() {
    let mut m = manager();
    let r = handle_request(
        &mut m,
        request(RecorderCommand::Cancel, None),
        "gen".to_string(),
        NOW_SECS,
    );
    assert!(!r.success);
}
