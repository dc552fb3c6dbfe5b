use zenoh_recorder::config::{BackendConfig, ConfigError, ConfigLoader, RecorderConfig};

#[test]
fn test_validation_invalid_buffer_size() {
    let mut config = RecorderConfig::default();
    config.recorder.flush_policy.max_buffer_size_bytes = 0;

    let result = ConfigLoader::validate(&config);
    assert!(result.is_err());
    assert!(result
        .unwrap_err()
        .message()
        .contains("max_buffer_size_bytes"));
}

#[test]
fn test_validation_invalid_compression_level() {
    let mut config = RecorderConfig::default();
    config.recorder.compression.default_level = 10;

    let result = ConfigLoader::validate(&config);
    assert!(result.is_err());
    assert!(result.unwrap_err().message().contains("compression"));
}

#[test]
fn test_validation_zero_duration() {
    let mut config = RecorderConfig::default();
    config.recorder.flush_policy.max_buffer_duration_seconds = 0;

    let result = ConfigLoader::validate(&config);
    assert_eq!(result, Err(ConfigError::ZeroBufferDuration));
}

#[test]
fn test_validation_unknown_backend() {
    let mut config = RecorderConfig::default();
    config.storage.backend = "s3".to_string();

    let result = ConfigLoader::validate(&config);
    assert_eq!(result, Err(ConfigError::UnknownBackend));
}

#[test]
fn test_validation_missing_filesystem_block() {
    let mut config = RecorderConfig::default();
    config.storage.backend = "filesystem".to_string();

    let result = ConfigLoader::validate(&config);
    assert_eq!(result, Err(ConfigError::MissingFilesystemConfig));
}

#[test]
fn test_validation_zero_workers_and_capacity() {
    let mut config = RecorderConfig::default();
    config.recorder.workers.flush_workers = 0;
    assert_eq!(
        ConfigLoader::validate(&config),
        Err(ConfigError::ZeroFlushWorkers)
    );

    let mut config = RecorderConfig::default();
    config.recorder.workers.queue_capacity = 0;
    assert_eq!(
        ConfigLoader::validate(&config),
        Err(ConfigError::ZeroQueueCapacity)
    );
}

#[test]
fn test_validation_empty_device_id() {
    let mut config = RecorderConfig::default();
    config.recorder.device_id = String::new();

    let result = ConfigLoader::validate(&config);
    assert_eq!(result, Err(ConfigError::EmptyDeviceId));
}

#[test]
fn test_validation_accepts_default() {
    let config = RecorderConfig::default();
    assert_eq!(ConfigLoader::validate(&config), Ok(()));
}

#[test]
fn test_config_defaults() {
    let config = RecorderConfig::default();

    assert_eq!(config.zenoh.mode, "peer");
    assert_eq!(config.storage.backend, "reductstore");
    assert_eq!(config.recorder.device_id, "recorder-001");
    assert_eq!(config.recorder.flush_policy.max_buffer_size_bytes, 10485760);
    assert_eq!(config.recorder.flush_policy.max_buffer_duration_seconds, 10);
    assert_eq!(config.recorder.flush_policy.min_samples_per_flush, 10);
    assert_eq!(config.recorder.compression.default_type, "zstd");
    assert_eq!(config.recorder.compression.default_level, 2);
    assert_eq!(config.recorder.workers.flush_workers, 4);
    assert_eq!(config.recorder.workers.queue_capacity, 1000);
    assert_eq!(config.recorder.control.key_prefix, "recorder/control");
    assert_eq!(config.recorder.control.status_key, "recorder/status/**");
    assert_eq!(config.logging.level, "info");
    assert_eq!(config.logging.format, "text");

    match &config.storage.backend_config {
        BackendConfig::ReductStore { reductstore } => {
            assert_eq!(reductstore.url, "http://localhost:8383");
            assert_eq!(reductstore.bucket_name, "zenoh_recordings");
            assert!(reductstore.api_token.is_none());
            assert_eq!(reductstore.timeout_seconds, 300);
            assert_eq!(reductstore.max_retries, 3);
        }
        BackendConfig::Filesystem { .. } => panic!("default backend should be the object store"),
    }
}

#[test]
fn test_backend_accessors() {
    let config = RecorderConfig::default();
    assert!(config.storage.backend_config.as_reductstore().is_some());
    assert!(config.storage.backend_config.as_filesystem().is_none());
}
