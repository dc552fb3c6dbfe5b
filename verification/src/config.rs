//! Configuration data types, their defaults, and validation.
//!
//! Loading configuration text from disk and substituting environment
//! variables happen outside the library; validation of a loaded
//! configuration is verified here.

use vstd::prelude::*;
use vstd::string::StringExecFns;

verus! {

/// Compares a string with a literal by view.
pub fn string_is(s: &String, lit: &str) -> (r: bool)
    ensures
        r == (s@ == lit@),
{
    let other = String::from_str(lit);
    s.eq(&other)
}

/// Main configuration structure.
#[derive(Debug, Clone)]
pub struct RecorderConfig {
    pub zenoh: ZenohConfig,
    pub storage: StorageConfig,
    pub recorder: RecorderSettings,
    pub logging: LoggingConfig,
}

/// Middleware session configuration.
#[derive(Debug, Clone)]
pub struct ZenohConfig {
    pub mode: String,
    pub connect: Option<ConnectConfig>,
    pub listen: Option<ListenConfig>,
}

/// Endpoints this process connects to.
#[derive(Debug, Clone)]
pub struct ConnectConfig {
    pub endpoints: Vec<String>,
}

/// Endpoints this process listens on.
#[derive(Debug, Clone)]
pub struct ListenConfig {
    pub endpoints: Vec<String>,
}

/// Storage configuration with backend selection.
#[derive(Debug, Clone)]
pub struct StorageConfig {
    pub backend: String,
    pub backend_config: BackendConfig,
}

/// Backend-specific configuration block.
#[derive(Debug, Clone)]
pub enum BackendConfig {
    ReductStore { reductstore: ReductStoreConfig },
    Filesystem { filesystem: FilesystemConfig },
}

impl BackendConfig {
    /// The store-backend block, when this is one.
    pub fn as_reductstore(&self) -> (r: Option<&ReductStoreConfig>)
        ensures
            match self {
                BackendConfig::ReductStore { reductstore } => (r matches Some(c) && *c
                    == reductstore),
                BackendConfig::Filesystem { .. } => r is None,
            },
    {
        match self {
            BackendConfig::ReductStore { reductstore } => Some(reductstore),
            _ => None,
        }
    }

    /// Mutable access to the store-backend block, when this is one.
    pub fn as_reductstore_mut(&mut self) -> (r: Option<&mut ReductStoreConfig>)
        ensures
            match *old(self) {
                BackendConfig::ReductStore { .. } => r is Some,
                BackendConfig::Filesystem { .. } => r is None && *final(self) == *old(self),
            },
    {
        match self {
            BackendConfig::ReductStore { reductstore } => Some(reductstore),
            _ => None,
        }
    }

    /// The filesystem-backend block, when this is one.
    pub fn as_filesystem(&self) -> (r: Option<&FilesystemConfig>)
        ensures
            match self {
                BackendConfig::Filesystem { filesystem } => (r matches Some(c) && *c
                    == filesystem),
                BackendConfig::ReductStore { .. } => r is None,
            },
    {
        match self {
            BackendConfig::Filesystem { filesystem } => Some(filesystem),
            _ => None,
        }
    }
}

/// Object-store backend settings.
#[derive(Debug, Clone)]
pub struct ReductStoreConfig {
    pub url: String,
    pub bucket_name: String,
    pub api_token: Option<String>,
    pub timeout_seconds: u64,
    pub max_retries: u32,
}

/// Filesystem backend settings.
#[derive(Debug, Clone)]
pub struct FilesystemConfig {
    pub base_path: String,
    pub file_format: String,
}

/// Recorder-specific settings.
#[derive(Debug, Clone)]
pub struct RecorderSettings {
    pub device_id: String,
    pub flush_policy: FlushPolicy,
    pub compression: CompressionConfig,
    pub workers: WorkerConfig,
    pub control: ControlConfig,
    pub schema: SchemaConfig,
}

/// Size and age thresholds that trigger a buffer flush.
#[derive(Debug, Clone)]
pub struct FlushPolicy {
    pub max_buffer_size_bytes: usize,
    pub max_buffer_duration_seconds: u64,
    pub min_samples_per_flush: usize,
}

/// Default compression and per-topic overrides.
#[derive(Debug, Clone)]
pub struct CompressionConfig {
    pub default_type: String,
    pub default_level: u8,
    pub per_topic: Vec<(String, TopicCompression)>,
}

/// Compression override for one topic.
#[derive(Debug, Clone)]
pub struct TopicCompression {
    pub kind: String,
    pub level: u8,
}

/// Schema metadata settings.
#[derive(Debug, Clone)]
pub struct SchemaConfig {
    pub default_format: String,
    pub include_metadata: bool,
    pub per_topic: Vec<(String, TopicSchemaInfo)>,
}

/// Schema descriptor for one topic.
#[derive(Debug, Clone)]
pub struct TopicSchemaInfo {
    pub format: String,
    pub schema_name: Option<String>,
    pub schema_hash: Option<String>,
}

/// Flush worker pool sizing.
#[derive(Debug, Clone)]
pub struct WorkerConfig {
    pub flush_workers: usize,
    pub queue_capacity: usize,
}

/// Control surface keys and timeout.
#[derive(Debug, Clone)]
pub struct ControlConfig {
    pub key_prefix: String,
    pub status_key: String,
    pub timeout_seconds: u64,
}

/// Logging settings; consumed outside the library.
#[derive(Debug, Clone)]
pub struct LoggingConfig {
    pub level: String,
    pub format: String,
}

fn default_mode() -> (r: String)
    ensures
        r@ == "peer"@,
{
    String::from_str("peer")
}

fn default_timeout() -> (r: u64)
    ensures
        r == 300,
{
    300
}

fn default_retries() -> (r: u32)
    ensures
        r == 3,
{
    3
}

fn default_min_samples() -> (r: usize)
    ensures
        r == 10,
{
    10
}

fn default_flush_workers() -> (r: usize)
    ensures
        r == 4,
{
    4
}

fn default_queue_capacity() -> (r: usize)
    ensures
        r == 1000,
{
    1000
}

fn default_control_prefix() -> (r: String)
    ensures
        r@ == "recorder/control"@,
{
    String::from_str("recorder/control")
}

fn default_status_key() -> (r: String)
    ensures
        r@ == "recorder/status/**"@,
{
    String::from_str("recorder/status/**")
}

fn default_control_timeout() -> (r: u64)
    ensures
        r == 30,
{
    30
}

fn default_log_level() -> (r: String)
    ensures
        r@ == "info"@,
{
    String::from_str("info")
}

fn default_log_format() -> (r: String)
    ensures
        r@ == "text"@,
{
    String::from_str("text")
}

fn default_file_format() -> (r: String)
    ensures
        r@ == "mcap"@,
{
    String::from_str("mcap")
}

fn default_schema_format() -> (r: String)
    ensures
        r@ == "raw"@,
{
    String::from_str("raw")
}

impl FlushPolicy {
    /// The default flush thresholds.
    pub open spec fn is_default(self) -> bool {
        &&& self.max_buffer_size_bytes == 10485760
        &&& self.max_buffer_duration_seconds == 10
        &&& self.min_samples_per_flush == 10
    }

    /// The buffer-age threshold in whole seconds.
    pub fn max_duration_secs(&self) -> (r: u64)
        ensures
            r == self.max_buffer_duration_seconds,
    {
        self.max_buffer_duration_seconds
    }
}

impl Default for FlushPolicy {
    fn default() -> (r: Self)
        ensures
            r.is_default(),
    {
        FlushPolicy {
            max_buffer_size_bytes: 10485760,
            max_buffer_duration_seconds: 10,
            min_samples_per_flush: default_min_samples(),
        }
    }
}

impl CompressionConfig {
    /// The default compression settings.
    pub open spec fn is_default(self) -> bool {
        &&& self.default_type@ == "zstd"@
        &&& self.default_level == 2
        &&& self.per_topic@.len() == 0
    }
}

impl Default for CompressionConfig {
    fn default() -> (r: Self)
        ensures
            r.is_default(),
    {
        CompressionConfig {
            default_type: String::from_str("zstd"),
            default_level: 2,
            per_topic: Vec::new(),
        }
    }
}

impl SchemaConfig {
    /// The default schema settings: raw format, no metadata.
    pub open spec fn is_default(self) -> bool {
        &&& self.default_format@ == "raw"@
        &&& !self.include_metadata
        &&& self.per_topic@.len() == 0
    }
}

impl Default for SchemaConfig {
    fn default() -> (r: Self)
        ensures
            r.is_default(),
    {
        SchemaConfig {
            default_format: default_schema_format(),
            include_metadata: false,
            per_topic: Vec::new(),
        }
    }
}

impl WorkerConfig {
    /// The default worker pool sizing.
    pub open spec fn is_default(self) -> bool {
        &&& self.flush_workers == 4
        &&& self.queue_capacity == 1000
    }
}

impl Default for WorkerConfig {
    fn default() -> (r: Self)
        ensures
            r.is_default(),
    {
        WorkerConfig {
            flush_workers: default_flush_workers(),
            queue_capacity: default_queue_capacity(),
        }
    }
}

impl ControlConfig {
    /// The default control keys and timeout.
    pub open spec fn is_default(self) -> bool {
        &&& self.key_prefix@ == "recorder/control"@
        &&& self.status_key@ == "recorder/status/**"@
        &&& self.timeout_seconds == 30
    }
}

impl Default for ControlConfig {
    fn default() -> (r: Self)
        ensures
            r.is_default(),
    {
        ControlConfig {
            key_prefix: default_control_prefix(),
            status_key: default_status_key(),
            timeout_seconds: default_control_timeout(),
        }
    }
}

impl LoggingConfig {
    /// The default logging settings.
    pub open spec fn is_default(self) -> bool {
        &&& self.level@ == "info"@
        &&& self.format@ == "text"@
    }
}

impl Default for LoggingConfig {
    fn default() -> (r: Self)
        ensures
            r.is_default(),
    {
        LoggingConfig { level: default_log_level(), format: default_log_format() }
    }
}

impl ReductStoreConfig {
    /// The default store-backend settings.
    pub open spec fn is_default(self) -> bool {
        &&& self.url@ == "http://localhost:8383"@
        &&& self.bucket_name@ == "zenoh_recordings"@
        &&& self.api_token is None
        &&& self.timeout_seconds == 300
        &&& self.max_retries == 3
    }
}

impl Default for ReductStoreConfig {
    fn default() -> (r: Self)
        ensures
            r.is_default(),
    {
        ReductStoreConfig {
            url: String::from_str("http://localhost:8383"),
            bucket_name: String::from_str("zenoh_recordings"),
            api_token: None,
            timeout_seconds: default_timeout(),
            max_retries: default_retries(),
        }
    }
}

impl FilesystemConfig {
    /// The default filesystem-backend settings.
    pub open spec fn is_default(self) -> bool {
        &&& self.base_path@ == "/data/recordings"@
        &&& self.file_format@ == "mcap"@
    }
}

impl Default for FilesystemConfig {
    fn default() -> (r: Self)
        ensures
            r.is_default(),
    {
        FilesystemConfig {
            base_path: String::from_str("/data/recordings"),
            file_format: default_file_format(),
        }
    }
}

impl StorageConfig {
    /// The default storage settings: the object-store backend.
    pub open spec fn is_default(self) -> bool {
        &&& self.backend@ == "reductstore"@
        &&& (self.backend_config matches BackendConfig::ReductStore { reductstore }
            && reductstore.is_default())
    }
}

impl Default for StorageConfig {
    fn default() -> (r: Self)
        ensures
            r.is_default(),
    {
        StorageConfig {
            backend: String::from_str("reductstore"),
            backend_config: BackendConfig::ReductStore {
                reductstore: ReductStoreConfig::default(),
            },
        }
    }
}

impl ZenohConfig {
    /// The default middleware settings.
    pub open spec fn is_default(self) -> bool {
        &&& self.mode@ == "peer"@
        &&& (self.connect matches Some(c) && c.endpoints@.len() == 1 && c.endpoints@[0]@
            == "tcp/localhost:7447"@)
        &&& self.listen is None
    }
}

impl Default for ZenohConfig {
    fn default() -> (r: Self)
        ensures
            r.is_default(),
    {
        let mut endpoints: Vec<String> = Vec::new();
        endpoints.push(String::from_str("tcp/localhost:7447"));
        ZenohConfig {
            mode: default_mode(),
            connect: Some(ConnectConfig { endpoints }),
            listen: None,
        }
    }
}

impl RecorderSettings {
    /// The default recorder settings.
    pub open spec fn is_default(self) -> bool {
        &&& self.device_id@ == "recorder-001"@
        &&& self.flush_policy.is_default()
        &&& self.compression.is_default()
        &&& self.workers.is_default()
        &&& self.control.is_default()
        &&& self.schema.is_default()
    }
}

impl Default for RecorderSettings {
    fn default() -> (r: Self)
        ensures
            r.is_default(),
    {
        RecorderSettings {
            device_id: String::from_str("recorder-001"),
            flush_policy: FlushPolicy::default(),
            compression: CompressionConfig::default(),
            workers: WorkerConfig::default(),
            control: ControlConfig::default(),
            schema: SchemaConfig::default(),
        }
    }
}

impl RecorderConfig {
    /// The default configuration.
    pub open spec fn is_default(self) -> bool {
        &&& self.zenoh.is_default()
        &&& self.storage.is_default()
        &&& self.recorder.is_default()
        &&& self.logging.is_default()
    }
}

impl Default for RecorderConfig {
    fn default() -> (r: Self)
        ensures
            r.is_default(),
    {
        RecorderConfig {
            zenoh: ZenohConfig::default(),
            storage: StorageConfig::default(),
            recorder: RecorderSettings::default(),
            logging: LoggingConfig::default(),
        }
    }
}

/// Why a configuration was rejected.
#[derive(Debug, Clone, Copy, PartialEq, Eq, Structural)]
pub enum ConfigError {
    ZeroBufferSize,
    ZeroBufferDuration,
    BadCompressionLevel,
    MissingReductStoreConfig,
    MissingFilesystemConfig,
    UnknownBackend,
    ZeroFlushWorkers,
    ZeroQueueCapacity,
    EmptyDeviceId,
}

impl ConfigError {
    /// A human-readable description of the rejection.
    pub fn message(&self) -> (r: String)
        ensures
            r@ == match *self {
                ConfigError::ZeroBufferSize => "flush_policy.max_buffer_size_bytes must be > 0"@,
                ConfigError::ZeroBufferDuration => "flush_policy.max_buffer_duration_seconds must be > 0"@,
                ConfigError::BadCompressionLevel => "compression.default_level must be 0-4"@,
                ConfigError::MissingReductStoreConfig => "reductstore backend selected but reductstore config missing"@,
                ConfigError::MissingFilesystemConfig => "filesystem backend selected but filesystem config missing"@,
                ConfigError::UnknownBackend => "Unknown backend. Supported: reductstore, filesystem"@,
                ConfigError::ZeroFlushWorkers => "workers.flush_workers must be > 0"@,
                ConfigError::ZeroQueueCapacity => "workers.queue_capacity must be > 0"@,
                ConfigError::EmptyDeviceId => "recorder.device_id cannot be empty"@,
            },
    {
        match *self {
            ConfigError::ZeroBufferSize => String::from_str(
                "flush_policy.max_buffer_size_bytes must be > 0",
            ),
            ConfigError::ZeroBufferDuration => String::from_str(
                "flush_policy.max_buffer_duration_seconds must be > 0",
            ),
            ConfigError::BadCompressionLevel => String::from_str(
                "compression.default_level must be 0-4",
            ),
            ConfigError::MissingReductStoreConfig => String::from_str(
                "reductstore backend selected but reductstore config missing",
            ),
            ConfigError::MissingFilesystemConfig => String::from_str(
                "filesystem backend selected but filesystem config missing",
            ),
            ConfigError::UnknownBackend => String::from_str(
                "Unknown backend. Supported: reductstore, filesystem",
            ),
            ConfigError::ZeroFlushWorkers => String::from_str("workers.flush_workers must be > 0"),
            ConfigError::ZeroQueueCapacity => String::from_str(
                "workers.queue_capacity must be > 0",
            ),
            ConfigError::EmptyDeviceId => String::from_str("recorder.device_id cannot be empty"),
        }
    }
}

/// The checks of `ConfigLoader::validate`, in the order they are applied;
/// yields the first failure.
pub open spec fn spec_validate(c: RecorderConfig) -> Result<(), ConfigError> {
    if c.recorder.flush_policy.max_buffer_size_bytes == 0 {
        Err(ConfigError::ZeroBufferSize)
    } else if c.recorder.flush_policy.max_buffer_duration_seconds == 0 {
        Err(ConfigError::ZeroBufferDuration)
    } else if c.recorder.compression.default_level > 4 {
        Err(ConfigError::BadCompressionLevel)
    } else if c.storage.backend@ == "reductstore"@ {
        if !(c.storage.backend_config matches BackendConfig::ReductStore { .. }) {
            Err(ConfigError::MissingReductStoreConfig)
        } else if c.recorder.workers.flush_workers == 0 {
            Err(ConfigError::ZeroFlushWorkers)
        } else if c.recorder.workers.queue_capacity == 0 {
            Err(ConfigError::ZeroQueueCapacity)
        } else if c.recorder.device_id@.len() == 0 {
            Err(ConfigError::EmptyDeviceId)
        } else {
            Ok(())
        }
    } else if c.storage.backend@ == "filesystem"@ {
        if !(c.storage.backend_config matches BackendConfig::Filesystem { .. }) {
            Err(ConfigError::MissingFilesystemConfig)
        } else if c.recorder.workers.flush_workers == 0 {
            Err(ConfigError::ZeroFlushWorkers)
        } else if c.recorder.workers.queue_capacity == 0 {
            Err(ConfigError::ZeroQueueCapacity)
        } else if c.recorder.device_id@.len() == 0 {
            Err(ConfigError::EmptyDeviceId)
        } else {
            Ok(())
        }
    } else {
        Err(ConfigError::UnknownBackend)
    }
}

/// Validates a loaded configuration.
pub struct ConfigLoader;

impl ConfigLoader {
    /// Rejects configurations with zero thresholds, a compression level
    /// outside the ordinal scale, a backend name without its block, a
    /// zero-sized worker pool or queue, or an empty device id.
    pub fn validate(config: &RecorderConfig) -> (r: Result<(), ConfigError>)
        ensures
            r == spec_validate(*config),
            r is Ok ==> config.recorder.flush_policy.max_buffer_size_bytes > 0
                && config.recorder.flush_policy.max_buffer_duration_seconds > 0
                && config.recorder.compression.default_level <= 4
                && config.recorder.workers.flush_workers > 0
                && config.recorder.workers.queue_capacity > 0 && config.recorder.device_id@.len()
                > 0,
    {
        if config.recorder.flush_policy.max_buffer_size_bytes == 0 {
            return Err(ConfigError::ZeroBufferSize);
        }
        if config.recorder.flush_policy.max_buffer_duration_seconds == 0 {
            return Err(ConfigError::ZeroBufferDuration);
        }
        if config.recorder.compression.default_level > 4 {
            return Err(ConfigError::BadCompressionLevel);
        }
        if string_is(&config.storage.backend, "reductstore") {
            if config.storage.backend_config.as_reductstore().is_none() {
                return Err(ConfigError::MissingReductStoreConfig);
            }
        } else if string_is(&config.storage.backend, "filesystem") {
            if config.storage.backend_config.as_filesystem().is_none() {
                return Err(ConfigError::MissingFilesystemConfig);
            }
        } else {
            return Err(ConfigError::UnknownBackend);
        }
        if config.recorder.workers.flush_workers == 0 {
            return Err(ConfigError::ZeroFlushWorkers);
        }
        if config.recorder.workers.queue_capacity == 0 {
            return Err(ConfigError::ZeroQueueCapacity);
        }
        if config.recorder.device_id.as_str().is_empty() {
            return Err(ConfigError::EmptyDeviceId);
        }
        Ok(())
    }
}

} // verus!
