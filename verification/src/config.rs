//! Defaults, limits and settings.

use vstd::prelude::*;

verus! {

/// Default read timeout in seconds for the underlying HTTP client.
pub const DEFAULT_READ_TIMEOUT: u64 = 60;

/// Default maximum number of retries of an operation (0 means that only the transport retries).
pub const DEFAULT_MAX_RETRIES: usize = 0;

/// HTTP status codes treated as retriable client errors by default (408 Request Timeout, 429 Too
/// Many Requests). A `SlowDown` error code is retried as well.
pub const DEFAULT_RETRIABLE_CLIENT_STATUS_CODES: [u16; 2] = [408, 429];

/// [`DEFAULT_RETRIABLE_CLIENT_STATUS_CODES`], comma-separated.
pub const DEFAULT_RETRIABLE_CLIENT_STATUS_CODES_STR: &'static str = "408,429";

/// Region used when the environment does not provide one.
pub const FALLBACK_REGION: &'static str = "us-east-1";

/// Buffer size for reading and writing local files (1 MiB).
pub const FILE_BUFFER_SIZE: usize = 1024 * 1024;

/// Part size for multipart transfers (20 MiB). Uploads and copies constrain the effective size
/// to 5 MiB through 5 GiB and adapt upward to stay within [`MULTIPART_MAX_PARTS`].
pub const DEFAULT_MULTIPART_PART_SIZE: u64 = 1024 * 1024 * 20;

/// Number of parallel workers of a multipart transfer.
pub const DEFAULT_MULTIPART_WORKERS: usize = 1;

/// S3 limit on the number of parts of a multipart upload.
pub const MULTIPART_MAX_PARTS: u64 = 10000;

/// S3 minimum size of every part of a multipart upload except the final one (5 MiB).
pub const MULTIPART_MIN_PART_SIZE: u64 = 5 * 1024 * 1024;

/// S3 maximum size of one part of a multipart upload (5 GiB).
pub const MULTIPART_MAX_PART_SIZE: u64 = 5 * 1024 * 1024 * 1024;

/// S3 ceiling for a multipart object: 10,000 parts of 5 GiB each.
pub const MULTIPART_MAX_OBJECT_SIZE: u64 = MULTIPART_MAX_PARTS * MULTIPART_MAX_PART_SIZE;

/// Progress of a multipart transfer, in parts.
pub trait ProgressBar: Send + Sync + Clone {
    /// Set the total number of units (e.g. parts).
    fn set_length(&self, len: u64);

    /// Advance by `delta` units (e.g. one part completed).
    fn inc(&self, delta: u64);

    /// Mark the progress bar as finished.
    fn finish(&self);
}

/// A progress bar that shows nothing.
#[derive(Clone, Copy, Debug, Default)]
pub struct NoopProgressBar;

impl ProgressBar for NoopProgressBar {
    fn set_length(&self, _len: u64) {
    }

    fn inc(&self, _delta: u64) {
    }

    fn finish(&self) {
    }
}

/// Settings of the underlying S3 client (region, endpoint, credentials, timeouts).
#[derive(Clone, Debug)]
pub struct S3ClientConfig {
    pub region: Option<String>,
    pub endpoint_url: Option<String>,
    pub profile_name: Option<String>,
    /// Access key, secret key and, for temporary credentials, a session token.
    pub access_secret_session_tuple: Option<(String, String, Option<String>)>,
    /// Read timeout in seconds for the HTTP client.
    pub read_timeout_secs: u64,
    /// Part size in bytes for multipart transfers. Uploads and copies constrain the effective
    /// size to 5 MiB through 5 GiB and adapt upward to stay within [`MULTIPART_MAX_PARTS`].
    pub multipart_part_size: u64,
    /// Number of parallel workers of a multipart transfer.
    pub multipart_workers: usize,
}

impl Default for S3ClientConfig {
    fn default() -> (config: Self)
        ensures
            config == (S3ClientConfig {
                region: None,
                endpoint_url: None,
                profile_name: None,
                access_secret_session_tuple: None,
                read_timeout_secs: DEFAULT_READ_TIMEOUT,
                multipart_part_size: DEFAULT_MULTIPART_PART_SIZE,
                multipart_workers: DEFAULT_MULTIPART_WORKERS,
            }),
    {
        S3ClientConfig {
            region: None,
            endpoint_url: None,
            profile_name: None,
            access_secret_session_tuple: None,
            read_timeout_secs: DEFAULT_READ_TIMEOUT,
            multipart_part_size: DEFAULT_MULTIPART_PART_SIZE,
            multipart_workers: DEFAULT_MULTIPART_WORKERS,
        }
    }
}

/// How the delays between the attempts of an operation grow.
#[derive(Clone, Copy, Debug, PartialEq, Eq, Structural)]
pub enum RetryStrategy {
    /// Each delay is a multiple of the one before it.
    ExponentialBackoff,
}

impl Default for RetryStrategy {
    fn default() -> (strategy: Self)
        ensures
            strategy == RetryStrategy::ExponentialBackoff,
    {
        RetryStrategy::ExponentialBackoff
    }
}

/// Settings of the retries (how many, how far apart, and on which client status codes).
#[derive(Clone, Debug)]
pub struct RetryConfig {
    pub max_retries: usize,
    pub retry_strategy: RetryStrategy,
    pub retriable_client_status_codes: Vec<u16>,
}

/// [`DEFAULT_RETRIABLE_CLIENT_STATUS_CODES`] as a vector.
pub fn default_retriable_client_status_codes() -> (codes: Vec<u16>)
    ensures
        codes@ == seq![408u16, 429u16],
{
    let mut codes: Vec<u16> = Vec::new();
    codes.push(DEFAULT_RETRIABLE_CLIENT_STATUS_CODES[0]);
    codes.push(DEFAULT_RETRIABLE_CLIENT_STATUS_CODES[1]);
    codes
}

impl Default for RetryConfig {
    fn default() -> (config: Self)
        ensures
            config.max_retries == DEFAULT_MAX_RETRIES,
            config.retry_strategy == RetryStrategy::ExponentialBackoff,
            config.retriable_client_status_codes@ == seq![408u16, 429u16],
    {
        RetryConfig {
            max_retries: DEFAULT_MAX_RETRIES,
            retry_strategy: RetryStrategy::ExponentialBackoff,
            retriable_client_status_codes: default_retriable_client_status_codes(),
        }
    }
}

/// The limits that S3 sets, and the settings that apply where none are given.
pub proof fn lemma_limits_and_defaults()
    ensures
        MULTIPART_MAX_PARTS == 10_000,
        MULTIPART_MIN_PART_SIZE == 5 * 1024 * 1024,
        MULTIPART_MAX_PART_SIZE == 5 * 1024 * 1024 * 1024,
        MULTIPART_MAX_OBJECT_SIZE == MULTIPART_MAX_PARTS * MULTIPART_MAX_PART_SIZE,
        MULTIPART_MIN_PART_SIZE <= DEFAULT_MULTIPART_PART_SIZE <= MULTIPART_MAX_PART_SIZE,
        DEFAULT_MULTIPART_PART_SIZE == 20 * 1024 * 1024,
        DEFAULT_MULTIPART_WORKERS == 1,
        DEFAULT_READ_TIMEOUT == 60,
        DEFAULT_MAX_RETRIES == 0,
        FILE_BUFFER_SIZE == 1024 * 1024,
{
}

} // verus!
