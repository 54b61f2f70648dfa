//! The validated settings a run starts from. Raw values arrive from the
//! configuration surface as plain data; validation here decides exactly
//! which runs start at all.

use vstd::prelude::*;

use crate::region::Region;
use crate::urls::{url_ok, url_parses};

verus! {

/// Settings as deserialized, before any validation.
#[derive(Debug)]
pub struct RawConfig {
    pub regions: Vec<Region>,
    pub storage_base_url: String,
    pub storage_bucket_name: String,
    pub storage_username: String,
    pub storage_password: String,
    pub download_base_url: String,
    pub stream_concurrent_requests: Option<usize>,
    pub stream_chunk_size: Option<usize>,
}

/// Settings that passed validation: at least one region, well-formed
/// URLs, and no empty storage identity.
#[derive(Debug)]
pub struct Config {
    pub regions: Vec<Region>,
    pub storage_base_url: String,
    pub storage_bucket_name: String,
    pub storage_username: String,
    pub storage_password: String,
    pub download_base_url: String,
    pub stream_concurrent_requests: Option<usize>,
    pub stream_chunk_size: Option<usize>,
}

/// Whether raw settings pass every validation check.
pub open spec fn raw_config_valid(raw: RawConfig) -> bool {
    &&& raw.regions@.len() > 0
    &&& url_ok(raw.storage_base_url@)
    &&& url_ok(raw.download_base_url@)
    &&& raw.storage_bucket_name@.len() > 0
    &&& raw.storage_username@.len() > 0
    &&& raw.storage_password@.len() > 0
}

impl Config {
    /// Validates raw settings, in a fixed order of checks, and keeps every
    /// field unchanged on success. Fails exactly when a check fails, with
    /// a message naming the first offending field.
    pub fn try_from(raw: RawConfig) -> (r: Result<Config, String>)
        ensures
            match r {
                Ok(c) => {
                    &&& raw_config_valid(raw)
                    &&& c.regions == raw.regions
                    &&& c.storage_base_url == raw.storage_base_url
                    &&& c.storage_bucket_name == raw.storage_bucket_name
                    &&& c.storage_username == raw.storage_username
                    &&& c.storage_password == raw.storage_password
                    &&& c.download_base_url == raw.download_base_url
                    &&& c.stream_concurrent_requests == raw.stream_concurrent_requests
                    &&& c.stream_chunk_size == raw.stream_chunk_size
                },
                Err(m) => {
                    &&& !raw_config_valid(raw)
                    &&& m@ == if raw.regions@.len() == 0 {
                        "At least one region must be specified."@
                    } else if !url_ok(raw.storage_base_url@) {
                        "Invalid storage_base_url."@
                    } else if !url_ok(raw.download_base_url@) {
                        "Invalid download_base_url."@
                    } else if raw.storage_bucket_name@.len() == 0 {
                        "storage_bucket_name must not be empty."@
                    } else if raw.storage_username@.len() == 0 {
                        "storage_username must not be empty."@
                    } else {
                        "storage_password must not be empty."@
                    }
                },
            },
    {
        if raw.regions.len() == 0 {
            return Err(String::from_str("At least one region must be specified."));
        }
        if !url_parses(raw.storage_base_url.as_str()) {
            return Err(String::from_str("Invalid storage_base_url."));
        }
        if !url_parses(raw.download_base_url.as_str()) {
            return Err(String::from_str("Invalid download_base_url."));
        }
        if raw.storage_bucket_name.as_str().is_empty() {
            return Err(String::from_str("storage_bucket_name must not be empty."));
        }
        if raw.storage_username.as_str().is_empty() {
            return Err(String::from_str("storage_username must not be empty."));
        }
        if raw.storage_password.as_str().is_empty() {
            return Err(String::from_str("storage_password must not be empty."));
        }
        Ok(
            Config {
                regions: raw.regions,
                storage_base_url: raw.storage_base_url,
                storage_bucket_name: raw.storage_bucket_name,
                storage_username: raw.storage_username,
                storage_password: raw.storage_password,
                download_base_url: raw.download_base_url,
                stream_concurrent_requests: raw.stream_concurrent_requests,
                stream_chunk_size: raw.stream_chunk_size,
            },
        )
    }
}

/// Tuning of the downloader: how many concurrent transfers, and the part
/// size of the re-chunking engine; either may be left to its default.
pub struct DownloaderConfig {
    pub concurrent_requests: Option<usize>,
    pub chunk_size: Option<usize>,
}

/// Where the object store lives and how to authenticate against it.
pub struct StorageConfig {
    pub base_url: String,
    pub region: String,
    pub username: String,
    pub password: String,
}

/// Which provider module resolves the schema, into which bucket.
pub struct ProviderConfig {
    pub bucket_name: String,
    pub component: String,
    pub schema: serde_json::Value,
}

} // verus!
