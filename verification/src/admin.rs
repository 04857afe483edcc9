//! The administration API's requests, the checks made on them, and the
//! changes a configuration update makes.
use vstd::prelude::*;
use crate::config::{AiConfig, ServerConfig};

verus! {

/// A request to create an access key.
pub struct CreateAccessKeyRequest {
    pub access_key_id: String,
    pub secret_key: String,
}

/// A request to change the secret of an access key.
pub struct UpdateAccessKeyRequest {
    pub secret_key: String,
}

/// A search in plain language, optionally within one bucket.
pub struct AiSearchRequest {
    pub query: String,
    pub bucket: Option<String>,
}

/// A request for the tags of one object.
pub struct AiTagRequest {
    pub bucket: String,
    pub key: String,
}

/// A request for the tags of the objects of a bucket.
pub struct AiBulkTagRequest {
    pub bucket: String,
}

/// A request for the summary of one object.
pub struct AiSummarizeRequest {
    pub bucket: String,
    pub key: String,
}

/// A request for the summaries of the objects of a bucket.
pub struct AiBulkSummarizeRequest {
    pub bucket: String,
}

/// A message to the assistant.
pub struct AiChatRequest {
    pub message: String,
}

impl CreateAccessKeyRequest {
    /// Both the key id and the secret must be given; the refusal (status 400)
    /// carries the message of the error.
    pub fn validate(&self) -> (r: Result<(), &'static str>)
        ensures
            (self.access_key_id@.len() == 0 || self.secret_key@.len() == 0) ==> (r matches Err(m)
                && m@ == "access_key_id and secret_key are required"@),
            (self.access_key_id@.len() > 0 && self.secret_key@.len() > 0) ==> r is Ok,
    {
        if self.access_key_id.as_str().unicode_len() == 0 || self.secret_key.as_str().unicode_len() == 0 {
            return Err("access_key_id and secret_key are required");
        }
        Ok(())
    }
}

impl UpdateAccessKeyRequest {
    /// The new secret must be given; the refusal (status 400) carries the
    /// message of the error.
    pub fn validate(&self) -> (r: Result<(), &'static str>)
        ensures
            self.secret_key@.len() == 0 ==> (r matches Err(m) && m@ == "secret_key is required"@),
            self.secret_key@.len() > 0 ==> r is Ok,
    {
        if self.secret_key.as_str().unicode_len() == 0 {
            return Err("secret_key is required");
        }
        Ok(())
    }
}

/// The server settings a configuration update gives; those absent stay.
pub struct ServerPatch {
    pub host: Option<String>,
    pub port: Option<u64>,
    pub s3_port: Option<u64>,
    pub log_level: Option<String>,
    pub log_dir: Option<String>,
    pub max_request_size: Option<u64>,
}

/// The assistant settings a configuration update gives; those absent stay.
pub struct AiPatch {
    pub enabled: Option<bool>,
    pub api_endpoint: Option<String>,
    pub api_key: Option<String>,
    pub model: Option<String>,
    pub max_tokens: Option<u64>,
    pub timeout_secs: Option<u64>,
    pub auto_tag: Option<bool>,
}

/// The new value where one is given, else the old.
pub open spec fn patched<T>(old: T, new: Option<T>) -> T {
    match new {
        Some(v) => v,
        None => old,
    }
}

/// Applies a configuration update to the server settings.  Ports are kept
/// to their low 16 bits.
pub fn apply_server_patch(config: &mut ServerConfig, patch: ServerPatch)
    ensures
        final(config).host == patched(old(config).host, patch.host),
        final(config).port == (match patch.port {
            Some(p) => p as u16,
            None => old(config).port,
        }),
        final(config).s3_port == (match patch.s3_port {
            Some(p) => p as u16,
            None => old(config).s3_port,
        }),
        final(config).log_level == patched(old(config).log_level, patch.log_level),
        final(config).log_dir == patched(old(config).log_dir, patch.log_dir),
        final(config).max_request_size == patched(old(config).max_request_size, patch.max_request_size),
        final(config).enable_tls == old(config).enable_tls,
        final(config).tls_cert == old(config).tls_cert,
        final(config).tls_key == old(config).tls_key,
{
    if let Some(h) = patch.host {
        config.host = h;
    }
    if let Some(p) = patch.port {
        config.port = #[verifier::truncate] (p as u16);
    }
    if let Some(p) = patch.s3_port {
        config.s3_port = #[verifier::truncate] (p as u16);
    }
    if let Some(l) = patch.log_level {
        config.log_level = l;
    }
    if let Some(d) = patch.log_dir {
        config.log_dir = d;
    }
    if let Some(m) = patch.max_request_size {
        config.max_request_size = m;
    }
}

/// Applies a configuration update to the assistant settings.  The token
/// limit is kept to its low 32 bits.
pub fn apply_ai_patch(config: &mut AiConfig, patch: AiPatch)
    ensures
        final(config).enabled == patched(old(config).enabled, patch.enabled),
        final(config).api_endpoint == patched(old(config).api_endpoint, patch.api_endpoint),
        final(config).api_key == patched(old(config).api_key, patch.api_key),
        final(config).model == patched(old(config).model, patch.model),
        final(config).max_tokens == (match patch.max_tokens {
            Some(t) => t as u32,
            None => old(config).max_tokens,
        }),
        final(config).timeout_secs == patched(old(config).timeout_secs, patch.timeout_secs),
        final(config).auto_tag == patched(old(config).auto_tag, patch.auto_tag),
{
    if let Some(e) = patch.enabled {
        config.enabled = e;
    }
    if let Some(e) = patch.api_endpoint {
        config.api_endpoint = e;
    }
    if let Some(k) = patch.api_key {
        config.api_key = k;
    }
    if let Some(m) = patch.model {
        config.model = m;
    }
    if let Some(t) = patch.max_tokens {
        config.max_tokens = #[verifier::truncate] (t as u32);
    }
    if let Some(t) = patch.timeout_secs {
        config.timeout_secs = t;
    }
    if let Some(a) = patch.auto_tag {
        config.auto_tag = a;
    }
}

} // verus!
