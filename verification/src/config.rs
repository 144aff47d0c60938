//! Proxy configuration: an immutable record resolved once at startup.

use vstd::prelude::*;
use vstd::string::StringExecFns;
use crate::text;

verus! {

/// The immutable configuration shared read-only by every request handler.
#[derive(Clone, Debug)]
pub struct ProxyConfig {
    /// Base URL of the upstream API; must carry an HTTP scheme.
    pub target_base_url: String,
    /// Credential set on outbound requests; when absent, no authorization
    /// header is sent upstream.
    pub api_key: Option<String>,
    /// Requests allowed per window for one token.
    pub rate_limit: u32,
}

#[derive(Clone, Copy, Debug, PartialEq, Eq, Structural)]
pub enum ConfigError {
    InvalidRateLimit,
    InvalidUrl,
}

/// The base URL setting, or its default when unset.
pub open spec fn url_or_default(v: Option<Seq<char>>) -> Seq<char> {
    match v {
        Some(s) => s,
        None => "https://api.example.com"@,
    }
}

/// The rate-limit setting, or its default when unset.
pub open spec fn limit_or_default(v: Option<Seq<char>>) -> Seq<char> {
    match v {
        Some(s) => s,
        None => "60"@,
    }
}

impl ProxyConfig {
    /// Resolve the configuration from its raw optional settings, applying
    /// defaults and validating: the rate limit must be a decimal numeral a
    /// `u32` can hold, and the base URL must start with `http`.
    pub fn from_parts(
        target_url: Option<String>,
        api_key: Option<String>,
        rate_limit: Option<String>,
    ) -> (r: Result<ProxyConfig, ConfigError>)
        ensures
            ({
                let url = url_or_default(target_url.deep_view());
                let lim = limit_or_default(rate_limit.deep_view());
                match r {
                    Ok(c) => text::parses_to_u32(lim) && text::starts_with(url, "http"@)
                        && c.target_base_url@ == url
                        && c.api_key.deep_view() == api_key.deep_view()
                        && c.rate_limit == text::dec_value(lim),
                    Err(ConfigError::InvalidRateLimit) => !text::parses_to_u32(lim),
                    Err(ConfigError::InvalidUrl) => text::parses_to_u32(lim)
                        && !text::starts_with(url, "http"@),
                }
            }),
    {
        let url: String = match target_url {
            Some(u) => u,
            None => String::from_str("https://api.example.com"),
        };
        let lim: String = match rate_limit {
            Some(l) => l,
            None => String::from_str("60"),
        };
        let rate = match text::parse_u32(lim.as_str()) {
            Some(v) => v,
            None => {
                return Err(ConfigError::InvalidRateLimit);
            },
        };
        if !text::str_starts_with(url.as_str(), "http") {
            return Err(ConfigError::InvalidUrl);
        }
        Ok(ProxyConfig { target_base_url: url, api_key, rate_limit: rate })
    }
}

impl ConfigError {
    /// The operator-facing description of the error.
    pub fn message(&self) -> (m: String)
        ensures
            *self == ConfigError::InvalidRateLimit ==> m@ == "Invalid rate limit value"@,
            *self == ConfigError::InvalidUrl ==> m@ == "Invalid URL format"@,
    {
        match self {
            ConfigError::InvalidRateLimit => String::from_str("Invalid rate limit value"),
            ConfigError::InvalidUrl => String::from_str("Invalid URL format"),
        }
    }
}

} // verus!
