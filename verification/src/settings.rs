//! The settings of the proxy, read once at startup and never changed.

use vstd::prelude::*;

verus! {

/// The format of the log output.
#[derive(Clone, Copy, Debug, PartialEq, Eq, Structural)]
pub enum LogFormat {
    /// Human-readable.
    Text,
    /// Human-readable, with colors.
    TextColor,
    /// One JSON object per line.
    Json,
}

/// How much is logged.
#[derive(Clone, Copy, Debug, PartialEq, Eq, Structural)]
pub enum LogLevel {
    /// Nothing at all.
    Quiet,
    /// Upstream errors and blocked upstream requests.
    Warn,
    /// Everything that `Warn` includes, and invalid URLs and digests.
    Info,
}

/// The most verbose level that the log subscriber lets through.
#[derive(Clone, Copy, Debug, PartialEq, Eq, Structural)]
pub enum MaxLevel {
    /// Errors only. The request pipeline reports none at this level.
    Error,
    /// Warnings and errors.
    Warn,
    /// Informational records, warnings and errors.
    Info,
}

impl LogLevel {
    /// The level that the log subscriber is set to.
    pub fn tracing_level(&self) -> (level: MaxLevel)
        ensures
            level == match *self {
                LogLevel::Quiet => MaxLevel::Error,
                LogLevel::Warn => MaxLevel::Warn,
                LogLevel::Info => MaxLevel::Info,
            },
    {
        match self {
            LogLevel::Quiet => MaxLevel::Error,
            LogLevel::Warn => MaxLevel::Warn,
            LogLevel::Info => MaxLevel::Info,
        }
    }
}

/// The settings of the proxy.
#[derive(Clone, Debug)]
pub struct Settings {
    /// Whether `audio/*` content types are allowed.
    pub allow_audio: bool,
    /// Whether `image/*` content types are allowed.
    pub allow_image: bool,
    /// Whether `json/*` content types are allowed.
    pub allow_json: bool,
    /// Whether `video/*` content types are allowed.
    pub allow_video: bool,
    /// The string that identifies this instance to the upstream, in `Via`
    /// and `User-Agent`.
    pub header_via: String,
    /// The shared secret that digests are computed with.
    pub key: String,
    /// The largest content length that is passed on.
    pub length_limit: usize,
    /// The address and port to listen on.
    pub listen: String,
    /// The format of the log output.
    pub log_format: LogFormat,
    /// How much is logged.
    pub log_level: LogLevel,
    /// The URL, with a trailing slash, under which the proxy is reached.
    /// Rewritten redirects start with it.
    pub root_url: String,
    /// The number of seconds to wait for the upstream.
    pub upstream_timeout: usize,
}

impl Settings {
    /// Whether any content type at all can pass the content type check. A
    /// proxy for which this is false blocks every `GET` request.
    pub fn allows_any_content_type(&self) -> (any: bool)
        ensures
            any == (self.allow_audio || self.allow_image || self.allow_video),
    {
        self.allow_audio || self.allow_image || self.allow_video
    }
}

} // verus!
