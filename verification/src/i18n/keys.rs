//! Key constants, alphabetized within each block.

use vstd::prelude::*;

verus! {

/// Generic SQLite failure.
pub const CACHE_GENERIC: &'static str = "error.cache.generic";

/// TOML parse or write failure.
pub const CONFIG_PARSE: &'static str = "error.config.parse";

/// A download needs yt-dlp or ffmpeg and neither is installed.
pub const DOWNLOAD_FFMPEG_MISSING: &'static str = "error.download.ffmpeg_missing";

/// Generic filesystem error.
pub const IO_GENERIC: &'static str = "error.io.generic";

/// Kitsu/AniList returned malformed data.
pub const METADATA_SOURCE: &'static str = "error.metadata.source";

/// Could not reach the upstream host.
pub const NETWORK_UNREACHABLE: &'static str = "error.network.unreachable";

/// Upstream returned a non-success HTTP status.
pub const NETWORK_UPSTREAM: &'static str = "error.network.upstream";

/// A provider response could not be parsed.
pub const SCRAPER_PARSE_FAILED: &'static str = "error.scraper.parse_failed";

/// Resolution exceeded its timeout.
pub const SCRAPER_TIMEOUT: &'static str = "error.scraper.timeout";

/// Search returned zero results.
pub const SEARCH_NO_RESULTS: &'static str = "error.search.no_results";

/// Stream token missing/expired/forged.
pub const STREAM_INVALID_TOKEN: &'static str = "error.stream.invalid_token";

} // verus!
