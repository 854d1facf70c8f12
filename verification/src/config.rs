//! The service configuration, as plain values: paths, provider credentials,
//! the web port, the loop rates and the optional media-server section.
//! Reading and parsing the configuration file happens outside; the defaults
//! live here.

use vstd::prelude::*;
use crate::limiter::Limiter;
use crate::musicfiles::MsPaths;

verus! {

/// The whole configuration.
#[derive(Debug, Clone)]
pub struct MsConfig {
    pub paths: MsPaths,
    pub youtube: MsYoutube,
    pub web: MsWeb,
    pub scrape: MsScrape,
    pub jellyfin: Option<MsJellyfin>,
}

/// The playlist provider's client credentials.
#[derive(Debug, Clone)]
pub struct MsYoutube {
    pub client_id: String,
    pub client_secret: String,
}

/// The operator front end's port and static-file directory.
#[derive(Debug, Clone)]
pub struct MsWeb {
    pub port: u16,
    pub path: String,
}

/// The loop rates, in milliseconds, and the extractor binary's name.
#[derive(Debug, Clone)]
pub struct MsScrape {
    pub yt_dlp_rate: u64,
    pub cleanup_tag_rate: u64,
    pub playlist_sync_rate: u64,
    pub jellyfin_sync_rate: u64,
    pub yt_dlp: String,
}

/// The media-server section.
#[derive(Debug, Clone)]
pub struct MsJellyfin {
    pub server: String,
    pub user: String,
    pub password: String,
    pub collection: String,
    pub rewrite_path: Option<MsJellyfinRewrite>,
}

/// The path-prefix rewrite between the library's view and the server's.
#[derive(Debug, Clone)]
pub struct MsJellyfinRewrite {
    pub from: String,
    pub to: String,
}

impl MsConfig {
    /// The default front-end port.
    pub fn default_port() -> (r: u16)
        ensures
            r == 3001,
    {
        3001
    }

    /// The default static-file directory.
    pub fn default_web_path() -> (r: String)
        ensures
            r@ == "web"@,
    {
        String::from_str("web")
    }

    /// The default spacing of extractor runs: ten seconds.
    pub fn default_yt_dlp_rate() -> (r: u64)
        ensures
            r == 10000,
    {
        10000
    }

    /// The default tagger interval: one hour.
    pub fn default_cleanup_tag_rate() -> (r: u64)
        ensures
            r == 3600000,
    {
        3600000
    }

    /// The default playlist-sync interval: five minutes.
    pub fn default_playlist_sync_rate() -> (r: u64)
        ensures
            r == 300000,
    {
        300000
    }

    /// The default media-server sync interval: ten minutes.
    pub fn default_jellyfin_sync_rate() -> (r: u64)
        ensures
            r == 600000,
    {
        600000
    }

    /// The default extractor binary name.
    pub fn default_yt_dlp() -> (r: String)
        ensures
            r@ == "yt-dlp"@,
    {
        String::from_str("yt-dlp")
    }
}

/// The per-provider rate limiters of the running service.
#[derive(Debug)]
pub struct Limiters {
    pub youtube: Limiter,
}

impl Limiters {
    /// Limiters spaced by the configured extractor rate.
    pub fn new(config: &MsConfig) -> (r: Self)
        ensures
            r.youtube.wait_time == config.scrape.yt_dlp_rate,
            r.youtube.next_allowed_time is None,
            r.youtube.claimed_next_time is None,
    {
        Limiters { youtube: Limiter::new(config.scrape.yt_dlp_rate) }
    }
}

} // verus!
