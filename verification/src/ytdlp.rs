//! The extractor adapter: the exact invocation of the external audio
//! extractor, its cached metadata, and what its outcome means for an item.
//! Running the subprocess is the caller's work; the command line and every
//! decision about its result are fixed here.

use vstd::prelude::*;
use crate::models::opt_view;
use crate::store::{yt_idx, DbState};

verus! {

/// A failure of the extractor adapter.
#[derive(Debug, Clone)]
pub enum YtDlpError {
    /// Reading the process or its files failed; the message is the system's.
    IOError(String),
    /// The extractor's output was not valid text.
    JsonEncodingErr(String),
    /// The extractor's output could not be parsed; the message is the
    /// parser's.
    JsonDeserializationErr(String),
    /// The extractor itself failed; the message is its trimmed diagnostic
    /// output.
    CommandError(String),
}

impl YtDlpError {
    /// A short operator-facing description.
    pub fn message(&self) -> String {
        match self {
            YtDlpError::IOError(m) => m.clone(),
            YtDlpError::JsonEncodingErr(m) => m.clone(),
            YtDlpError::JsonDeserializationErr(m) => m.clone(),
            YtDlpError::CommandError(m) => m.clone(),
        }
    }
}

/// The extractor's metadata for one remote video, reduced to plain values.
#[derive(Debug, Clone)]
pub struct YtDlpResponse {
    pub id: String,
    pub title: String,
    pub channel: String,
    pub duration: u32,
    pub album: Option<String>,
    pub artist: Option<String>,
    pub track: Option<String>,
}

/// The argument list of one extractor run for `video_id`: quiet, JSON dump,
/// no simulation, audio extraction with an embedded thumbnail, best audio,
/// sponsor-segment removal, the youtube extractor only, and an
/// `<id>.<ext>` output template.
pub fn ytdlp_args(video_id: &str) -> (r: Vec<String>)
    ensures
        r@.len() == 14,
        r@[0]@ == "--quiet"@,
        r@[1]@ == "--dump-json"@,
        r@[2]@ == "--no-simulate"@,
        r@[3]@ == "--extract-audio"@,
        r@[4]@ == "--embed-thumbnail"@,
        r@[5]@ == "--format"@,
        r@[6]@ == "ba"@,
        r@[7]@ == "--sponsorblock-remove"@,
        r@[8]@ == "music_offtopic"@,
        r@[9]@ == "--use-extractors"@,
        r@[10]@ == "youtube"@,
        r@[11]@ == "--output"@,
        r@[12]@ == "%(id)s.%(ext)s"@,
        r@[13]@ == "https://www.youtube.com/watch?v="@ + video_id@,
{
    let mut r: Vec<String> = Vec::new();
    r.push(String::from_str("--quiet"));
    r.push(String::from_str("--dump-json"));
    r.push(String::from_str("--no-simulate"));
    r.push(String::from_str("--extract-audio"));
    r.push(String::from_str("--embed-thumbnail"));
    r.push(String::from_str("--format"));
    r.push(String::from_str("ba"));
    r.push(String::from_str("--sponsorblock-remove"));
    r.push(String::from_str("music_offtopic"));
    r.push(String::from_str("--use-extractors"));
    r.push(String::from_str("youtube"));
    r.push(String::from_str("--output"));
    r.push(String::from_str("%(id)s.%(ext)s"));
    let mut url = String::from_str("https://www.youtube.com/watch?v=");
    url.append(video_id);
    r.push(url);
    r
}

/// What one acquisition must do next: return the cached metadata as it
/// stands, or run the extractor.
pub enum AcquirePlan {
    Cached(String),
    RunExtractor,
}

/// The cache decision of one acquisition: cached metadata is returned
/// without running the extractor; only a cache miss runs it.
pub fn acquire_plan(db: &DbState, video_id: &str) -> (r: AcquirePlan)
    ensures
        match yt_idx(db.ytdata@, video_id@, 0) {
            Some(i) => r matches AcquirePlan::Cached(s) && s@ == db.ytdata@[i].ytdlp@,
            None => r matches AcquirePlan::RunExtractor,
        },
{
    match db.try_get_yt_dlp(video_id) {
        Some(s) => AcquirePlan::Cached(s),
        None => AcquirePlan::RunExtractor,
    }
}

/// The glob pattern that locates the extractor's local file for one video:
/// `<video_id>.*`, matched inside the working directory.
pub fn local_file_pattern(video_id: &str) -> (r: String)
    ensures
        r@ == video_id@ + ".*"@,
{
    let mut p = String::from_str(video_id);
    p.append(".*");
    p
}

/// The resolver input derived from extractor metadata when the operator has
/// not overridden it: no track identifier, the extractor's track name or
/// its title, and its artist and album as they stand.
pub fn derive_query(dlp: &YtDlpResponse) -> (r: crate::brainz::BrainzMultiSearch)
    ensures
        r@.trackid is None,
        r@.title == match dlp.track {
            Some(ref t) => t@,
            None => dlp.title@,
        },
        r@.artist == opt_view(dlp.artist),
        r@.album == opt_view(dlp.album),
{
    crate::brainz::BrainzMultiSearch {
        trackid: None,
        title: match &dlp.track {
            Some(t) => t.clone(),
            None => dlp.title.clone(),
        },
        artist: crate::models::clone_opt_string(&dlp.artist),
        album: crate::models::clone_opt_string(&dlp.album),
    }
}

} // verus!
