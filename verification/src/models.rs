//! The persistent data model: items, playlists, configuration rows, users,
//! cached provider responses and authorization data.

use vstd::prelude::*;
use crate::brainz::{BrainzMetadata, BrainzMetadataView, BrainzMultiSearch, BrainzMultiSearchView};
use crate::time::SqlSystemTime;

verus! {

/// The view of an optional string.
pub open spec fn opt_view(o: Option<String>) -> Option<Seq<char>> {
    match o {
        Some(s) => Some(s@),
        None => None,
    }
}

/// A copy of an optional string.
pub fn clone_opt_string(o: &Option<String>) -> (r: Option<String>)
    ensures
        opt_view(r) == opt_view(*o),
{
    match o {
        Some(s) => Some(s.clone()),
        None => None,
    }
}


/// A copy of an optional field in normal form: trimmed, absent when empty.
pub fn norm_opt_string(o: &Option<String>) -> (r: Option<String>)
    ensures
        opt_view(r) == crate::text::spec_norm_opt(opt_view(*o)),
{
    match o {
        Some(s) => crate::text::norm_string(Some(s.as_str())),
        None => None,
    }
}

/// Opaque identifier of a video item on the upstream playlist provider.
pub type YoutubeVideoId = String;

/// Opaque identifier of a playlist on the upstream provider.
pub type YoutubePlaylistId = String;

/// Opaque identifier of a playlist on the downstream media server.
pub type JellyPlaylistId = String;

/// Opaque identifier of an audio item on the downstream media server.
pub type JellyItemId = String;

/// A stored user: name and salted, iterated password hash.
#[derive(Debug, Clone)]
pub struct UserData {
    pub username: String,
    pub password: String,
}

/// Tokens for the upstream playlist provider.
#[derive(Debug, Clone)]
pub struct AuthData {
    pub access_token: String,
    pub refresh_token: String,
    pub expires_at: SqlSystemTime,
}

/// Operator configuration for one watched playlist.
#[derive(Debug, Clone)]
pub struct PlaylistConfig {
    pub playlist_id: YoutubePlaylistId,
    pub jelly_playlist_id: Option<JellyPlaylistId>,
    pub enabled: bool,
}

impl PlaylistConfig {
    /// A configuration for `playlist_id`: enabled, with no media-server pairing.
    pub fn new(playlist_id: YoutubePlaylistId) -> (r: Self)
        ensures
            r.playlist_id == playlist_id,
            r.jelly_playlist_id is None,
            r.enabled,
    {
        PlaylistConfig { playlist_id, jelly_playlist_id: None, enabled: true }
    }
}

/// A stored remote playlist: provider metadata and its ordered items.
#[derive(Debug, Clone)]
pub struct Playlist {
    pub playlist_id: YoutubePlaylistId,
    pub etag: String,
    pub total_results: u32,
    pub fetch_time: SqlSystemTime,
    pub items: Vec<PlaylistItem>,
}

/// One entry of a stored playlist; `position` is the intended playback order.
#[derive(Debug, Clone)]
pub struct PlaylistItem {
    pub video_id: YoutubeVideoId,
    pub title: String,
    pub artist: String,
    pub position: u32,
    pub jelly_status: JellyStatus,
}

/// One row of the media-server reconciliation view: a playlist entry joined
/// with the state of its item.
#[derive(Debug, Clone)]
pub struct JellySyncStatus {
    pub playlist_id: YoutubePlaylistId,
    pub video_id: YoutubeVideoId,
    pub fetch_status: FetchStatus,
    pub jelly_status: JellyStatus,
    pub jelly_id: Option<JellyItemId>,
}

/// The pipeline state of one item.
#[derive(Debug, Clone, Copy, PartialEq, Eq, Structural)]
pub enum FetchStatus {
    NotFetched,
    Fetched,
    FetchError,
    BrainzError,
    Categorized,
    Disabled,
}

impl FetchStatus {
    /// The integer the store persists for this state.
    pub open spec fn spec_code(self) -> i64 {
        match self {
            FetchStatus::NotFetched => 0,
            FetchStatus::Fetched => 1,
            FetchStatus::FetchError => 2,
            FetchStatus::BrainzError => 3,
            FetchStatus::Categorized => 4,
            FetchStatus::Disabled => 5,
        }
    }

    pub fn code(&self) -> (r: i64)
        ensures
            r == self.spec_code(),
    {
        match self {
            FetchStatus::NotFetched => 0,
            FetchStatus::Fetched => 1,
            FetchStatus::FetchError => 2,
            FetchStatus::BrainzError => 3,
            FetchStatus::Categorized => 4,
            FetchStatus::Disabled => 5,
        }
    }

    /// The state persisted as `value`, if `value` is a valid code.
    pub fn try_from_code(value: i64) -> (r: Result<Self, ()>)
        ensures
            match r {
                Ok(s) => s.spec_code() == value,
                Err(_) => !(0 <= value <= 5),
            },
    {
        match value {
            0 => Ok(FetchStatus::NotFetched),
            1 => Ok(FetchStatus::Fetched),
            2 => Ok(FetchStatus::FetchError),
            3 => Ok(FetchStatus::BrainzError),
            4 => Ok(FetchStatus::Categorized),
            5 => Ok(FetchStatus::Disabled),
            _ => Err(()),
        }
    }
}

/// Whether a playlist entry has been mirrored to the media server.
#[derive(Debug, Clone, Copy, PartialEq, Eq, Structural)]
pub enum JellyStatus {
    NotSynced,
    Synced,
}

impl JellyStatus {
    /// The integer the store persists for this state.
    pub open spec fn spec_code(self) -> i64 {
        match self {
            JellyStatus::NotSynced => 0,
            JellyStatus::Synced => 1,
        }
    }

    pub fn code(&self) -> (r: i64)
        ensures
            r == self.spec_code(),
    {
        match self {
            JellyStatus::NotSynced => 0,
            JellyStatus::Synced => 1,
        }
    }

    /// The state persisted as `value`, if `value` is a valid code.
    pub fn try_from_code(value: i64) -> (r: Result<Self, ()>)
        ensures
            match r {
                Ok(s) => s.spec_code() == value,
                Err(_) => !(0 <= value <= 1),
            },
    {
        match value {
            0 => Ok(JellyStatus::NotSynced),
            1 => Ok(JellyStatus::Synced),
            _ => Err(()),
        }
    }
}

/// The full stored state of one item: the unit of work of the pipeline.
#[derive(Debug, Clone)]
pub struct VideoStatus {
    pub video_id: YoutubeVideoId,
    pub fetch_status: FetchStatus,
    pub fetch_time: Option<SqlSystemTime>,
    pub last_update: Option<SqlSystemTime>,
    pub last_query: Option<BrainzMultiSearch>,
    pub last_result: Option<BrainzMetadata>,
    pub last_error: Option<String>,
    pub override_query: Option<BrainzMultiSearch>,
    pub override_result: Option<BrainzMetadata>,
    pub jelly_id: Option<JellyItemId>,
}

impl VideoStatus {
    /// A fresh item: not fetched, with every optional field absent.
    pub fn new(video_id: YoutubeVideoId) -> (r: Self)
        ensures
            r.video_id == video_id,
            r.fetch_status == FetchStatus::NotFetched,
            r.fetch_time is None,
            r.last_update is None,
            r.last_query is None,
            r.last_result is None,
            r.last_error is None,
            r.override_query is None,
            r.override_result is None,
            r.jelly_id is None,
    {
        VideoStatus {
            video_id,
            fetch_status: FetchStatus::NotFetched,
            fetch_time: None,
            last_update: None,
            last_query: None,
            last_result: None,
            last_error: None,
            override_query: None,
            override_result: None,
            jelly_id: None,
        }
    }

    /// `self` with `last_update` stamped to `now` and all else unchanged.
    pub open spec fn spec_stamped(self, now: SqlSystemTime) -> Self {
        VideoStatus { last_update: Some(now), ..self }
    }

    /// Stamps `last_update` with the given instant.
    pub fn update_at(&mut self, now: SqlSystemTime)
        ensures
            *final(self) == old(self).spec_stamped(now),
    {
        self.last_update = Some(now);
    }

    /// Stamps `last_update` with the current wall-clock time.
    pub fn update_now(&mut self)
        ensures
            exists|now: SqlSystemTime|
                #![auto]
                now.wf() && *final(self) == old(self).spec_stamped(now),
    {
        let now = SqlSystemTime::now();
        self.update_at(now);
    }

    /// Whether the audio for this item has been acquired and is still wanted.
    pub fn is_downloaded(&self) -> (r: bool)
        ensures
            r == (self.fetch_status != FetchStatus::NotFetched && self.fetch_status
                != FetchStatus::FetchError && self.fetch_status != FetchStatus::Disabled),
    {
        self.fetch_status != FetchStatus::NotFetched && self.fetch_status
            != FetchStatus::FetchError && self.fetch_status != FetchStatus::Disabled
    }
}


/// The mathematical value of a `UserData`.
#[verifier::ext_equal]
pub struct UserDataView {
    pub username: Seq<char>,
    pub password: Seq<char>,
}

impl View for UserData {
    type V = UserDataView;

    open spec fn view(&self) -> UserDataView {
        UserDataView { username: self.username@, password: self.password@ }
    }
}

/// The mathematical value of an `AuthData`.
#[verifier::ext_equal]
pub struct AuthDataView {
    pub access_token: Seq<char>,
    pub refresh_token: Seq<char>,
    pub expires_at: SqlSystemTime,
}

impl View for AuthData {
    type V = AuthDataView;

    open spec fn view(&self) -> AuthDataView {
        AuthDataView {
            access_token: self.access_token@,
            refresh_token: self.refresh_token@,
            expires_at: self.expires_at,
        }
    }
}

/// The mathematical value of a `PlaylistConfig`.
#[verifier::ext_equal]
pub struct PlaylistConfigView {
    pub playlist_id: Seq<char>,
    pub jelly_playlist_id: Option<Seq<char>>,
    pub enabled: bool,
}

impl View for PlaylistConfig {
    type V = PlaylistConfigView;

    open spec fn view(&self) -> PlaylistConfigView {
        PlaylistConfigView {
            playlist_id: self.playlist_id@,
            jelly_playlist_id: opt_view(self.jelly_playlist_id),
            enabled: self.enabled,
        }
    }
}

/// The mathematical value of a `PlaylistItem`.
#[verifier::ext_equal]
pub struct PlaylistItemView {
    pub video_id: Seq<char>,
    pub title: Seq<char>,
    pub artist: Seq<char>,
    pub position: u32,
    pub jelly_status: JellyStatus,
}

impl View for PlaylistItem {
    type V = PlaylistItemView;

    open spec fn view(&self) -> PlaylistItemView {
        PlaylistItemView {
            video_id: self.video_id@,
            title: self.title@,
            artist: self.artist@,
            position: self.position,
            jelly_status: self.jelly_status,
        }
    }
}

/// The mathematical value of a `Playlist`.
#[verifier::ext_equal]
pub struct PlaylistView {
    pub playlist_id: Seq<char>,
    pub etag: Seq<char>,
    pub total_results: u32,
    pub fetch_time: SqlSystemTime,
    pub items: Seq<PlaylistItemView>,
}

impl View for Playlist {
    type V = PlaylistView;

    open spec fn view(&self) -> PlaylistView {
        PlaylistView {
            playlist_id: self.playlist_id@,
            etag: self.etag@,
            total_results: self.total_results,
            fetch_time: self.fetch_time,
            items: Seq::new(self.items@.len(), |i: int| self.items@[i]@),
        }
    }
}

/// The mathematical value of a `JellySyncStatus`.
#[verifier::ext_equal]
pub struct JellySyncStatusView {
    pub playlist_id: Seq<char>,
    pub video_id: Seq<char>,
    pub fetch_status: FetchStatus,
    pub jelly_status: JellyStatus,
    pub jelly_id: Option<Seq<char>>,
}

impl View for JellySyncStatus {
    type V = JellySyncStatusView;

    open spec fn view(&self) -> JellySyncStatusView {
        JellySyncStatusView {
            playlist_id: self.playlist_id@,
            video_id: self.video_id@,
            fetch_status: self.fetch_status,
            jelly_status: self.jelly_status,
            jelly_id: opt_view(self.jelly_id),
        }
    }
}

/// The mathematical value of a `VideoStatus`.
#[verifier::ext_equal]
pub struct VideoStatusView {
    pub video_id: Seq<char>,
    pub fetch_status: FetchStatus,
    pub fetch_time: Option<SqlSystemTime>,
    pub last_update: Option<SqlSystemTime>,
    pub last_query: Option<BrainzMultiSearchView>,
    pub last_result: Option<BrainzMetadataView>,
    pub last_error: Option<Seq<char>>,
    pub override_query: Option<BrainzMultiSearchView>,
    pub override_result: Option<BrainzMetadataView>,
    pub jelly_id: Option<Seq<char>>,
}

/// The view of an optional resolver input.
pub open spec fn opt_search_view(o: Option<BrainzMultiSearch>) -> Option<BrainzMultiSearchView> {
    match o {
        Some(ref q) => Some(q@),
        None => None,
    }
}

/// The view of an optional resolver result.
pub open spec fn opt_meta_view(o: Option<BrainzMetadata>) -> Option<BrainzMetadataView> {
    match o {
        Some(ref m) => Some(m@),
        None => None,
    }
}

impl View for VideoStatus {
    type V = VideoStatusView;

    open spec fn view(&self) -> VideoStatusView {
        VideoStatusView {
            video_id: self.video_id@,
            fetch_status: self.fetch_status,
            fetch_time: self.fetch_time,
            last_update: self.last_update,
            last_query: opt_search_view(self.last_query),
            last_result: opt_meta_view(self.last_result),
            last_error: opt_view(self.last_error),
            override_query: opt_search_view(self.override_query),
            override_result: opt_meta_view(self.override_result),
            jelly_id: opt_view(self.jelly_id),
        }
    }
}

/// A copy of a resolver input, field for field.
pub fn clone_multisearch(q: &BrainzMultiSearch) -> (r: BrainzMultiSearch)
    ensures
        r@ == q@,
{
    BrainzMultiSearch {
        trackid: clone_opt_string(&q.trackid),
        title: q.title.clone(),
        artist: clone_opt_string(&q.artist),
        album: clone_opt_string(&q.album),
    }
}

/// A copy of a resolver result, field for field.
pub fn clone_metadata(m: &BrainzMetadata) -> (r: BrainzMetadata)
    ensures
        r@ =~~= m@,
{
    let mut artist: Vec<String> = Vec::new();
    for i in 0..m.artist.len()
        invariant
            artist@.len() == i,
            forall|k: int| 0 <= k < i ==> (#[trigger] artist@[k])@ == m.artist@[k]@,
    {
        artist.push(m.artist[i].clone());
    }
    proof {
        assert(artist.deep_view() =~= m.artist.deep_view());
    }
    BrainzMetadata {
        brainz_recording_id: clone_opt_string(&m.brainz_recording_id),
        title: m.title.clone(),
        artist,
        album: clone_opt_string(&m.album),
    }
}

/// A copy of an optional resolver input.
pub fn clone_opt_search(o: &Option<BrainzMultiSearch>) -> (r: Option<BrainzMultiSearch>)
    ensures
        opt_search_view(r) == opt_search_view(*o),
{
    match o {
        Some(q) => Some(clone_multisearch(q)),
        None => None,
    }
}

/// A copy of an optional resolver result.
pub fn clone_opt_meta(o: &Option<BrainzMetadata>) -> (r: Option<BrainzMetadata>)
    ensures
        opt_meta_view(r) =~~= opt_meta_view(*o),
{
    match o {
        Some(m) => Some(clone_metadata(m)),
        None => None,
    }
}

/// A copy of an item's stored state, field for field.
pub fn clone_video_status(v: &VideoStatus) -> (r: VideoStatus)
    ensures
        r@ =~~= v@,
{
    VideoStatus {
        video_id: v.video_id.clone(),
        fetch_status: v.fetch_status,
        fetch_time: v.fetch_time,
        last_update: v.last_update,
        last_query: clone_opt_search(&v.last_query),
        last_result: clone_opt_meta(&v.last_result),
        last_error: clone_opt_string(&v.last_error),
        override_query: clone_opt_search(&v.override_query),
        override_result: clone_opt_meta(&v.override_result),
        jelly_id: clone_opt_string(&v.jelly_id),
    }
}

/// A copy of a playlist entry, field for field.
pub fn clone_playlist_item(p: &PlaylistItem) -> (r: PlaylistItem)
    ensures
        r@ == p@,
{
    PlaylistItem {
        video_id: p.video_id.clone(),
        title: p.title.clone(),
        artist: p.artist.clone(),
        position: p.position,
        jelly_status: p.jelly_status,
    }
}

/// A copy of a stored playlist, entry for entry.
pub fn clone_playlist(p: &Playlist) -> (r: Playlist)
    ensures
        r@ =~~= p@,
        r.playlist_id@ == p.playlist_id@,
        r.etag@ == p.etag@,
        r.total_results == p.total_results,
        r.fetch_time == p.fetch_time,
        r.items@.len() == p.items@.len(),
        forall|k: int| 0 <= k < p.items@.len() ==> (#[trigger] r.items@[k])@ == p.items@[k]@,
{
    let mut items: Vec<PlaylistItem> = Vec::new();
    for i in 0..p.items.len()
        invariant
            items@.len() == i,
            forall|k: int| 0 <= k < i ==> (#[trigger] items@[k])@ == p.items@[k]@,
    {
        items.push(clone_playlist_item(&p.items[i]));
    }
    Playlist {
        playlist_id: p.playlist_id.clone(),
        etag: p.etag.clone(),
        total_results: p.total_results,
        fetch_time: p.fetch_time,
        items,
    }
}

/// A copy of a playlist configuration, field for field.
pub fn clone_playlist_config(c: &PlaylistConfig) -> (r: PlaylistConfig)
    ensures
        r@ == c@,
{
    PlaylistConfig {
        playlist_id: c.playlist_id.clone(),
        jelly_playlist_id: clone_opt_string(&c.jelly_playlist_id),
        enabled: c.enabled,
    }
}

/// What every persisted mutation of an item does to `last_update`: it is
/// stamped with the clock reading taken at the write.
pub open spec fn write_stamps(post: VideoStatus, t: SqlSystemTime) -> bool {
    post.last_update == Some(t)
}

/// `last_update` is non-decreasing across any sequence of writes, provided
/// the clock readings taken at the writes do not decrease.
pub proof fn lemma_last_update_non_decreasing(
    states: Seq<VideoStatus>,
    times: Seq<SqlSystemTime>,
)
    requires
        states.len() == times.len() + 1,
        forall|i: int| 0 <= i < times.len() ==> write_stamps(#[trigger] states[i + 1], times[i]),
        forall|i: int|
            0 <= i < times.len() - 1 ==> (#[trigger] times[i]).as_nanos() <= times[i
                + 1].as_nanos(),
        states[0].last_update matches Some(u) ==> times.len() > 0 ==> u.as_nanos()
            <= times[0].as_nanos(),
    ensures
        forall|i: int, j: int|
            1 <= i <= j < states.len() ==> ((#[trigger] states[i]).last_update matches Some(u) && ((
            #[trigger] states[j]).last_update matches Some(w) && u.as_nanos() <= w.as_nanos())),
{
    assert forall|i: int, j: int| 1 <= i <= j < states.len() implies ((
    #[trigger] states[i]).last_update matches Some(u) && ((#[trigger] states[j]).last_update matches
        Some(w) && u.as_nanos() <= w.as_nanos())) by {
        assert(write_stamps(states[(i - 1) + 1], times[i - 1]));
        assert(write_stamps(states[(j - 1) + 1], times[j - 1]));
        lemma_times_sorted(times, i - 1, j - 1);
    }
}

proof fn lemma_times_sorted(times: Seq<SqlSystemTime>, i: int, j: int)
    requires
        forall|k: int|
            0 <= k < times.len() - 1 ==> (#[trigger] times[k]).as_nanos() <= times[k
                + 1].as_nanos(),
        0 <= i <= j < times.len(),
    ensures
        times[i].as_nanos() <= times[j].as_nanos(),
    decreases j - i,
{
    if i < j {
        lemma_times_sorted(times, i + 1, j);
    }
}

} // verus!
