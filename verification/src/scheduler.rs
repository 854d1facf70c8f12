//! The reconciliation state machine: how the tagger advances one item, how
//! operator overrides re-enter it, and how the playlist-sync pass creates
//! item rows. Each function is one decision or transition of the pipeline;
//! the loops that call them on ticks and triggers live outside.

use vstd::prelude::*;
use crate::brainz::{BrainzMetadata, BrainzMultiSearch};
use crate::models::{
    clone_metadata, clone_multisearch, norm_opt_string, opt_meta_view, FetchStatus, Playlist,
    VideoStatus,
};
use crate::store::{video_idx, DbState};
use crate::time::SqlSystemTime;
use crate::ytdlp::YtDlpResponse;

verus! {

/// What the tagger does with an item in its current state.
#[derive(Debug, Clone, Copy, PartialEq, Eq, Structural)]
pub enum TaggerStep {
    /// The audio is not yet acquired: run the extractor.
    Acquire,
    /// The audio is there: go on with cached metadata.
    UseCachedMetadata,
    /// The item is failed, finished or disabled: leave it alone.
    Skip,
}

/// The tagger's dispatch on an item's state: not-fetched items are
/// acquired; fetched ones go on to metadata; failed, categorized and
/// disabled ones are skipped.
pub fn tagger_step(status: &VideoStatus) -> (r: TaggerStep)
    ensures
        r == match status.fetch_status {
            FetchStatus::NotFetched => TaggerStep::Acquire,
            FetchStatus::FetchError => TaggerStep::Skip,
            FetchStatus::Categorized => TaggerStep::Skip,
            FetchStatus::Disabled => TaggerStep::Skip,
            FetchStatus::Fetched => TaggerStep::UseCachedMetadata,
            FetchStatus::BrainzError => TaggerStep::UseCachedMetadata,
        },
{
    match status.fetch_status {
        FetchStatus::NotFetched => TaggerStep::Acquire,
        FetchStatus::FetchError => TaggerStep::Skip,
        FetchStatus::Categorized => TaggerStep::Skip,
        FetchStatus::Disabled => TaggerStep::Skip,
        FetchStatus::Fetched => TaggerStep::UseCachedMetadata,
        FetchStatus::BrainzError => TaggerStep::UseCachedMetadata,
    }
}

/// A successful acquisition: the item becomes fetched, with the fetch time
/// and the update stamp set to the given instants.
pub fn apply_fetch_success(status: &mut VideoStatus, fetch_time: SqlSystemTime, now: SqlSystemTime)
    ensures
        *final(status) == (VideoStatus {
            fetch_status: FetchStatus::Fetched,
            fetch_time: Some(fetch_time),
            last_update: Some(now),
            ..*old(status)
        }),
{
    status.fetch_time = Some(fetch_time);
    status.fetch_status = FetchStatus::Fetched;
    status.update_at(now);
}

/// A failed acquisition: the item records the error and enters the
/// fetch-error state.
pub fn apply_fetch_error(status: &mut VideoStatus, error: String, now: SqlSystemTime)
    ensures
        final(status).fetch_status == FetchStatus::FetchError,
        final(status).last_error == Some(error),
        final(status).last_update == Some(now),
        final(status).video_id == old(status).video_id,
        final(status).fetch_time == old(status).fetch_time,
        final(status).last_query == old(status).last_query,
        final(status).last_result == old(status).last_result,
        final(status).override_query == old(status).override_query,
        final(status).override_result == old(status).override_result,
        final(status).jelly_id == old(status).jelly_id,
{
    status.last_error = Some(error);
    status.fetch_status = FetchStatus::FetchError;
    status.update_at(now);
}

/// Where the metadata step takes its answer from.
#[derive(Debug, Clone)]
pub enum ResolveSource {
    /// An operator result override: used verbatim, no resolver call.
    Overridden(BrainzMetadata),
    /// A query to put to the resolver. The flag says whether the query is
    /// the automatically derived one and is to be recorded as `last_query`;
    /// an operator query override is not recorded.
    Query(BrainzMultiSearch, bool),
}

/// What determines the metadata step's input and output: a present
/// `override_result` fully determines the resolver output, verbatim and
/// with no resolver call; otherwise a present `override_query` fully
/// determines the resolver input; only with neither is the input derived
/// from the extractor metadata and recorded as the item's `last_query`.
pub fn resolver_input(
    override_result: &Option<BrainzMetadata>,
    override_query: &Option<BrainzMultiSearch>,
    dlp: &YtDlpResponse,
) -> (r: ResolveSource)
    ensures
        match *override_result {
            Some(ref m) => r matches ResolveSource::Overridden(rm) && rm@ =~~= m@,
            None => match *override_query {
                Some(ref q) => r matches ResolveSource::Query(rq, record) && rq@ == q@ && !record,
                None => r matches ResolveSource::Query(rq, record) && record && rq@.trackid is None
                    && rq@.title == (match dlp.track {
                    Some(ref t) => t@,
                    None => dlp.title@,
                }) && rq@.artist == crate::models::opt_view(dlp.artist) && rq@.album
                    == crate::models::opt_view(dlp.album),
            },
        },
{
    match override_result {
        Some(m) => ResolveSource::Overridden(clone_metadata(m)),
        None => match override_query {
            Some(q) => ResolveSource::Query(clone_multisearch(q), false),
            None => ResolveSource::Query(crate::ytdlp::derive_query(dlp), true),
        },
    }
}

/// A successful resolution: the result is recorded; the error is not yet
/// touched — it clears only when the item is categorized.
pub fn apply_resolve_success(status: &mut VideoStatus, result: &BrainzMetadata, now: SqlSystemTime)
    ensures
        opt_meta_view(final(status).last_result) =~~= Some(result@),
        final(status).last_update == Some(now),
        final(status).fetch_status == old(status).fetch_status,
        final(status).video_id == old(status).video_id,
        final(status).fetch_time == old(status).fetch_time,
        final(status).last_query == old(status).last_query,
        final(status).last_error == old(status).last_error,
        final(status).override_query == old(status).override_query,
        final(status).override_result == old(status).override_result,
        final(status).jelly_id == old(status).jelly_id,
{
    status.last_result = Some(clone_metadata(result));
    status.update_at(now);
}

/// A failed resolution: the result is cleared, the error recorded, and the
/// item abandoned in the resolve-error state.
pub fn apply_resolve_failure(status: &mut VideoStatus, error: String, now: SqlSystemTime)
    ensures
        final(status).last_result is None,
        final(status).last_error == Some(error),
        final(status).fetch_status == FetchStatus::BrainzError,
        final(status).last_update == Some(now),
        final(status).video_id == old(status).video_id,
        final(status).fetch_time == old(status).fetch_time,
        final(status).last_query == old(status).last_query,
        final(status).override_query == old(status).override_query,
        final(status).override_result == old(status).override_result,
        final(status).jelly_id == old(status).jelly_id,
{
    status.last_result = None;
    status.last_error = Some(error);
    status.fetch_status = FetchStatus::BrainzError;
    status.update_at(now);
}

/// A completed filing: the item is categorized and its error cleared.
pub fn apply_categorized(status: &mut VideoStatus, now: SqlSystemTime)
    ensures
        final(status).fetch_status == FetchStatus::Categorized,
        final(status).last_error is None,
        final(status).last_update == Some(now),
        final(status).video_id == old(status).video_id,
        final(status).fetch_time == old(status).fetch_time,
        final(status).last_query == old(status).last_query,
        final(status).last_result == old(status).last_result,
        final(status).override_query == old(status).override_query,
        final(status).override_result == old(status).override_result,
        final(status).jelly_id == old(status).jelly_id,
{
    status.last_error = None;
    status.fetch_status = FetchStatus::Categorized;
    status.update_at(now);
}

/// The operator's retry command: an item whose audio is not acquired is put
/// back to not-fetched; an already-downloaded item is left alone and not
/// persisted.
pub fn retry_fetch_decision(v: &mut VideoStatus) -> (save: bool)
    ensures
        old(v).fetch_status != FetchStatus::NotFetched && old(v).fetch_status
            != FetchStatus::FetchError && old(v).fetch_status != FetchStatus::Disabled ==> (!save
            && *final(v) == *old(v)),
        !(old(v).fetch_status != FetchStatus::NotFetched && old(v).fetch_status
            != FetchStatus::FetchError && old(v).fetch_status != FetchStatus::Disabled) ==> (save
            && *final(v) == (VideoStatus { fetch_status: FetchStatus::NotFetched, ..*old(v) })),
{
    if v.is_downloaded() {
        return false;
    }
    v.fetch_status = FetchStatus::NotFetched;
    true
}

/// The operator's query override: on a downloaded item, the cleaned query —
/// trimmed fields, with emptied ones absent — replaces the automatic one
/// and the item re-enters the fetched state; otherwise nothing is persisted.
pub fn query_override_decision(v: &mut VideoStatus, query: Option<BrainzMultiSearch>) -> (save:
    bool)
    ensures
        !(old(v).fetch_status != FetchStatus::NotFetched && old(v).fetch_status
            != FetchStatus::FetchError && old(v).fetch_status != FetchStatus::Disabled) ==> (!save
            && *final(v) == *old(v)),
        (old(v).fetch_status != FetchStatus::NotFetched && old(v).fetch_status
            != FetchStatus::FetchError && old(v).fetch_status != FetchStatus::Disabled) ==> (save
            && final(v).fetch_status == FetchStatus::Fetched && (match query {
            Some(ref q) => final(v).override_query matches Some(c)
                && c@.trackid == crate::text::spec_norm_opt(q@.trackid) && c@.title
                == crate::text::spec_trim(q@.title) && c@.artist == crate::text::spec_norm_opt(
                q@.artist,
            ) && c@.album == crate::text::spec_norm_opt(q@.album),
            None => final(v).override_query is None,
        }) && final(v).video_id == old(v).video_id && final(v).fetch_time == old(v).fetch_time
            && final(v).last_update == old(v).last_update && final(v).last_query == old(v).last_query && final(v).last_result == old(v).last_result && final(v).last_error == old(v).last_error && final(v).override_result == old(v).override_result && final(v).jelly_id
            == old(v).jelly_id),
{
    if !v.is_downloaded() {
        return false;
    }
    let cleaned = match &query {
        Some(q) => {
            let title_chars = crate::text::chars_of(q.title.as_str());
            let trimmed = crate::text::trim_chars(&title_chars);
            Some(
                BrainzMultiSearch {
                    trackid: norm_opt_string(&q.trackid),
                    title: crate::text::string_from_chars(&trimmed),
                    artist: norm_opt_string(&q.artist),
                    album: norm_opt_string(&q.album),
                },
            )
        },
        None => None,
    };
    v.override_query = cleaned;
    v.fetch_status = FetchStatus::Fetched;
    true
}

/// The operator's result override: on a downloaded item, the cleaned result
/// — trimmed title and artists, emptied album and identifier absent —
/// bypasses the resolver and the item re-enters the fetched state;
/// otherwise nothing is persisted.
pub fn result_override_decision(v: &mut VideoStatus, result: Option<BrainzMetadata>) -> (save:
    bool)
    ensures
        !(old(v).fetch_status != FetchStatus::NotFetched && old(v).fetch_status
            != FetchStatus::FetchError && old(v).fetch_status != FetchStatus::Disabled) ==> (!save
            && *final(v) == *old(v)),
        (old(v).fetch_status != FetchStatus::NotFetched && old(v).fetch_status
            != FetchStatus::FetchError && old(v).fetch_status != FetchStatus::Disabled) ==> (save
            && final(v).fetch_status == FetchStatus::Fetched && (match result {
            Some(ref m) => final(v).override_result matches Some(c) && c@.title
                == crate::text::spec_trim(m@.title) && c@.artist.len() == m@.artist.len() && (
            forall|k: int|
                0 <= k < m@.artist.len() ==> c@.artist[k] == crate::text::spec_trim(
                    #[trigger] m@.artist[k],
                )) && c@.album == crate::text::spec_norm_opt(m@.album) && c@.brainz_recording_id
                == crate::text::spec_norm_opt(m@.brainz_recording_id),
            None => final(v).override_result is None,
        }) && final(v).video_id == old(v).video_id && final(v).fetch_time == old(v).fetch_time
            && final(v).last_update == old(v).last_update && final(v).last_query == old(v).last_query && final(v).last_result == old(v).last_result && final(v).last_error == old(v).last_error && final(v).override_query == old(v).override_query && final(v).jelly_id
            == old(v).jelly_id),
{
    if !v.is_downloaded() {
        return false;
    }
    let cleaned = match &result {
        Some(m) => {
            let title_chars = crate::text::chars_of(m.title.as_str());
            let trimmed = crate::text::trim_chars(&title_chars);
            let mut artist: Vec<String> = Vec::new();
            for i in 0..m.artist.len()
                invariant
                    artist@.len() == i,
                    forall|k: int|
                        0 <= k < i ==> (#[trigger] artist@[k])@ == crate::text::spec_trim(
                            m.artist@[k]@,
                        ),
            {
                let cs = crate::text::chars_of(m.artist[i].as_str());
                let t = crate::text::trim_chars(&cs);
                artist.push(crate::text::string_from_chars(&t));
            }
            Some(
                BrainzMetadata {
                    brainz_recording_id: norm_opt_string(&m.brainz_recording_id),
                    title: crate::text::string_from_chars(&trimmed),
                    artist,
                    album: norm_opt_string(&m.album),
                },
            )
        },
        None => None,
    };
    v.override_result = cleaned;
    v.fetch_status = FetchStatus::Fetched;
    true
}

/// Every stored playlist's entries have item rows.
pub open spec fn items_covered(s: DbState) -> bool {
    forall|p: int, k: int|
        0 <= p < s.playlists@.len() && 0 <= k < s.playlists@[p].items@.len() ==> video_idx(
            s.videos@,
            (#[trigger] s.playlists@[p].items@[k]).video_id@,
            0,
        ) is Some
}

/// An item row, once present, stays present when rows are only appended or
/// replaced key for key.
proof fn lemma_video_idx_stable(pre: Seq<VideoStatus>, post: Seq<VideoStatus>, id: Seq<char>)
    requires
        pre.len() <= post.len(),
        forall|k: int| 0 <= k < pre.len() ==> (#[trigger] post[k]).video_id@ == pre[k].video_id@,
        video_idx(pre, id, 0) is Some,
    ensures
        video_idx(post, id, 0) is Some,
{
    lemma_video_idx_found(pre, id, 0);
    let i = choose|i: int| 0 <= i < pre.len() && pre[i].video_id@ == id;
    lemma_video_idx_member(post, id, i);
}

/// A row with the key makes the lookup succeed.
proof fn lemma_video_idx_member(vs: Seq<VideoStatus>, id: Seq<char>, i: int)
    requires
        0 <= i < vs.len(),
        vs[i].video_id@ == id,
    ensures
        video_idx(vs, id, 0) is Some,
    decreases i,
{
    lemma_video_idx_member_from(vs, id, i, 0);
}

proof fn lemma_video_idx_member_from(vs: Seq<VideoStatus>, id: Seq<char>, i: int, from: int)
    requires
        0 <= from <= i < vs.len(),
        vs[i].video_id@ == id,
    ensures
        video_idx(vs, id, from) is Some,
    decreases i - from,
{
    if from < i && !(vs[from].video_id@ == id) {
        lemma_video_idx_member_from(vs, id, i, from + 1);
    }
}

/// A successful lookup names a row with the key.
proof fn lemma_video_idx_found(vs: Seq<VideoStatus>, id: Seq<char>, from: int)
    requires
        0 <= from,
        video_idx(vs, id, from) is Some,
    ensures
        exists|i: int| 0 <= i < vs.len() && (#[trigger] vs[i].video_id@) == id,
    decreases vs.len() - from,
{
    crate::store::lemma_video_idx_bounds(vs, id, from);
    let i = video_idx(vs, id, from).unwrap();
    assert(vs[i].video_id@ == id);
}

/// What a row created by the playlist-sync pass looks like: keyed by the
/// entry, not yet fetched, and with `last_query` carrying the entry's title
/// and artist — no track identifier, no album.
pub open spec fn fresh_item_row(row: VideoStatus, entry: crate::models::PlaylistItem) -> bool {
    &&& row.video_id@ == entry.video_id@
    &&& row.fetch_status == FetchStatus::NotFetched
    &&& match row.last_query {
        Some(q) => q@.trackid is None && q@.title == entry.title@ && q@.artist == Some(
            entry.artist@,
        ) && q@.album is None,
        None => false,
    }
}

/// One playlist-sync pass over a fetched playlist: the playlist is stored
/// atomically, and every entry not yet known as an item gets a fresh row in
/// the not-fetched state whose `last_query` carries the entry's title and
/// artist. Afterwards every entry of every stored playlist has an item row:
/// the pass establishes the coverage invariant for the new playlist and
/// preserves it for the others.
pub fn ingest_playlist(db: &mut DbState, playlist: &Playlist, now: SqlSystemTime)
    requires
        old(db).wf(),
        crate::store::positions_are_indices(*playlist),
        items_covered(*old(db)),
    ensures
        final(db).wf(),
        items_covered(*final(db)),
        forall|k: int|
            0 <= k < playlist.items@.len() ==> video_idx(
                final(db).videos@,
                (#[trigger] playlist.items@[k]).video_id@,
                0,
            ) is Some,
        final(db).videos@.len() >= old(db).videos@.len(),
        forall|k: int|
            0 <= k < old(db).videos@.len() ==> (#[trigger] final(db).videos@[k]) == old(db).videos@[k],
        forall|k: int|
            old(db).videos@.len() <= k < final(db).videos@.len() ==> ((
            #[trigger] final(db).videos@[k]).last_update == Some(now) && (exists|w: int|
                0 <= w < playlist.items@.len() && fresh_item_row(
                    final(db).videos@[k],
                    #[trigger] playlist.items@[w],
                ))),
{
    db.set_playlist(playlist);
    let ghost pi: int = match crate::store::playlist_idx(
        old(db).playlists@,
        playlist.playlist_id@,
        0,
    ) {
        Some(i) => i,
        None => old(db).playlists@.len() as int,
    };
    proof {
        crate::store::lemma_playlist_idx_bounds(old(db).playlists@, playlist.playlist_id@, 0);
        assert(db.playlists@[pi]@ =~~= playlist@);
        assert(db.playlists@[pi]@.items == playlist@.items);
        assert(db.playlists@[pi]@.items.len() == playlist@.items.len());
        assert(db.playlists@[pi].items@.len() == playlist.items@.len());
        assert forall|q: int| 0 <= q < playlist.items@.len() implies (
        #[trigger] db.playlists@[pi].items@[q]).video_id@ == playlist.items@[q].video_id@ by {
            assert(db.playlists@[pi]@.items[q] == playlist@.items[q]);
        }
        assert forall|p: int, q: int|
            0 <= p < db.playlists@.len() && p != pi && 0 <= q
                < db.playlists@[p].items@.len() implies video_idx(
            db.videos@,
            (#[trigger] db.playlists@[p].items@[q]).video_id@,
            0,
        ) is Some by {
            assert(db.playlists@[p] == old(db).playlists@[p]);
            assert(video_idx(
                old(db).videos@,
                old(db).playlists@[p].items@[q].video_id@,
                0,
            ) is Some);
        }
    }
    let n = playlist.items.len();
    for k in 0..n
        invariant
            db.wf(),
            n == playlist.items@.len(),
            0 <= pi < db.playlists@.len(),
            db.playlists@[pi].items@.len() == n,
            forall|q: int|
                0 <= q < n ==> (#[trigger] db.playlists@[pi].items@[q]).video_id@
                    == playlist.items@[q].video_id@,
            forall|p: int, q: int|
                0 <= p < db.playlists@.len() && p != pi && 0 <= q
                    < db.playlists@[p].items@.len() ==> video_idx(
                    db.videos@,
                    (#[trigger] db.playlists@[p].items@[q]).video_id@,
                    0,
                ) is Some,
            forall|w: int|
                0 <= w < k ==> video_idx(
                    db.videos@,
                    (#[trigger] playlist.items@[w]).video_id@,
                    0,
                ) is Some,
            db.videos@.len() >= old(db).videos@.len(),
            forall|w: int|
                0 <= w < old(db).videos@.len() ==> (#[trigger] db.videos@[w]) == old(db).videos@[w],
            forall|w: int|
                old(db).videos@.len() <= w < db.videos@.len() ==> ((
                #[trigger] db.videos@[w]).last_update == Some(now) && (exists|v: int|
                    0 <= v < playlist.items@.len() && fresh_item_row(
                        db.videos@[w],
                        #[trigger] playlist.items@[v],
                    ))),
    {
        let ghost pre = db.videos@;
        let item = &playlist.items[k];
        match db.get_video(item.video_id.as_str()) {
            Some(_) => {},
            None => {
                let mut status = VideoStatus::new(item.video_id.clone());
                status.last_query = Some(
                    BrainzMultiSearch {
                        trackid: None,
                        title: item.title.clone(),
                        artist: Some(item.artist.clone()),
                        album: None,
                    },
                );
                status.update_at(now);
                db.set_full_track_status(&status);
                proof {
                    assert(db.videos@.len() == pre.len() + 1);
                    assert(db.videos@.last().video_id@ == item.video_id@);
                    assert(db.videos@.last()@ =~~= status@);
                    assert(fresh_item_row(db.videos@.last(), playlist.items@[k as int]));
                    lemma_video_idx_member(db.videos@, item.video_id@, pre.len() as int);
                    assert forall|p: int, q: int|
                        0 <= p < db.playlists@.len() && p != pi && 0 <= q
                            < db.playlists@[p].items@.len() implies video_idx(
                        db.videos@,
                        (#[trigger] db.playlists@[p].items@[q]).video_id@,
                        0,
                    ) is Some by {
                        lemma_video_idx_stable(
                            pre,
                            db.videos@,
                            db.playlists@[p].items@[q].video_id@,
                        );
                    }
                    assert forall|w: int| 0 <= w < k + 1 implies video_idx(
                        db.videos@,
                        (#[trigger] playlist.items@[w]).video_id@,
                        0,
                    ) is Some by {
                        if w < k {
                            lemma_video_idx_stable(pre, db.videos@, playlist.items@[w].video_id@);
                        }
                    }
                }
            },
        }
    }
    proof {
        assert forall|p: int, q: int|
            0 <= p < db.playlists@.len() && 0 <= q < db.playlists@[p].items@.len() implies video_idx(
            db.videos@,
            (#[trigger] db.playlists@[p].items@[q]).video_id@,
            0,
        ) is Some by {
            if p == pi {
                assert(db.playlists@[p].items@[q].video_id@ == playlist.items@[q].video_id@);
            }
        }
    }
}

} // verus!
