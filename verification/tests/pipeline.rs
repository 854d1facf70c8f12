//! Tests of the resolver planning, the tagger state machine, the playlist
//! sync, the tag model and the library manager.

use myousync::brainz::{
    build_recording_query, derive_candidates, metadata_from_recordings, percent_encode,
    plan_resolution, recording_url, rid_query, split_artists, BrainzError, BrainzMetadata,
    BrainzMultiSearch, ParsedRecording, QTerm, RecordingSearch, ResolvePlan,
};
use myousync::jellyfin::{auth_header_params, build_auth_header, rewrite_path};
use myousync::models::{FetchStatus, JellyStatus, Playlist, PlaylistConfig, PlaylistItem, VideoStatus};
use myousync::musicfiles::{
    check_file, cleanup_candidates, delete_file_allowed, finish_categorize, library_destination,
    operator_delete, sanitize_default, FileCache, LibraryModel, MetadataTags, MsPaths,
};
use myousync::scheduler::{
    apply_fetch_error, apply_fetch_success, ingest_playlist, resolver_input,
    result_override_decision, retry_fetch_decision, tagger_step, ResolveSource, TaggerStep,
};
use myousync::store::DbState;
use myousync::models::AuthData;
use myousync::tags::{
    apply_metadata, format_from_extension, format_timestamp, parse_timestamp, Album, AudioTag,
    Picture, TagError, TagFormat, Timestamp,
};
use myousync::text::norm_string;
use myousync::time::{from_timestamp, SqlSystemTime};
use myousync::yt_api::{
    auth_plan, drain_to, etag_shortcut_applies, poll_decision, token_to_auth, AuthPlan, PageInfo,
    PollNext, YtPlaylistItem, YtPlaylistItemsResponse, YtResourceId, YtSnippet,
};
use myousync::ytdlp::{derive_query, local_file_pattern, ytdlp_args, YtDlpResponse};

fn p(parts: &[&str]) -> Vec<String> {
    parts.iter().map(|s| s.to_string()).collect()
}

fn meta(title: &str, artist: &[&str], album: Option<&str>, rid: Option<&str>) -> BrainzMetadata {
    BrainzMetadata {
        brainz_recording_id: rid.map(|s| s.to_string()),
        title: title.to_string(),
        artist: artist.iter().map(|s| s.to_string()).collect(),
        album: album.map(|s| s.to_string()),
    }
}

#[test]
fn nightcore_title_short_circuits() {
    let query = BrainzMultiSearch {
        trackid: None,
        title: "Some Song [Nightcore Remix]".to_string(),
        artist: Some("NightcoreWorld".to_string()),
        album: None,
    };
    match plan_resolution(&query) {
        ResolvePlan::Ready(m) => {
            assert_eq!(m.title, "Some Song [Nightcore Remix]");
            assert_eq!(m.artist, vec!["Nightcore".to_string()]);
            assert_eq!(m.album, Some("Nightcore".to_string()));
            assert_eq!(m.brainz_recording_id, None);
        },
        _ => panic!("expected the nightcore short-circuit"),
    }
}

#[test]
fn hyphen_title_splits_into_candidates() {
    let query = BrainzMultiSearch {
        trackid: None,
        title: "Artist A ft. Artist B - Track Name".to_string(),
        artist: None,
        album: None,
    };
    let cands = derive_candidates(&query);
    assert_eq!(cands.len(), 2);
    match &cands[0].title {
        QTerm::Exact(t) => assert_eq!(t, "Track Name"),
        _ => panic!("expected exact title"),
    }
    let artists: Vec<String> = cands[0]
        .artist
        .iter()
        .map(|q| q.get_text().unwrap().to_string())
        .collect();
    assert_eq!(artists, vec!["Artist A".to_string(), "Artist B".to_string()]);
    match &cands[1].title {
        QTerm::Exact(t) => assert_eq!(t, "Artist A ft. Artist B"),
        _ => panic!("expected exact title"),
    }
}

#[test]
fn trackid_resolves_by_id() {
    let query = BrainzMultiSearch {
        trackid: Some("abc-123".to_string()),
        title: "ignored".to_string(),
        artist: None,
        album: None,
    };
    match plan_resolution(&query) {
        ResolvePlan::ById(id) => assert_eq!(id, "abc-123"),
        _ => panic!("expected lookup by identifier"),
    }
    assert_eq!(rid_query("abc-123"), "rid:abc-123");
}

#[test]
fn split_artists_cases() {
    assert_eq!(split_artists("A ft. B"), vec!["A".to_string(), "B".to_string()]);
    assert_eq!(split_artists("A feat B & C"), vec!["A", "B", "C"]);
    assert_eq!(split_artists("A; B"), vec!["A", "B"]);
    assert_eq!(split_artists("(A) [B]"), vec!["A B"]);
    // No separator inside a word: `craft` stays whole.
    assert_eq!(split_artists("craft"), vec!["craft"]);
    assert_eq!(split_artists("loft. B"), vec!["loft. B"]);
}

#[test]
fn query_built_from_terms() {
    let search = RecordingSearch {
        title: QTerm::Exact("Song A".to_string()),
        artist: vec![QTerm::Exact("Ann".to_string())],
        album: QTerm::Empty,
    };
    let q = build_recording_query(&search).expect("query expected");
    assert_eq!(q, "recording:\"Song%20A\" AND artist:\"Ann\"");
    assert_eq!(
        recording_url(&q),
        "http://musicbrainz.org/ws/2/recording/?limit=3&query=recording:\"Song%20A\" AND artist:\"Ann\""
    );
    let empty = RecordingSearch { title: QTerm::Empty, artist: vec![], album: QTerm::Empty };
    assert!(matches!(build_recording_query(&empty), Err(BrainzError::EmptyQuery)));
    assert_eq!(percent_encode("a b&c"), "a%20b%26c");
}

#[test]
fn first_recording_wins() {
    let recs = vec![
        ParsedRecording {
            id: "r1".to_string(),
            title: "T1".to_string(),
            artist_names: vec!["A1".to_string()],
            release_titles: vec!["Alb1".to_string(), "Alb2".to_string()],
        },
        ParsedRecording {
            id: "r2".to_string(),
            title: "T2".to_string(),
            artist_names: vec![],
            release_titles: vec![],
        },
    ];
    let m = metadata_from_recordings(recs).expect("first recording");
    assert_eq!(m.brainz_recording_id, Some("r1".to_string()));
    assert_eq!(m.title, "T1");
    assert_eq!(m.album, Some("Alb1".to_string()));
    assert!(matches!(metadata_from_recordings(vec![]), Err(BrainzError::EmptyResult)));
}

#[test]
fn tagger_steps_by_state() {
    let mut v = VideoStatus::new("x".to_string());
    assert!(matches!(tagger_step(&v), TaggerStep::Acquire));
    v.fetch_status = FetchStatus::Fetched;
    assert!(matches!(tagger_step(&v), TaggerStep::UseCachedMetadata));
    v.fetch_status = FetchStatus::Categorized;
    assert!(matches!(tagger_step(&v), TaggerStep::Skip));
    v.fetch_status = FetchStatus::Disabled;
    assert!(matches!(tagger_step(&v), TaggerStep::Skip));
}

#[test]
fn fetch_transitions() {
    let mut v = VideoStatus::new("x".to_string());
    apply_fetch_success(&mut v, from_timestamp(5), from_timestamp(6));
    assert!(matches!(v.fetch_status, FetchStatus::Fetched));
    assert_eq!(v.fetch_time.unwrap().secs, 5);
    assert_eq!(v.last_update.unwrap().secs, 6);
    let mut w = VideoStatus::new("y".to_string());
    apply_fetch_error(&mut w, "boom".to_string(), from_timestamp(7));
    assert!(matches!(w.fetch_status, FetchStatus::FetchError));
    assert_eq!(w.last_error, Some("boom".to_string()));
}

#[test]
fn overrides_determine_resolver_input_and_output() {
    let dlp = YtDlpResponse {
        id: "v".to_string(),
        title: "Video Title".to_string(),
        channel: "Chan".to_string(),
        duration: 10,
        album: Some("Alb".to_string()),
        artist: Some("Art".to_string()),
        track: Some("Track Name".to_string()),
    };
    // An operator result override bypasses the resolver outright.
    let forced = meta("New", &["X"], None, None);
    match resolver_input(&Some(forced), &None, &dlp) {
        ResolveSource::Overridden(m) => assert_eq!(m.title, "New"),
        _ => panic!("expected the override to win"),
    }
    // An operator query override replaces the derived query, unrecorded.
    let oq = BrainzMultiSearch {
        trackid: None,
        title: "Custom".to_string(),
        artist: None,
        album: None,
    };
    match resolver_input(&None, &Some(oq), &dlp) {
        ResolveSource::Query(q, record) => {
            assert_eq!(q.title, "Custom");
            assert!(!record);
        },
        _ => panic!("expected the query override"),
    }
    // Without overrides the query derives from the extractor metadata.
    match resolver_input(&None, &None, &dlp) {
        ResolveSource::Query(q, record) => {
            assert_eq!(q.title, "Track Name");
            assert_eq!(q.artist, Some("Art".to_string()));
            assert_eq!(q.album, Some("Alb".to_string()));
            assert_eq!(q.trackid, None);
            assert!(record);
        },
        _ => panic!("expected the derived query"),
    }
    let d = derive_query(&dlp);
    assert_eq!(d.title, "Track Name");
}

#[test]
fn operator_override_reenters_categorized_item() {
    let mut v = VideoStatus::new("x".to_string());
    v.fetch_status = FetchStatus::Categorized;
    let forced = meta("  New  ", &[" X "], Some("  "), None);
    let save = result_override_decision(&mut v, Some(forced));
    assert!(save);
    assert!(matches!(v.fetch_status, FetchStatus::Fetched));
    let stored = v.override_result.as_ref().expect("override stored");
    assert_eq!(stored.title, "New");
    assert_eq!(stored.artist, vec!["X".to_string()]);
    assert_eq!(stored.album, None);
    // Retry is refused while the audio is already there.
    assert!(!retry_fetch_decision(&mut v));
    v.fetch_status = FetchStatus::FetchError;
    assert!(retry_fetch_decision(&mut v));
    assert!(matches!(v.fetch_status, FetchStatus::NotFetched));
}

#[test]
fn norm_string_trims_and_drops_empty() {
    assert_eq!(norm_string(Some("  x  ")), Some("x".to_string()));
    assert_eq!(norm_string(Some("   ")), None);
    assert_eq!(norm_string(None), None);
}

#[test]
fn playlist_sync_creates_item_rows() {
    let mut db = DbState::new_at(":memory:");
    let mut existing = VideoStatus::new("v1".to_string());
    existing.fetch_status = FetchStatus::Categorized;
    db.set_full_track_status(&existing);
    let playlist = Playlist {
        playlist_id: "pl".to_string(),
        etag: "e1".to_string(),
        total_results: 2,
        fetch_time: from_timestamp(50),
        items: vec![
            PlaylistItem {
                video_id: "v1".to_string(),
                title: "T1".to_string(),
                artist: "A1".to_string(),
                position: 0,
                jelly_status: JellyStatus::NotSynced,
            },
            PlaylistItem {
                video_id: "v2".to_string(),
                title: "T2".to_string(),
                artist: "A2".to_string(),
                position: 1,
                jelly_status: JellyStatus::NotSynced,
            },
        ],
    };
    ingest_playlist(&mut db, &playlist, from_timestamp(60));
    // Every playlist entry has an item row; the known one is untouched.
    let v1 = db.get_video("v1").expect("v1 missing");
    assert!(matches!(v1.fetch_status, FetchStatus::Categorized));
    let v2 = db.get_video("v2").expect("v2 missing");
    assert!(matches!(v2.fetch_status, FetchStatus::NotFetched));
    let q = v2.last_query.expect("query recorded");
    assert_eq!(q.title, "T2");
    assert_eq!(q.artist, Some("A2".to_string()));
    assert_eq!(q.album, None);
    // The stored playlist is the new row set.
    let stored = db.try_get_playlist("pl").expect("playlist missing");
    assert_eq!(stored.items.len(), 2);
    assert_eq!(stored.etag, "e1");
}

#[test]
fn playlist_replacement_is_one_step() {
    let mut db = DbState::new_at(":memory:");
    let first = Playlist {
        playlist_id: "pl".to_string(),
        etag: "e1".to_string(),
        total_results: 1,
        fetch_time: from_timestamp(1),
        items: vec![PlaylistItem {
            video_id: "a".to_string(),
            title: "A".to_string(),
            artist: "AA".to_string(),
            position: 0,
            jelly_status: JellyStatus::NotSynced,
        }],
    };
    db.set_playlist(&first);
    let second = Playlist {
        playlist_id: "pl".to_string(),
        etag: "e2".to_string(),
        total_results: 1,
        fetch_time: from_timestamp(2),
        items: vec![PlaylistItem {
            video_id: "b".to_string(),
            title: "B".to_string(),
            artist: "BB".to_string(),
            position: 0,
            jelly_status: JellyStatus::NotSynced,
        }],
    };
    db.set_playlist(&second);
    let got = db.try_get_playlist("pl").expect("playlist missing");
    // The old rows are gone and the new ones are there: no mixture.
    assert_eq!(got.etag, "e2");
    assert_eq!(got.items.len(), 1);
    assert_eq!(got.items[0].video_id, "b");
}

#[test]
fn etag_shortcut_skips_pagination() {
    let cached = Playlist {
        playlist_id: "pl".to_string(),
        etag: "e1".to_string(),
        total_results: 1,
        fetch_time: from_timestamp(1),
        items: vec![PlaylistItem {
            video_id: "a".to_string(),
            title: "A".to_string(),
            artist: "AA".to_string(),
            position: 0,
            jelly_status: JellyStatus::NotSynced,
        }],
    };
    let page = PageInfo { total_results: 1, results_per_page: 50 };
    assert!(etag_shortcut_applies(&cached, "e1", &page));
    assert!(!etag_shortcut_applies(&cached, "e2", &page));
    let more = PageInfo { total_results: 2, results_per_page: 50 };
    assert!(!etag_shortcut_applies(&cached, "e1", &more));
}

#[test]
fn drain_to_strips_topic_suffix_and_numbers_positions() {
    let mut items: Vec<PlaylistItem> = Vec::new();
    let response = YtPlaylistItemsResponse {
        etag: "e".to_string(),
        next_page_token: None,
        page_info: PageInfo { total_results: 2, results_per_page: 50 },
        items: vec![
            YtPlaylistItem {
                snippet: YtSnippet {
                    title: "Song One".to_string(),
                    channel_title: "Chan".to_string(),
                    video_owner_channel_title: Some("Ann - Topic".to_string()),
                    resource_id: YtResourceId { video_id: "v1".to_string() },
                },
            },
            YtPlaylistItem {
                snippet: YtSnippet {
                    title: "Song Two".to_string(),
                    channel_title: "Chan".to_string(),
                    video_owner_channel_title: None,
                    resource_id: YtResourceId { video_id: "v2".to_string() },
                },
            },
        ],
    };
    drain_to(&mut items, response);
    assert_eq!(items.len(), 2);
    assert_eq!(items[0].artist, "Ann");
    assert_eq!(items[0].position, 0);
    assert_eq!(items[1].artist, "Chan");
    assert_eq!(items[1].position, 1);
}

#[test]
fn auth_plan_and_poll_decisions() {
    let stored = AuthData {
        access_token: "at".to_string(),
        refresh_token: "rt".to_string(),
        expires_at: from_timestamp(100),
    };
    match auth_plan(Some(stored.clone()), from_timestamp(50)) {
        AuthPlan::UseStored(a) => assert_eq!(a.access_token, "at"),
        _ => panic!("expected stored tokens"),
    }
    match auth_plan(Some(stored), from_timestamp(100)) {
        AuthPlan::Refresh(t) => assert_eq!(t, "rt"),
        _ => panic!("expected a refresh"),
    }
    assert!(matches!(auth_plan(None, from_timestamp(0)), AuthPlan::StartDeviceFlow));
    assert!(matches!(poll_decision("authorization_pending"), PollNext::KeepWaiting));
    assert!(matches!(poll_decision("slow_down"), PollNext::SlowDown));
    assert!(matches!(poll_decision("expired_token"), PollNext::Expired));
    assert!(matches!(poll_decision("access_denied"), PollNext::Denied));
    let ok = token_to_auth("at".to_string(), 3600, Some("rt".to_string()), from_timestamp(10))
        .expect("tokens");
    assert_eq!(ok.expires_at.secs, 3610);
    assert!(token_to_auth("at".to_string(), 1, None, from_timestamp(10)).is_err());
}

#[test]
fn extractor_invocation_is_fixed() {
    let args = ytdlp_args("vid123");
    assert_eq!(args.len(), 14);
    assert_eq!(args[0], "--quiet");
    assert_eq!(args[6], "ba");
    assert_eq!(args[13], "https://www.youtube.com/watch?v=vid123");
    assert_eq!(local_file_pattern("vid123"), "vid123.*");
}

#[test]
fn format_dispatch_and_errors() {
    assert!(matches!(format_from_extension("mp3"), Ok(TagFormat::Id3)));
    assert!(matches!(format_from_extension("wav"), Ok(TagFormat::Id3)));
    assert!(matches!(format_from_extension("flac"), Ok(TagFormat::VorbisFlac)));
    assert!(matches!(format_from_extension("m4a"), Ok(TagFormat::Mp4)));
    assert!(matches!(format_from_extension("opus"), Ok(TagFormat::Opus)));
    assert!(matches!(format_from_extension("ogg"), Ok(TagFormat::Ogg)));
    assert!(matches!(
        format_from_extension("txt"),
        Err(TagError::UnsupportedAudioFormat)
    ));
}

#[test]
fn date_text_round_trips() {
    let t = Timestamp { year: 2021, month: Some(6), day: Some(9) };
    let s = format_timestamp(&t);
    assert_eq!(s, "2021-06-09");
    assert_eq!(parse_timestamp(&s), Some(t));
    let partial = Timestamp { year: 1999, month: None, day: None };
    assert_eq!(format_timestamp(&partial), "1999-00-00");
    assert_eq!(parse_timestamp("1999-00-00"), Some(partial));
    assert_eq!(parse_timestamp("1999"), Some(partial));
    assert_eq!(parse_timestamp("not a date"), None);
}

#[test]
fn tag_round_trip_semantic_subset() {
    let formats = [
        TagFormat::Id3,
        TagFormat::VorbisFlac,
        TagFormat::Mp4,
        TagFormat::Opus,
        TagFormat::Ogg,
    ];
    for format in formats {
        let mut tag = AudioTag::new_empty(format);
        let rid = if matches!(format, TagFormat::Ogg) { None } else { Some("mbid-1") };
        let tags = MetadataTags {
            youtube_id: "vid42".to_string(),
            brainz: meta("Title X", &["Ann", "Bob"], Some("Album Y"), rid),
        };
        apply_metadata(&mut tag, &tags).expect("rewrite failed");
        assert_eq!(tag.title().unwrap(), "Title X");
        assert_eq!(tag.artist().unwrap(), "Ann; Bob");
        let album = tag.get_album_info().expect("album missing");
        assert_eq!(album.title, Some("Album Y".to_string()));
        assert_eq!(album.artist, Some("Ann; Bob".to_string()));
        assert_eq!(tag.get_comment("youtube_id"), Some("vid42".to_string()));
        match format {
            TagFormat::Id3 => {
                assert_eq!(tag.get_comment("http://musicbrainz.org"), Some("mbid-1".to_string()))
            },
            TagFormat::VorbisFlac => {
                assert_eq!(tag.get_comment("MUSICBRAINZ_TRACKID"), Some("mbid-1".to_string()))
            },
            TagFormat::Mp4 => {
                assert_eq!(tag.get_comment("MusicBrainz Track Id"), Some("mbid-1".to_string()))
            },
            TagFormat::Opus => {
                assert_eq!(tag.get_comment("musicbrainz_trackid"), Some("mbid-1".to_string()))
            },
            TagFormat::Ogg => {},
        }
        // Dates round-trip through the model as they stand.
        let d = Timestamp { year: 2020, month: Some(1), day: None };
        tag.set_date(d);
        assert_eq!(tag.date(), Some(d));
        assert!(check_file(Some(&tag), "vid42"));
        assert!(!check_file(Some(&tag), "other"));
    }
}

#[test]
fn copy_to_projects_the_common_subset() {
    let mut source = AudioTag::new_empty(TagFormat::VorbisFlac);
    source.set_title("Title X");
    source.set_artist("Ann; Bob");
    source.set_date(Timestamp { year: 2020, month: Some(5), day: None });
    let album = Album {
        title: Some("Alb".to_string()),
        artist: Some("Ann; Bob".to_string()),
        cover: Some(Picture { mime_type: "image/png".to_string(), data: vec![7] }),
    };
    source.set_album_info(album).expect("album set failed");
    let mut target = AudioTag::new_empty(TagFormat::Mp4);
    target.set_comment("youtube_id", "kept".to_string());
    source.copy_to(&mut target).expect("projection failed");
    assert_eq!(target.title().unwrap(), "Title X");
    assert_eq!(target.artist().unwrap(), "Ann; Bob");
    assert_eq!(target.date(), Some(Timestamp { year: 2020, month: Some(5), day: None }));
    let projected = target.get_album_info().expect("album missing");
    assert_eq!(projected.title, Some("Alb".to_string()));
    assert_eq!(projected.artist, Some("Ann; Bob".to_string()));
    assert_eq!(projected.cover.map(|p| p.mime_type), Some("image/png".to_string()));
    // The target's own comments are untouched by the projection.
    assert_eq!(target.get_comment("youtube_id"), Some("kept".to_string()));
    // A source whose cover has an unsupported mime type is refused whole.
    let mut bad = AudioTag::new_empty(TagFormat::Id3);
    bad.cover = Some(Picture { mime_type: "image/gif".to_string(), data: vec![1] });
    bad.set_title("ignored");
    let mut untouched = AudioTag::new_empty(TagFormat::Opus);
    assert!(matches!(bad.copy_to(&mut untouched), Err(TagError::InvalidImageFormat)));
    assert_eq!(untouched.title(), None);
}

#[test]
fn remove_comment_with_value_filter() {
    let mut tag = AudioTag::new_empty(TagFormat::Id3);
    tag.add_comment("k", "a".to_string());
    tag.add_comment("k", "b".to_string());
    tag.add_comment("k", "a".to_string());
    // The filter removes exactly the matching values and keeps the rest.
    tag.remove_comment("k", Some("a"));
    assert_eq!(tag.get_comment("k"), Some("b".to_string()));
    // Removing the last value drops the entry.
    tag.remove_comment("k", Some("b"));
    assert_eq!(tag.get_comment("k"), None);
    // A filter that matches nothing changes nothing.
    tag.add_comment("k", "c".to_string());
    tag.remove_comment("k", Some("zzz"));
    assert_eq!(tag.get_comment("k"), Some("c".to_string()));
}

#[test]
fn vorbis_comment_keys_uppercase() {
    let mut tag = AudioTag::new_empty(TagFormat::VorbisFlac);
    tag.set_comment("youtube_id", "v".to_string());
    assert_eq!(tag.get_comment("YOUTUBE_ID"), Some("v".to_string()));
    let mut id3 = AudioTag::new_empty(TagFormat::Id3);
    id3.set_comment("youtube_id", "v".to_string());
    assert_eq!(id3.get_comment("YOUTUBE_ID"), None);
    id3.add_comment("youtube_id", "w".to_string());
    assert_eq!(id3.get_comment("youtube_id"), Some("v".to_string()));
    id3.remove_comment("youtube_id", None);
    assert_eq!(id3.get_comment("youtube_id"), None);
}

#[test]
fn invalid_cover_mime_is_refused() {
    let mut tag = AudioTag::new_empty(TagFormat::Id3);
    let bad = Album {
        title: Some("A".to_string()),
        artist: None,
        cover: Some(Picture { mime_type: "image/gif".to_string(), data: vec![1, 2] }),
    };
    assert!(matches!(tag.set_album_info(bad), Err(TagError::InvalidImageFormat)));
    let good = Album {
        title: Some("A".to_string()),
        artist: None,
        cover: Some(Picture { mime_type: "image/png".to_string(), data: vec![1, 2] }),
    };
    assert!(tag.set_album_info(good).is_ok());
}

#[test]
fn sanitization_and_destination() {
    let clean = sanitize_default("bad/name: <x>?");
    assert!(!clean.contains('/'));
    assert!(!clean.is_empty());
    assert_eq!(sanitize_default("   "), "song");
    let tags = MetadataTags {
        youtube_id: "v".to_string(),
        brainz: meta("Title", &["Ann"], Some("Alb"), None),
    };
    let dest = library_destination(&p(&["music"]), &tags, "opus");
    assert_eq!(dest, p(&["music", "Ann", "Alb", "Title.opus"]));
    let no_album = MetadataTags {
        youtube_id: "v".to_string(),
        brainz: meta("Title", &["Ann"], None, None),
    };
    let dest2 = library_destination(&p(&["music"]), &no_album, "mp3");
    assert_eq!(dest2, p(&["music", "Ann", "Title", "Title.mp3"]));
}

#[test]
fn cleanup_never_reaches_a_base() {
    let paths = MsPaths { music: p(&["srv", "music"]), temp: p(&["tmp"]), migrate: None };
    let file = p(&["srv", "music", "Ann", "Alb", "song.mp3"]);
    assert!(delete_file_allowed(&paths, &file));
    let dirs = cleanup_candidates(&paths, &file);
    assert_eq!(dirs, vec![p(&["srv", "music", "Ann", "Alb"]), p(&["srv", "music", "Ann"])]);
    for d in &dirs {
        assert!(paths.is_sub_file(d));
        assert_ne!(*d, paths.music);
    }
    // A path outside the bases is refused outright.
    assert!(!delete_file_allowed(&paths, &p(&["etc", "passwd"])));
    assert!(cleanup_candidates(&paths, &p(&["etc", "passwd"])).is_empty());
    // A base itself is never deletable.
    assert!(!delete_file_allowed(&paths, &paths.music.clone()));
}

#[test]
fn categorize_and_delete_keep_one_file_per_item() {
    let mut db = DbState::new_at(":memory:");
    let mut lib = LibraryModel::new();
    let mut v = VideoStatus::new("vid".to_string());
    v.fetch_status = FetchStatus::Fetched;
    db.set_full_track_status(&v);
    let src = p(&["tmp", "vid.opus"]);
    let dest = p(&["music", "Ann", "Alb", "Title.opus"]);
    finish_categorize(&mut db, &mut lib, "vid", &src, &dest, from_timestamp(9));
    let got = db.get_video("vid").unwrap();
    assert!(matches!(got.fetch_status, FetchStatus::Categorized));
    assert_eq!(got.last_error, None);
    assert_eq!(lib.files.len(), 1);
    assert_eq!(lib.files[0].path, dest);
    assert_eq!(lib.files[0].youtube_id, Some("vid".to_string()));
    // The operator delete removes the file and disables the item.
    operator_delete(&mut db, &mut lib, "vid", from_timestamp(10));
    assert_eq!(lib.files.len(), 0);
    let gone = db.get_video("vid").unwrap();
    assert!(matches!(gone.fetch_status, FetchStatus::Disabled));
    assert!(matches!(tagger_step(&gone), TaggerStep::Skip));
}

#[test]
fn file_cache_ops() {
    let mut cache = FileCache::new();
    cache.insert("v1", p(&["music", "a.mp3"]));
    cache.insert("v1", p(&["music", "b.mp3"]));
    assert_eq!(cache.get("v1"), Some(p(&["music", "b.mp3"])));
    assert_eq!(cache.len(), 1);
    cache.remove("v1");
    assert_eq!(cache.get("v1"), None);
    cache.insert("v2", p(&["music", "c.mp3"]));
    cache.clear();
    assert_eq!(cache.len(), 0);
}

#[test]
fn mirror_queries_join_items_and_states() {
    let mut db = DbState::new_at(":memory:");
    let mut cfg = PlaylistConfig::new("pl".to_string());
    cfg.jelly_playlist_id = Some("jpl".to_string());
    db.add_playlist_config(&cfg);
    let playlist = Playlist {
        playlist_id: "pl".to_string(),
        etag: "e".to_string(),
        total_results: 2,
        fetch_time: from_timestamp(0),
        items: vec![
            PlaylistItem {
                video_id: "v1".to_string(),
                title: "T1".to_string(),
                artist: "A".to_string(),
                position: 0,
                jelly_status: JellyStatus::NotSynced,
            },
            PlaylistItem {
                video_id: "v2".to_string(),
                title: "T2".to_string(),
                artist: "A".to_string(),
                position: 1,
                jelly_status: JellyStatus::NotSynced,
            },
        ],
    };
    ingest_playlist(&mut db, &playlist, from_timestamp(1));
    // v1 is categorized with a server identifier; v2 is not finished.
    let mut v1 = db.get_video("v1").unwrap();
    v1.fetch_status = FetchStatus::Categorized;
    db.set_full_track_status(&v1);
    assert!(db.set_jellyfin_id("v1", "jid-1"));
    assert!(!db.set_jellyfin_id("nope", "jid-2"));
    let unsynced = db.get_jellyfin_unsynced(None);
    assert_eq!(unsynced.len(), 1);
    assert_eq!(unsynced[0].video_id, "v1");
    assert_eq!(unsynced[0].jelly_id, Some("jid-1".to_string()));
    let ids = db.get_jellyfin_playlist_item_ids("pl");
    assert_eq!(ids, vec!["jid-1".to_string()]);
    db.set_jellyfin_items_to_synced("pl");
    assert_eq!(db.get_jellyfin_unsynced(None).len(), 0);
}

#[test]
fn auth_header_is_assembled() {
    let params = auth_header_params("myhost", "dev-1", Some("tok"));
    let header = build_auth_header(&params);
    assert_eq!(
        header,
        "MediaBrowser Client=\"myousync\", Device=\"myhost\", Version=\"1.0.0\", DeviceId=\"dev-1\", Token=\"tok\""
    );
    let anon = build_auth_header(&auth_header_params("h", "d", None));
    assert_eq!(anon, "MediaBrowser Client=\"myousync\", Device=\"h\", Version=\"1.0.0\", DeviceId=\"d\"");
}

#[test]
fn path_rewrite_for_the_server() {
    let from = p(&["srv", "music"]);
    let to = p(&["media"]);
    assert_eq!(
        rewrite_path(&from, &to, &p(&["srv", "music", "Ann", "x.mp3"])),
        p(&["media", "Ann", "x.mp3"])
    );
    assert_eq!(rewrite_path(&from, &to, &p(&["other", "x.mp3"])), p(&["other", "x.mp3"]));
}
