//! Tests of the store, the rate limiter, timestamps, text helpers and the
//! command-line parse.

use myousync::auth::{
    check_credentials, claims_for, decode_jwt, encode_jwt, fresh_secret, get_server_secret,
    hash_password, verify_password,
};
use myousync::limiter::Limiter;
use myousync::minicli::{parse_args, CliCommand};
use myousync::models::{AuthData, FetchStatus, UserData, VideoStatus};
use myousync::store::DbState;
use myousync::time::{from_timestamp, to_timestamp, SqlSystemTime};

#[test]
fn test_read_write_kvp() {
    let mut db = DbState::new_at(":memory:");
    db.set_key("hi", "ho");
    let res = db.get_key("hi");
    assert_eq!(res, Some("ho".to_string()));
}

#[test]
fn test_read_write_auth_data() {
    let mut db = DbState::new_at(":memory:");
    let now = SqlSystemTime::now_rounded();

    let data = AuthData {
        access_token: "a".to_string(),
        refresh_token: "b".to_string(),
        expires_at: now,
    };

    db.set_auth(&data);

    let read_data = db.try_get_auth().expect("Auth got missing");
    assert_eq!(data.expires_at.secs, read_data.expires_at.secs);
    assert_eq!(data.expires_at.nanos, read_data.expires_at.nanos);
}

#[test]
fn kvp_overwrite_and_delete() {
    let mut db = DbState::new_at(":memory:");
    db.set_key("k", "v1");
    db.set_key("k", "v2");
    assert_eq!(db.get_key("k"), Some("v2".to_string()));
    assert_eq!(db.delete_key("k"), Some("v2".to_string()));
    assert_eq!(db.get_key("k"), None);
}

#[test]
fn users_add_get_delete() {
    let mut db = DbState::new_at(":memory:");
    db.add_user("ann", "hash-a");
    let u = db.get_user("ann").expect("user missing");
    assert_eq!(u.username, "ann");
    assert_eq!(u.password, "hash-a");
    assert_eq!(db.delete_user("ann"), 1);
    assert_eq!(db.delete_user("ann"), 0);
}

#[test]
fn video_status_lifecycle() {
    let mut db = DbState::new_at(":memory:");
    let mut v = VideoStatus::new("vid1".to_string());
    assert!(matches!(v.fetch_status, FetchStatus::NotFetched));
    assert!(!v.is_downloaded());
    v.fetch_status = FetchStatus::Fetched;
    assert!(v.is_downloaded());
    v.update_at(from_timestamp(100));
    db.set_full_track_status(&v);
    let got = db.get_video("vid1").expect("row missing");
    assert_eq!(got.video_id, "vid1");
    assert!(matches!(got.fetch_status, FetchStatus::Fetched));
    assert_eq!(got.last_update.unwrap().secs, 100);
    assert_eq!(db.get_video("missing").map(|v| v.video_id), None);
}

#[test]
fn last_update_non_decreasing_across_writes() {
    let mut v = VideoStatus::new("vid".to_string());
    v.update_at(from_timestamp(10));
    let first = v.last_update.unwrap();
    v.update_at(from_timestamp(11));
    let second = v.last_update.unwrap();
    assert!(first.secs <= second.secs);
}

#[test]
fn unprocessed_ids_filter() {
    let mut db = DbState::new_at(":memory:");
    let states = [
        ("a", FetchStatus::NotFetched),
        ("b", FetchStatus::Fetched),
        ("c", FetchStatus::FetchError),
        ("d", FetchStatus::BrainzError),
        ("e", FetchStatus::Categorized),
        ("f", FetchStatus::Disabled),
    ];
    for (id, st) in states {
        let mut v = VideoStatus::new(id.to_string());
        v.fetch_status = st;
        db.set_full_track_status(&v);
    }
    assert_eq!(db.get_all_unprocessed_ids(), vec!["a".to_string(), "b".to_string()]);
    assert_eq!(db.get_all_ids().len(), 6);
}

#[test]
fn reindex_puts_categorized_back() {
    let mut db = DbState::new_at(":memory:");
    let mut v = VideoStatus::new("a".to_string());
    v.fetch_status = FetchStatus::Categorized;
    db.set_full_track_status(&v);
    let mut w = VideoStatus::new("b".to_string());
    w.fetch_status = FetchStatus::FetchError;
    db.set_full_track_status(&w);
    db.set_videos_reindex(&vec!["a".to_string(), "b".to_string(), "x".to_string()]);
    assert!(matches!(db.get_video("a").unwrap().fetch_status, FetchStatus::Fetched));
    assert!(matches!(db.get_video("b").unwrap().fetch_status, FetchStatus::FetchError));
}

#[test]
fn fetch_status_codes_round_trip() {
    for code in 0..=5i64 {
        let st = FetchStatus::try_from_code(code).expect("valid code");
        assert_eq!(st.code(), code);
    }
    assert!(FetchStatus::try_from_code(6).is_err());
    assert!(FetchStatus::try_from_code(-1).is_err());
}

#[test]
fn timestamps_round_trip_in_seconds() {
    let t = from_timestamp(12345);
    assert_eq!(to_timestamp(t), 12345);
    let r = SqlSystemTime { secs: 7, nanos: 999 }.round();
    assert_eq!(r.secs, 7);
    assert_eq!(r.nanos, 0);
}

#[test]
fn limiter_first_caller_passes_then_spacing_holds() {
    let mut l = Limiter::new(1500);
    // The first caller resets the allowance and goes at once.
    assert_eq!(l.try_claim_next(1000), None);
    // A second caller inside the window claims the allowance slot.
    let wait1 = l.try_claim_next(1100).expect("should wait");
    assert_eq!(wait1, 1400); // until 2500
    // A third concurrent caller claims the next slot, a full spacing later.
    let wait2 = l.try_claim_next(1100).expect("should wait");
    assert_eq!(wait2, 2900); // until 4000: FIFO, spaced by wait_time
    assert!(wait2 - wait1 >= 1500);
}

#[test]
fn limiter_external_backoff_overrides_claims() {
    let mut l = Limiter::new(1500);
    assert_eq!(l.try_claim_next(1000), None);
    let _ = l.try_claim_next(1100);
    // The remote asked for ten seconds of back-off.
    l.allow_next_fetch_in(2000, 10000);
    assert_eq!(l.next_allowed_time, Some(12000));
    assert_eq!(l.claimed_next_time, None);
    // The next caller inside the window waits out the full back-off.
    let wait = l.try_claim_next(3000).expect("should wait");
    assert_eq!(wait, 9000);
}

#[test]
fn parse_args_commands() {
    let v = |xs: &[&str]| xs.iter().map(|s| s.to_string()).collect::<Vec<String>>();
    assert!(matches!(parse_args(&v(&[])), CliCommand::Start));
    match parse_args(&v(&["run", "conf.toml"])) {
        CliCommand::Run { config_path } => assert_eq!(config_path, "conf.toml"),
        _ => panic!("expected run"),
    }
    assert!(matches!(parse_args(&v(&["run"])), CliCommand::MissingArgument { .. }));
    match parse_args(&v(&["user", "add", "ann", "pw"])) {
        CliCommand::UserAdd { name, password } => {
            assert_eq!(name, "ann");
            assert_eq!(password, "pw");
        },
        _ => panic!("expected user add"),
    }
    assert!(matches!(
        parse_args(&v(&["user", "add", "ann"])),
        CliCommand::MissingArgument { .. }
    ));
    assert!(matches!(
        parse_args(&v(&["user", "add"])),
        CliCommand::MissingArgument { .. }
    ));
    match parse_args(&v(&["user", "remove", "ann"])) {
        CliCommand::UserRemove { name } => assert_eq!(name, "ann"),
        _ => panic!("expected user remove"),
    }
    assert!(matches!(
        parse_args(&v(&["user", "remove"])),
        CliCommand::MissingArgument { .. }
    ));
    match parse_args(&v(&["lists", "add", "pl1", "jf1"])) {
        CliCommand::ListsAdd { playlist_id, jelly_playlist_id } => {
            assert_eq!(playlist_id, "pl1");
            assert_eq!(jelly_playlist_id, Some("jf1".to_string()));
        },
        _ => panic!("expected lists add"),
    }
    match parse_args(&v(&["lists", "add", "pl1"])) {
        CliCommand::ListsAdd { jelly_playlist_id, .. } => assert_eq!(jelly_playlist_id, None),
        _ => panic!("expected lists add"),
    }
    assert!(matches!(parse_args(&v(&["lists", "list"])), CliCommand::ListsList));
    assert!(matches!(parse_args(&v(&["bogus"])), CliCommand::Invalid));
}

#[test]
fn passwords_hash_and_verify() {
    let hash = hash_password("hunter2");
    assert!(!hash.is_empty());
    assert!(verify_password(&hash, "hunter2"));
    assert!(!verify_password(&hash, "hunter3"));
    assert!(!verify_password("not a hash", "hunter2"));
}

#[test]
fn sign_in_decision_rejects_and_accepts() {
    let hash = hash_password("pw");
    let user = UserData { username: "ann".to_string(), password: hash };
    assert_eq!(check_credentials(Some(user.clone()), "pw").unwrap(), "ann");
    let denied = check_credentials(Some(user), "wrong").unwrap_err();
    assert_eq!(denied.status_code, 401);
    let unknown = check_credentials(None, "pw").unwrap_err();
    assert_eq!(unknown.status_code, 401);
}

#[test]
fn session_tokens_round_trip() {
    let claims = claims_for("ann".to_string(), 1700000000);
    assert_eq!(claims.iat, 1700000000);
    assert_eq!(claims.exp, 1700000000 + 86400);
    let token = encode_jwt("secret-key", &claims).expect("encode failed");
    // Validation checks expiry against the clock; these claims are far past,
    // so decoding fails, while tokens minted from the clock decode.
    let now = std::time::SystemTime::now()
        .duration_since(std::time::SystemTime::UNIX_EPOCH)
        .unwrap()
        .as_secs();
    let live = claims_for("bob".to_string(), now);
    let live_token = encode_jwt("secret-key", &live).expect("encode failed");
    let decoded = decode_jwt("secret-key", &live_token).expect("decode failed");
    assert_eq!(decoded.user, "bob");
    assert_eq!(decoded.iat, live.iat);
    assert_eq!(decoded.exp, live.exp);
    assert!(decode_jwt("other-key", &live_token).is_err());
    let _ = token;
}

#[test]
fn server_secret_created_once() {
    let mut db = DbState::new_at(":memory:");
    let s1 = get_server_secret(&mut db);
    assert_eq!(s1.chars().count(), 16);
    let s2 = get_server_secret(&mut db);
    assert_eq!(s1, s2);
    let fresh = fresh_secret();
    assert_eq!(fresh.chars().count(), 16);
}
