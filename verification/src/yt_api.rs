//! The playlist provider's API, reduced to decisions and plain values: page
//! responses, the cache shortcuts that avoid refetching, and the device-code
//! authorization state machine. The HTTP calls themselves happen outside and
//! feed their responses back in.

use vstd::prelude::*;
use crate::brainz::{percent_encode, spec_percent_encode};
use crate::models::{AuthData, JellyStatus, Playlist, PlaylistItem};
use crate::text;
use crate::time::SqlSystemTime;

verus! {

/// A failure of the provider adapter.
#[derive(Debug, Clone)]
pub enum YTError {
    /// The transport failed; the message is the transport's.
    ConnectionError(String),
    /// The device authorization ran past its overall deadline.
    AuthTimeExceeded,
    /// The user rejected the device authorization.
    AuthRejected,
    /// A token response carried no refresh token.
    MissingRefreshToken,
    /// Reading or writing failed; the message is the system's.
    IOError(String),
    /// A response was not valid text.
    JsonEncodingErr(String),
    /// A response could not be parsed; the message is the parser's.
    JsonDeserializationErr(String),
    /// Anything else.
    Unknown,
}

/// One page of a playlist-items response, reduced to plain values.
#[derive(Debug, Clone)]
pub struct YtPlaylistItemsResponse {
    pub etag: String,
    pub next_page_token: Option<String>,
    pub page_info: PageInfo,
    pub items: Vec<YtPlaylistItem>,
}

/// One entry of a page.
#[derive(Debug, Clone)]
pub struct YtPlaylistItem {
    pub snippet: YtSnippet,
}

/// The snippet of one entry.
#[derive(Debug, Clone)]
pub struct YtSnippet {
    pub title: String,
    pub channel_title: String,
    pub video_owner_channel_title: Option<String>,
    pub resource_id: YtResourceId,
}

/// The resource identifier of one entry.
#[derive(Debug, Clone)]
pub struct YtResourceId {
    pub video_id: String,
}

/// The paging header of a response.
#[derive(Debug, Clone, Copy, PartialEq, Eq, Structural)]
pub struct PageInfo {
    pub total_results: u32,
    pub results_per_page: u32,
}

/// The artist credited for one entry: the owner channel's title with a
/// ` - Topic` suffix stripped, or else the channel title.
pub open spec fn spec_entry_artist(s: YtSnippet) -> Seq<char> {
    match s.video_owner_channel_title {
        Some(owner) => {
            let o = owner@;
            if o.len() >= 8 && o.subrange(o.len() - 8, o.len() as int) == " - Topic"@ {
                o.take(o.len() - 8)
            } else {
                o
            }
        },
        None => s.channel_title@,
    }
}

/// Appends one response page to a playlist's entries: each entry keeps its
/// order, its position continuing the count, its artist taken from the
/// owner channel with the ` - Topic` suffix stripped, and its mirror state
/// fresh.
pub fn drain_to(items: &mut Vec<PlaylistItem>, response: YtPlaylistItemsResponse)
    requires
        old(items)@.len() + response.items@.len() <= u32::MAX,
        forall|k: int| 0 <= k < old(items)@.len() ==> (#[trigger] old(items)@[k]).position == k,
    ensures
        final(items)@.len() == old(items)@.len() + response.items@.len(),
        forall|k: int|
            0 <= k < old(items)@.len() ==> (#[trigger] final(items)@[k]) == old(items)@[k],
        forall|k: int|
            old(items)@.len() <= k < final(items)@.len() ==> {
                let e = response.items@[k - old(items)@.len()];
                &&& (#[trigger] final(items)@[k]).video_id@ == e.snippet.resource_id.video_id@
                &&& final(items)@[k].title@ == e.snippet.title@
                &&& final(items)@[k].artist@ == spec_entry_artist(e.snippet)
                &&& final(items)@[k].position == k
                &&& final(items)@[k].jelly_status == JellyStatus::NotSynced
            },
        forall|k: int| 0 <= k < final(items)@.len() ==> (#[trigger] final(items)@[k]).position == k,
{
    let mut response = response;
    let n = response.items.len();
    let ghost resp = response.items@;
    let mut i: usize = 0;
    while i < n
        invariant
            i <= n,
            n == resp.len(),
            response.items@.len() == n,
            forall|j: int| i <= j < n ==> (#[trigger] response.items@[j]) == resp[j],
            items@.len() == old(items)@.len() + i,
            old(items)@.len() + n <= u32::MAX,
            forall|k: int|
                0 <= k < old(items)@.len() ==> (#[trigger] items@[k]) == old(items)@[k],
            forall|k: int| 0 <= k < old(items)@.len() ==> (#[trigger] items@[k]).position == k,
            forall|k: int|
                old(items)@.len() <= k < items@.len() ==> {
                    let e = resp[k - old(items)@.len()];
                    &&& (#[trigger] items@[k]).video_id@ == e.snippet.resource_id.video_id@
                    &&& items@[k].title@ == e.snippet.title@
                    &&& items@[k].artist@ == spec_entry_artist(e.snippet)
                    &&& items@[k].position == k
                    &&& items@[k].jelly_status == JellyStatus::NotSynced
                },
        decreases n - i,
    {
        let mut entry = YtPlaylistItem {
            snippet: YtSnippet {
                title: String::new(),
                channel_title: String::new(),
                video_owner_channel_title: None,
                resource_id: YtResourceId { video_id: String::new() },
            },
        };
        std::mem::swap(&mut entry, &mut response.items[i]);
        let ghost snip = entry.snippet;
        let artist = match entry.snippet.video_owner_channel_title {
            Some(owner) => strip_topic_suffix(owner),
            None => entry.snippet.channel_title,
        };
        let position = items.len();
        items.push(
            PlaylistItem {
                video_id: entry.snippet.resource_id.video_id,
                title: entry.snippet.title,
                artist,
                position: position as u32,
                jelly_status: JellyStatus::NotSynced,
            },
        );
        proof {
            assert(items@.last().artist@ == spec_entry_artist(snip));
        }
        i = i + 1;
    }
}

/// The owner channel title with a trailing ` - Topic` stripped, if present.
fn strip_topic_suffix(owner: String) -> (r: String)
    ensures
        ({
            let o = owner@;
            if o.len() >= 8 && o.subrange(o.len() - 8, o.len() as int) == " - Topic"@ {
                r@ == o.take(o.len() - 8)
            } else {
                r@ == o
            }
        }),
{
    let chars = text::chars_of(owner.as_str());
    let n = chars.len();
    let suffix = text::chars_of(" - Topic");
    proof {
        reveal_strlit(" - Topic");
    }
    if n >= 8 {
        let mut matches_suffix = true;
        for k in 0..8usize
            invariant
                n >= 8,
                n == chars@.len(),
                chars@ == owner@,
                suffix@ == " - Topic"@,
                suffix@.len() == 8,
                matches_suffix == (forall|j: int|
                    0 <= j < k ==> chars@[n - 8 + j] == suffix@[j]),
        {
            if chars[n - 8 + k] != suffix[k] {
                proof {
                    assert(chars@[n - 8 + k] != suffix@[k as int]);
                }
                matches_suffix = false;
            }
        }
        if matches_suffix {
            let mut kept: Vec<char> = Vec::new();
            for k in 0..n - 8
                invariant
                    n == chars@.len(),
                    n >= 8,
                    kept@ == chars@.take(k as int),
            {
                kept.push(chars[k]);
                proof {
                    assert(kept@ =~= chars@.take(k + 1));
                }
            }
            proof {
                assert(owner@.subrange(owner@.len() - 8, owner@.len() as int) =~= " - Topic"@);
            }
            return text::string_from_chars(&kept);
        }
        proof {
            let o = owner@;
            if o.subrange(o.len() - 8, o.len() as int) == " - Topic"@ {
                let w = choose|j: int| 0 <= j < 8 && o[o.len() - 8 + j] != " - Topic"@[j];
                assert(o.subrange(o.len() - 8, o.len() as int)[w] == o[o.len() - 8 + w]);
            }
        }
        owner
    } else {
        owner
    }
}

/// Whether a cached playlist is fresh enough to return without any request:
/// its fetch time lies within the quick-cache window before `now`.
pub fn quick_cache_fresh(cached_fetch_time: SqlSystemTime, now: SqlSystemTime, window_secs: u64)
    -> (r: bool)
    requires
        cached_fetch_time.wf(),
        now.wf(),
    ensures
        r == (cached_fetch_time.as_nanos() <= now.as_nanos() && now.as_nanos()
            - cached_fetch_time.as_nanos() < window_secs * 1000000000),
{
    if !cached_fetch_time.le(&now) {
        return false;
    }
    let diff_secs = now.secs - cached_fetch_time.secs;
    if diff_secs > window_secs {
        return false;
    }
    if diff_secs == window_secs {
        return now.nanos < cached_fetch_time.nanos;
    }
    true
}

/// Whether the first response page proves the cached playlist current: the
/// etag matches, the total matches, and the cached playlist is complete. If
/// so, no further page is requested and the cached playlist stands, with
/// only its fetch time renewed.
pub fn etag_shortcut_applies(cached: &Playlist, etag: &str, page_info: &PageInfo) -> (r: bool)
    ensures
        r == (cached.etag@ == etag@ && cached.total_results == page_info.total_results
            && cached.items@.len() == page_info.total_results),
{
    text::str_eq(cached.etag.as_str(), etag) && cached.total_results == page_info.total_results
        && cached.items.len() as u64 == page_info.total_results as u64
}

/// What the authorization step does next, given the stored tokens.
pub enum AuthPlan {
    /// The stored tokens are still valid: use them as they stand.
    UseStored(AuthData),
    /// The stored tokens expired: exchange the refresh token.
    Refresh(String),
    /// Nothing is stored: begin the device-code flow.
    StartDeviceFlow,
}

/// The authorization decision: stored and unexpired tokens are used as they
/// stand; stored but expired ones are refreshed; absent ones start the
/// device-code flow.
pub fn auth_plan(stored: Option<AuthData>, now: SqlSystemTime) -> (r: AuthPlan)
    requires
        now.wf(),
        match stored {
            Some(ref a) => a.expires_at.wf(),
            None => true,
        },
    ensures
        match stored {
            Some(ref a) => if now.as_nanos() < a.expires_at.as_nanos() {
                r matches AuthPlan::UseStored(b) && b == a
            } else {
                r matches AuthPlan::Refresh(t) && t == a.refresh_token
            },
            None => r matches AuthPlan::StartDeviceFlow,
        },
{
    match stored {
        Some(a) => {
            if now.lt(&a.expires_at) {
                AuthPlan::UseStored(a)
            } else {
                AuthPlan::Refresh(a.refresh_token)
            }
        },
        None => AuthPlan::StartDeviceFlow,
    }
}

/// The form body of a refresh-token exchange.
pub fn refresh_form(client_id: &str, client_secret: &str, refresh_token: &str) -> (r: String)
    ensures
        r@ == "client_id="@ + spec_percent_encode(vstd::utf8::encode_utf8(client_id@))
            + "&client_secret="@ + spec_percent_encode(vstd::utf8::encode_utf8(client_secret@))
            + "&refresh_token="@ + spec_percent_encode(vstd::utf8::encode_utf8(refresh_token@))
            + "&grant_type=refresh_token"@,
{
    let mut f = String::from_str("client_id=");
    let e1 = percent_encode(client_id);
    f.append(e1.as_str());
    f.append("&client_secret=");
    let e2 = percent_encode(client_secret);
    f.append(e2.as_str());
    f.append("&refresh_token=");
    let e3 = percent_encode(refresh_token);
    f.append(e3.as_str());
    f.append("&grant_type=refresh_token");
    f
}

/// The form body that begins a device authorization.
pub fn device_code_form(client_id: &str) -> (r: String)
    ensures
        r@ == "client_id="@ + spec_percent_encode(vstd::utf8::encode_utf8(client_id@)) + "&scope="@
            + spec_percent_encode(
            vstd::utf8::encode_utf8("https://www.googleapis.com/auth/youtube"@),
        ),
{
    let mut f = String::from_str("client_id=");
    let e1 = percent_encode(client_id);
    f.append(e1.as_str());
    f.append("&scope=");
    let e2 = percent_encode("https://www.googleapis.com/auth/youtube");
    f.append(e2.as_str());
    f
}

/// The form body of one device-token poll.
pub fn poll_form(client_id: &str, client_secret: &str, device_code: &str) -> (r: String)
    ensures
        r@ == "client_id="@ + spec_percent_encode(vstd::utf8::encode_utf8(client_id@))
            + "&client_secret="@ + spec_percent_encode(vstd::utf8::encode_utf8(client_secret@))
            + "&device_code="@ + spec_percent_encode(vstd::utf8::encode_utf8(device_code@))
            + "&grant_type=urn:ietf:params:oauth:grant-type:device_code"@,
{
    let mut f = String::from_str("client_id=");
    let e1 = percent_encode(client_id);
    f.append(e1.as_str());
    f.append("&client_secret=");
    let e2 = percent_encode(client_secret);
    f.append(e2.as_str());
    f.append("&device_code=");
    let e3 = percent_encode(device_code);
    f.append(e3.as_str());
    f.append("&grant_type=urn:ietf:params:oauth:grant-type:device_code");
    f
}

/// What one device-token poll error means for the flow.
#[derive(Debug, Clone, Copy, PartialEq, Eq, Structural)]
pub enum PollNext {
    /// The user has not decided yet: poll again after the interval.
    KeepWaiting,
    /// The provider asks for a slower pace: wait extra, then poll again.
    SlowDown,
    /// The device code expired: the flow fails.
    Expired,
    /// The user denied the request: the flow fails.
    Denied,
    /// Any other error: poll again after the interval.
    Other,
}

/// The meaning of a device-token poll error code.
pub fn poll_decision(error_code: &str) -> (r: PollNext)
    ensures
        r == (if error_code@ == "authorization_pending"@ {
            PollNext::KeepWaiting
        } else if error_code@ == "slow_down"@ {
            PollNext::SlowDown
        } else if error_code@ == "expired_token"@ {
            PollNext::Expired
        } else if error_code@ == "access_denied"@ {
            PollNext::Denied
        } else {
            PollNext::Other
        }),
{
    if text::str_eq(error_code, "authorization_pending") {
        PollNext::KeepWaiting
    } else if text::str_eq(error_code, "slow_down") {
        PollNext::SlowDown
    } else if text::str_eq(error_code, "expired_token") {
        PollNext::Expired
    } else if text::str_eq(error_code, "access_denied") {
        PollNext::Denied
    } else {
        PollNext::Other
    }
}

/// The stored form of a successful token response: the expiry is the moment
/// of the response plus its validity span. A response without a refresh
/// token, when none is carried over, fails with `MissingRefreshToken`.
pub fn token_to_auth(
    access_token: String,
    expires_in_secs: u64,
    refresh_token: Option<String>,
    now: SqlSystemTime,
) -> (r: Result<AuthData, YTError>)
    requires
        now.secs + expires_in_secs <= u64::MAX,
    ensures
        match refresh_token {
            Some(ref t) => r matches Ok(a) && a.access_token == access_token && a.refresh_token
                == t && a.expires_at.secs == now.secs + expires_in_secs && a.expires_at.nanos
                == now.nanos,
            None => r matches Err(e) && e is MissingRefreshToken,
        },
{
    match refresh_token {
        Some(t) => Ok(
            AuthData {
                access_token,
                refresh_token: t,
                expires_at: SqlSystemTime { secs: now.secs + expires_in_secs, nanos: now.nanos },
            },
        ),
        None => Err(YTError::MissingRefreshToken),
    }
}

} // verus!
