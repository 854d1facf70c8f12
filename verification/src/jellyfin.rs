//! The media-server mirror's own logic: the authorization header, the path
//! rewrite between the library's view and the server's, and the per-playlist
//! update payload. The HTTP calls and the hostname live outside; the store
//! queries that drive the mirror live with the store.

use vstd::prelude::*;
use crate::musicfiles::{clone_path, path_below, path_eq, path_view};
use crate::text;

verus! {

/// A failure of the media-server mirror.
#[derive(Debug, Clone)]
pub enum JellyError {
    /// The transport failed; the message is the transport's.
    ConnectionError(String),
    /// The server rejected the authentication; the message is its response.
    AuthFailure(String),
    /// Anything else.
    Unknown,
}

/// One parameter of the authorization header.
#[derive(Debug, Clone)]
pub struct AuthParam {
    pub key: String,
    pub value: String,
}

/// One header parameter as it is written: `key="value"`.
pub open spec fn spec_param_text(key: Seq<char>, value: Seq<char>) -> Seq<char> {
    key + "=\""@ + value + "\""@
}

/// The written parameters of a header, in order.
pub open spec fn spec_param_texts(params: Seq<AuthParam>) -> Seq<Seq<char>> {
    params.map_values(|p: AuthParam| spec_param_text(p.key@, p.value@))
}

/// The authorization header the server expects: the scheme word, then the
/// parameters as `key="value"`, comma-separated.
pub fn build_auth_header(params: &Vec<AuthParam>) -> (r: String)
    ensures
        r@ == "MediaBrowser "@ + text::spec_join(spec_param_texts(params@), ", "@),
{
    let mut r = String::from_str("MediaBrowser ");
    let mut parts: Vec<String> = Vec::new();
    let n = params.len();
    for i in 0..n
        invariant
            n == params@.len(),
            parts@.len() == i,
            forall|k: int|
                0 <= k < i ==> (#[trigger] parts@[k])@ == spec_param_text(
                    params@[k].key@,
                    params@[k].value@,
                ),
    {
        let mut part = params[i].key.clone();
        part.append("=\"");
        part.append(params[i].value.as_str());
        part.append("\"");
        parts.push(part);
    }
    proof {
        assert(parts.deep_view() =~= spec_param_texts(params@));
    }
    let joined = text::join_strings(&parts, ", ");
    r.append(joined.as_str());
    r
}

/// The header parameters of one request: the client name, the device, the
/// version, the device identifier, and — once authenticated — the token.
pub fn auth_header_params(hostname: &str, device_id: &str, token: Option<&str>) -> (r: Vec<
    AuthParam,
>)
    ensures
        r@.len() == (if token is Some {
            5int
        } else {
            4int
        }),
        r@[0].key@ == "Client"@ && r@[0].value@ == "myousync"@,
        r@[1].key@ == "Device"@ && r@[1].value@ == hostname@,
        r@[2].key@ == "Version"@ && r@[2].value@ == "1.0.0"@,
        r@[3].key@ == "DeviceId"@ && r@[3].value@ == device_id@,
        token matches Some(t) ==> r@[4].key@ == "Token"@ && r@[4].value@ == t@,
{
    let mut r: Vec<AuthParam> = Vec::new();
    r.push(AuthParam { key: String::from_str("Client"), value: String::from_str("myousync") });
    r.push(AuthParam { key: String::from_str("Device"), value: String::from_str(hostname) });
    r.push(AuthParam { key: String::from_str("Version"), value: String::from_str("1.0.0") });
    r.push(AuthParam { key: String::from_str("DeviceId"), value: String::from_str(device_id) });
    match token {
        Some(t) => {
            r.push(AuthParam { key: String::from_str("Token"), value: String::from_str(t) });
        },
        None => {},
    }
    r
}

/// A library path as the media server sees it: when the configured `from`
/// prefix covers the path, it is replaced by `to`; otherwise the path
/// stands.
pub fn rewrite_path(from: &Vec<String>, to: &Vec<String>, path: &Vec<String>) -> (r: Vec<String>)
    ensures
        ({
            let pv = path_view(path@);
            let fv = path_view(from@);
            if fv.len() <= pv.len() && pv.take(fv.len() as int) == fv {
                path_view(r@) == path_view(to@) + pv.skip(fv.len() as int)
            } else {
                path_view(r@) == pv
            }
        }),
{
    let is_prefix = if from.len() <= path.len() {
        if from.len() == path.len() {
            path_eq(from, path)
        } else {
            path_below(from, path)
        }
    } else {
        proof {
            assert(path_view(from@).len() > path_view(path@).len());
        }
        false
    };
    if is_prefix {
        proof {
            if from@.len() == path@.len() {
                assert(path_view(path@).take(path_view(from@).len() as int) =~= path_view(path@));
            }
        }
        let mut r = clone_path(to);
        let mut i: usize = from.len();
        let n = path.len();
        let m = to.len();
        let fl = from.len();
        while i < n
            invariant
                fl == from@.len(),
                m == to@.len(),
                fl <= i <= n,
                n == path@.len(),
                r@.len() == m + (i - fl),
                forall|k: int| 0 <= k < m ==> (#[trigger] r@[k])@ == to@[k]@,
                forall|k: int|
                    m <= k < r@.len() ==> (#[trigger] r@[k])@ == path@[fl + (k - m)]@,
            decreases n - i,
        {
            r.push(path[i].clone());
            i = i + 1;
        }
        proof {
            assert(path_view(r@) =~= path_view(to@) + path_view(path@).skip(
                path_view(from@).len() as int,
            ));
        }
        r
    } else {
        proof {
            if from@.len() == path@.len() {
                assert(path_view(path@).take(path_view(from@).len() as int) =~= path_view(path@));
            }
        }
        clone_path(path)
    }
}

} // verus!
