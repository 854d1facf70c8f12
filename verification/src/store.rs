//! The persistent store, modelled exactly: tables of items, playlists,
//! playlist configuration, cached provider responses, users, tokens and
//! settings, each keyed uniquely. The on-disk engine that persists this
//! state is an external collaborator; every operation here is the
//! mathematical content of the corresponding statement, and playlist
//! replacement is a single atomic step.

use vstd::prelude::*;
use crate::brainz::{BrainzMetadata, BrainzMultiSearch};
use crate::models::{
    clone_metadata, clone_multisearch, clone_playlist, clone_playlist_config, clone_video_status,
    FetchStatus, JellyStatus, JellySyncStatus, Playlist, PlaylistConfig, PlaylistItem,
    PlaylistView, UserData, VideoStatus, AuthData,
};
use crate::time::SqlSystemTime;

verus! {

/// One row of the extractor-metadata cache.
#[derive(Debug, Clone)]
pub struct YtDataRow {
    pub video_id: String,
    pub ytdlp: String,
}

/// One row of the resolver-response cache.
#[derive(Debug, Clone)]
pub struct BrainzRow {
    pub query: String,
    pub data: String,
}

/// One row of the process-wide setting store.
#[derive(Debug, Clone)]
pub struct KvpRow {
    pub key: String,
    pub value: String,
}

/// The whole persistent state.
#[derive(Debug)]
pub struct DbState {
    /// Where the store lives on disk; kept by the persistence layer.
    pub location: String,
    pub videos: Vec<VideoStatus>,
    pub playlists: Vec<Playlist>,
    pub playlist_configs: Vec<PlaylistConfig>,
    pub ytdata: Vec<YtDataRow>,
    pub brainz_rows: Vec<BrainzRow>,
    pub auth: Option<AuthData>,
    pub users: Vec<UserData>,
    pub kvp: Vec<KvpRow>,
}

/// The first item row with the given key, at or after `from`.
pub open spec fn video_idx(vs: Seq<VideoStatus>, id: Seq<char>, from: int) -> Option<int>
    decreases vs.len() - from,
{
    if from < 0 || from >= vs.len() {
        None
    } else if vs[from].video_id@ == id {
        Some(from)
    } else {
        video_idx(vs, id, from + 1)
    }
}

/// The first playlist row with the given key, at or after `from`.
pub open spec fn playlist_idx(ps: Seq<Playlist>, id: Seq<char>, from: int) -> Option<int>
    decreases ps.len() - from,
{
    if from < 0 || from >= ps.len() {
        None
    } else if ps[from].playlist_id@ == id {
        Some(from)
    } else {
        playlist_idx(ps, id, from + 1)
    }
}

/// The first configuration row with the given key, at or after `from`.
pub open spec fn config_idx(cs: Seq<PlaylistConfig>, id: Seq<char>, from: int) -> Option<int>
    decreases cs.len() - from,
{
    if from < 0 || from >= cs.len() {
        None
    } else if cs[from].playlist_id@ == id {
        Some(from)
    } else {
        config_idx(cs, id, from + 1)
    }
}

/// The first extractor-cache row with the given key, at or after `from`.
pub open spec fn yt_idx(rows: Seq<YtDataRow>, id: Seq<char>, from: int) -> Option<int>
    decreases rows.len() - from,
{
    if from < 0 || from >= rows.len() {
        None
    } else if rows[from].video_id@ == id {
        Some(from)
    } else {
        yt_idx(rows, id, from + 1)
    }
}

/// The first resolver-cache row with the given key, at or after `from`.
pub open spec fn brainz_idx(rows: Seq<BrainzRow>, q: Seq<char>, from: int) -> Option<int>
    decreases rows.len() - from,
{
    if from < 0 || from >= rows.len() {
        None
    } else if rows[from].query@ == q {
        Some(from)
    } else {
        brainz_idx(rows, q, from + 1)
    }
}

/// The first user row with the given name, at or after `from`.
pub open spec fn user_idx(us: Seq<UserData>, name: Seq<char>, from: int) -> Option<int>
    decreases us.len() - from,
{
    if from < 0 || from >= us.len() {
        None
    } else if us[from].username@ == name {
        Some(from)
    } else {
        user_idx(us, name, from + 1)
    }
}

/// The first setting row with the given key, at or after `from`.
pub open spec fn kv_idx(rows: Seq<KvpRow>, key: Seq<char>, from: int) -> Option<int>
    decreases rows.len() - from,
{
    if from < 0 || from >= rows.len() {
        None
    } else if rows[from].key@ == key {
        Some(from)
    } else {
        kv_idx(rows, key, from + 1)
    }
}

impl DbState {
    /// Every table is keyed uniquely, and stored playlist entries carry
    /// their index as their position.
    pub open spec fn wf(self) -> bool {
        &&& forall|i: int, j: int|
            0 <= i < j < self.videos@.len() ==> (#[trigger] self.videos@[i]).video_id@ != (
            #[trigger] self.videos@[j]).video_id@
        &&& forall|i: int, j: int|
            0 <= i < j < self.playlists@.len() ==> (#[trigger] self.playlists@[i]).playlist_id@
                != (#[trigger] self.playlists@[j]).playlist_id@
        &&& forall|i: int, j: int|
            0 <= i < j < self.playlist_configs@.len() ==> (
            #[trigger] self.playlist_configs@[i]).playlist_id@ != (
            #[trigger] self.playlist_configs@[j]).playlist_id@
        &&& forall|i: int, j: int|
            0 <= i < j < self.ytdata@.len() ==> (#[trigger] self.ytdata@[i]).video_id@ != (
            #[trigger] self.ytdata@[j]).video_id@
        &&& forall|i: int, j: int|
            0 <= i < j < self.brainz_rows@.len() ==> (#[trigger] self.brainz_rows@[i]).query@ != (
            #[trigger] self.brainz_rows@[j]).query@
        &&& forall|i: int, j: int|
            0 <= i < j < self.users@.len() ==> (#[trigger] self.users@[i]).username@ != (
            #[trigger] self.users@[j]).username@
        &&& forall|i: int, j: int|
            0 <= i < j < self.kvp@.len() ==> (#[trigger] self.kvp@[i]).key@ != (
            #[trigger] self.kvp@[j]).key@
        &&& forall|k: int|
            0 <= k < self.playlists@.len() ==> positions_are_indices(
                #[trigger] self.playlists@[k],
            )
    }

    /// An empty store at the default location.
    pub fn new() -> (r: Self)
        ensures
            r.wf(),
            r.videos@.len() == 0,
            r.playlists@.len() == 0,
            r.playlist_configs@.len() == 0,
            r.ytdata@.len() == 0,
            r.brainz_rows@.len() == 0,
            r.auth is None,
            r.users@.len() == 0,
            r.kvp@.len() == 0,
    {
        Self::new_at("ytdata.db")
    }

    /// An empty store at the given location.
    pub fn new_at(dbpath: &str) -> (r: Self)
        ensures
            r.wf(),
            r.location@ == dbpath@,
            r.videos@.len() == 0,
            r.playlists@.len() == 0,
            r.playlist_configs@.len() == 0,
            r.ytdata@.len() == 0,
            r.brainz_rows@.len() == 0,
            r.auth is None,
            r.users@.len() == 0,
            r.kvp@.len() == 0,
    {
        DbState {
            location: String::from_str(dbpath),
            videos: Vec::new(),
            playlists: Vec::new(),
            playlist_configs: Vec::new(),
            ytdata: Vec::new(),
            brainz_rows: Vec::new(),
            auth: None,
            users: Vec::new(),
            kvp: Vec::new(),
        }
    }

    /// The position of the item row for `id`, if there is one.
    fn find_video(&self, id: &str) -> (r: Option<usize>)
        ensures
            match r {
                Some(i) => video_idx(self.videos@, id@, 0) == Some(i as int),
                None => video_idx(self.videos@, id@, 0) is None,
            },
    {
        let n = self.videos.len();
        let mut i: usize = 0;
        loop
            invariant
                i <= n,
                n == self.videos@.len(),
                video_idx(self.videos@, id@, 0) == video_idx(self.videos@, id@, i as int),
            decreases n - i,
        {
            if i >= n {
                return None;
            }
            if crate::text::str_eq(self.videos[i].video_id.as_str(), id) {
                return Some(i);
            }
            i = i + 1;
        }
    }

    /// The stored state of one item.
    pub fn get_video(&self, video_id: &str) -> (r: Option<VideoStatus>)
        ensures
            match video_idx(self.videos@, video_id@, 0) {
                Some(i) => r matches Some(v) && v@ =~~= self.videos@[i]@,
                None => r is None,
            },
    {
        match self.find_video(video_id) {
            Some(i) => {
                proof {
                    lemma_video_idx_bounds(self.videos@, video_id@, 0);
                }
                Some(clone_video_status(&self.videos[i]))
            },
            None => None,
        }
    }

    /// Writes the full row of one item: the existing row with that key is
    /// replaced, or a new row appended; nothing else changes.
    pub fn set_full_track_status(&mut self, status: &VideoStatus)
        requires
            old(self).wf(),
        ensures
            final(self).wf(),
            match video_idx(old(self).videos@, status.video_id@, 0) {
                Some(i) => {
                    &&& final(self).videos@.len() == old(self).videos@.len()
                    &&& final(self).videos@[i]@ =~~= status@
                    &&& forall|k: int|
                        0 <= k < old(self).videos@.len() && k != i ==> (
                        #[trigger] final(self).videos@[k]) == old(self).videos@[k]
                },
                None => {
                    &&& final(self).videos@.len() == old(self).videos@.len() + 1
                    &&& final(self).videos@.last()@ =~~= status@
                    &&& forall|k: int|
                        0 <= k < old(self).videos@.len() ==> (#[trigger] final(self).videos@[k])
                            == old(self).videos@[k]
                },
            },
            final(self).playlists == old(self).playlists,
            final(self).playlist_configs == old(self).playlist_configs,
            final(self).ytdata == old(self).ytdata,
            final(self).brainz_rows == old(self).brainz_rows,
            final(self).auth == old(self).auth,
            final(self).users == old(self).users,
            final(self).kvp == old(self).kvp,
    {
        let copy = clone_video_status(status);
        match self.find_video(status.video_id.as_str()) {
            Some(i) => {
                proof {
                    lemma_video_idx_bounds(self.videos@, status.video_id@, 0);
                }
                self.videos[i] = copy;
                proof {
                    lemma_video_keys_unchanged(old(self).videos@, final(self).videos@);
                }
            },
            None => {
                proof {
                    lemma_video_idx_none(self.videos@, status.video_id@, 0);
                }
                self.videos.push(copy);
                proof {
                    assert(forall|k: int|
                        0 <= k < old(self).videos@.len() ==> (#[trigger] final(self).videos@[k])
                            == old(self).videos@[k]);
                }
            },
        }
    }
}

/// A found index lies in range and names a row with the key.
pub proof fn lemma_video_idx_bounds(vs: Seq<VideoStatus>, id: Seq<char>, from: int)
    requires
        0 <= from,
    ensures
        match video_idx(vs, id, from) {
            Some(i) => from <= i < vs.len() && vs[i].video_id@ == id,
            None => true,
        },
    decreases vs.len() - from,
{
    if !(from < 0 || from >= vs.len()) && !(vs[from].video_id@ == id) {
        lemma_video_idx_bounds(vs, id, from + 1);
    }
}

/// A missing index means no row holds the key.
pub proof fn lemma_video_idx_none(vs: Seq<VideoStatus>, id: Seq<char>, from: int)
    requires
        0 <= from,
        video_idx(vs, id, from) is None,
    ensures
        forall|k: int| from <= k < vs.len() ==> (#[trigger] vs[k]).video_id@ != id,
    decreases vs.len() - from,
{
    if from < vs.len() {
        lemma_video_idx_none(vs, id, from + 1);
    }
}

/// Two sequences whose rows carry the same keys position by position keep
/// uniqueness across an in-place replacement.
proof fn lemma_video_keys_unchanged(pre: Seq<VideoStatus>, post: Seq<VideoStatus>)
    requires
        pre.len() == post.len(),
        forall|k: int| 0 <= k < pre.len() ==> (#[trigger] post[k]).video_id@ == pre[k].video_id@,
        forall|i: int, j: int|
            0 <= i < j < pre.len() ==> (#[trigger] pre[i]).video_id@ != (
            #[trigger] pre[j]).video_id@,
    ensures
        forall|i: int, j: int|
            0 <= i < j < post.len() ==> (#[trigger] post[i]).video_id@ != (
            #[trigger] post[j]).video_id@,
{
}


impl DbState {
    /// The position of the setting row for `key`, if there is one.
    fn find_kv(&self, key: &str) -> (r: Option<usize>)
        ensures
            match r {
                Some(i) => kv_idx(self.kvp@, key@, 0) == Some(i as int) && i < self.kvp@.len()
                    && self.kvp@[i as int].key@ == key@,
                None => kv_idx(self.kvp@, key@, 0) is None,
            },
    {
        let n = self.kvp.len();
        let mut i: usize = 0;
        loop
            invariant
                i <= n,
                n == self.kvp@.len(),
                kv_idx(self.kvp@, key@, 0) == kv_idx(self.kvp@, key@, i as int),
            decreases n - i,
        {
            if i >= n {
                return None;
            }
            if crate::text::str_eq(self.kvp[i].key.as_str(), key) {
                return Some(i);
            }
            i = i + 1;
        }
    }

    /// The stored value of a setting.
    pub fn get_key(&self, key: &str) -> (r: Option<String>)
        ensures
            match kv_idx(self.kvp@, key@, 0) {
                Some(i) => r matches Some(v) && v@ == self.kvp@[i].value@,
                None => r is None,
            },
    {
        match self.find_kv(key) {
            Some(i) => Some(self.kvp[i].value.clone()),
            None => None,
        }
    }

    /// Writes a setting: the row for `key` is replaced or appended; nothing
    /// else changes.
    pub fn set_key(&mut self, key: &str, value: &str)
        requires
            old(self).wf(),
        ensures
            final(self).wf(),
            match kv_idx(old(self).kvp@, key@, 0) {
                Some(i) => {
                    &&& final(self).kvp@.len() == old(self).kvp@.len()
                    &&& final(self).kvp@[i].key@ == key@
                    &&& final(self).kvp@[i].value@ == value@
                    &&& forall|k: int|
                        0 <= k < old(self).kvp@.len() && k != i ==> (
                        #[trigger] final(self).kvp@[k]) == old(self).kvp@[k]
                },
                None => {
                    &&& final(self).kvp@.len() == old(self).kvp@.len() + 1
                    &&& final(self).kvp@.last().key@ == key@
                    &&& final(self).kvp@.last().value@ == value@
                    &&& forall|k: int|
                        0 <= k < old(self).kvp@.len() ==> (#[trigger] final(self).kvp@[k]) == old(
                            self,
                        ).kvp@[k]
                },
            },
            final(self).videos == old(self).videos,
            final(self).playlists == old(self).playlists,
            final(self).playlist_configs == old(self).playlist_configs,
            final(self).ytdata == old(self).ytdata,
            final(self).brainz_rows == old(self).brainz_rows,
            final(self).auth == old(self).auth,
            final(self).users == old(self).users,
    {
        let row = KvpRow { key: String::from_str(key), value: String::from_str(value) };
        match self.find_kv(key) {
            Some(i) => {
                self.kvp[i] = row;
                proof {
                    assert forall|a: int, b: int| 0 <= a < b < final(self).kvp@.len() implies (
                    #[trigger] final(self).kvp@[a]).key@ != (#[trigger] final(self).kvp@[b]).key@ by {
                        assert(old(self).kvp@[a].key@ != old(self).kvp@[b].key@);
                    }
                }
            },
            None => {
                proof {
                    lemma_kv_idx_none(self.kvp@, key@, 0);
                }
                self.kvp.push(row);
            },
        }
    }

    /// Removes a setting, returning the value it had.
    pub fn delete_key(&mut self, key: &str) -> (r: Option<String>)
        requires
            old(self).wf(),
        ensures
            final(self).wf(),
            match kv_idx(old(self).kvp@, key@, 0) {
                Some(i) => r matches Some(v) && v@ == old(self).kvp@[i].value@ && final(self).kvp@
                    =~= old(self).kvp@.remove(i),
                None => r is None && final(self).kvp@ == old(self).kvp@,
            },
            final(self).videos == old(self).videos,
            final(self).playlists == old(self).playlists,
            final(self).playlist_configs == old(self).playlist_configs,
            final(self).ytdata == old(self).ytdata,
            final(self).brainz_rows == old(self).brainz_rows,
            final(self).auth == old(self).auth,
            final(self).users == old(self).users,
    {
        match self.find_kv(key) {
            Some(i) => {
                let row = self.kvp.remove(i);
                proof {
                    assert forall|a: int, b: int| 0 <= a < b < final(self).kvp@.len() implies (
                    #[trigger] final(self).kvp@[a]).key@ != (#[trigger] final(self).kvp@[b]).key@ by {
                        let pa = if a < i as int { a } else { a + 1 };
                        let pb = if b < i as int { b } else { b + 1 };
                        assert(final(self).kvp@[a] == old(self).kvp@[pa]);
                        assert(final(self).kvp@[b] == old(self).kvp@[pb]);
                        assert(old(self).kvp@[pa].key@ != old(self).kvp@[pb].key@);
                    }
                }
                Some(row.value)
            },
            None => None,
        }
    }

    /// The position of the user row for `username`, if there is one.
    fn find_user(&self, username: &str) -> (r: Option<usize>)
        ensures
            match r {
                Some(i) => user_idx(self.users@, username@, 0) == Some(i as int) && i
                    < self.users@.len() && self.users@[i as int].username@ == username@,
                None => user_idx(self.users@, username@, 0) is None,
            },
    {
        let n = self.users.len();
        let mut i: usize = 0;
        loop
            invariant
                i <= n,
                n == self.users@.len(),
                user_idx(self.users@, username@, 0) == user_idx(self.users@, username@, i as int),
            decreases n - i,
        {
            if i >= n {
                return None;
            }
            if crate::text::str_eq(self.users[i].username.as_str(), username) {
                return Some(i);
            }
            i = i + 1;
        }
    }

    /// The stored user with the given name.
    pub fn get_user(&self, username: &str) -> (r: Option<UserData>)
        ensures
            match user_idx(self.users@, username@, 0) {
                Some(i) => r matches Some(u) && u@ == self.users@[i]@,
                None => r is None,
            },
    {
        match self.find_user(username) {
            Some(i) => Some(
                UserData {
                    username: self.users[i].username.clone(),
                    password: self.users[i].password.clone(),
                },
            ),
            None => None,
        }
    }

    /// Adds a user row. A caller that admits duplicate names would break the
    /// store's keying, so the name must be fresh.
    pub fn add_user(&mut self, username: &str, hashed_password: &str)
        requires
            old(self).wf(),
            user_idx(old(self).users@, username@, 0) is None,
        ensures
            final(self).wf(),
            final(self).users@.len() == old(self).users@.len() + 1,
            final(self).users@.last().username@ == username@,
            final(self).users@.last().password@ == hashed_password@,
            forall|k: int|
                0 <= k < old(self).users@.len() ==> (#[trigger] final(self).users@[k]) == old(
                    self,
                ).users@[k],
            final(self).videos == old(self).videos,
            final(self).playlists == old(self).playlists,
            final(self).playlist_configs == old(self).playlist_configs,
            final(self).ytdata == old(self).ytdata,
            final(self).brainz_rows == old(self).brainz_rows,
            final(self).auth == old(self).auth,
            final(self).kvp == old(self).kvp,
    {
        proof {
            lemma_user_idx_none(self.users@, username@, 0);
        }
        self.users.push(
            UserData {
                username: String::from_str(username),
                password: String::from_str(hashed_password),
            },
        );
    }

    /// Removes the user with the given name; the count of removed rows.
    pub fn delete_user(&mut self, username: &str) -> (r: usize)
        requires
            old(self).wf(),
        ensures
            final(self).wf(),
            match user_idx(old(self).users@, username@, 0) {
                Some(i) => r == 1 && final(self).users@ =~= old(self).users@.remove(i),
                None => r == 0 && final(self).users@ == old(self).users@,
            },
            final(self).videos == old(self).videos,
            final(self).playlists == old(self).playlists,
            final(self).playlist_configs == old(self).playlist_configs,
            final(self).ytdata == old(self).ytdata,
            final(self).brainz_rows == old(self).brainz_rows,
            final(self).auth == old(self).auth,
            final(self).kvp == old(self).kvp,
    {
        match self.find_user(username) {
            Some(i) => {
                self.users.remove(i);
                proof {
                    assert forall|a: int, b: int| 0 <= a < b < final(self).users@.len() implies (
                    #[trigger] final(self).users@[a]).username@ != (
                    #[trigger] final(self).users@[b]).username@ by {
                        let pa = if a < i as int { a } else { a + 1 };
                        let pb = if b < i as int { b } else { b + 1 };
                        assert(final(self).users@[a] == old(self).users@[pa]);
                        assert(final(self).users@[b] == old(self).users@[pb]);
                        assert(old(self).users@[pa].username@ != old(self).users@[pb].username@);
                    }
                }
                1
            },
            None => 0,
        }
    }

    /// The stored provider tokens, if any.
    pub fn try_get_auth(&self) -> (r: Option<AuthData>)
        ensures
            match self.auth {
                Some(ref a) => r matches Some(b) && b@ == a@,
                None => r is None,
            },
    {
        match &self.auth {
            Some(a) => Some(
                AuthData {
                    access_token: a.access_token.clone(),
                    refresh_token: a.refresh_token.clone(),
                    expires_at: a.expires_at,
                },
            ),
            None => None,
        }
    }

    /// Replaces the stored provider tokens.
    pub fn set_auth(&mut self, auth: &AuthData)
        requires
            old(self).wf(),
        ensures
            final(self).wf(),
            final(self).auth matches Some(a) && a@ == auth@,
            final(self).videos == old(self).videos,
            final(self).playlists == old(self).playlists,
            final(self).playlist_configs == old(self).playlist_configs,
            final(self).ytdata == old(self).ytdata,
            final(self).brainz_rows == old(self).brainz_rows,
            final(self).users == old(self).users,
            final(self).kvp == old(self).kvp,
    {
        self.auth = Some(
            AuthData {
                access_token: auth.access_token.clone(),
                refresh_token: auth.refresh_token.clone(),
                expires_at: auth.expires_at,
            },
        );
    }

    /// The position of the extractor-cache row for `video_id`, if any.
    fn find_yt(&self, video_id: &str) -> (r: Option<usize>)
        ensures
            match r {
                Some(i) => yt_idx(self.ytdata@, video_id@, 0) == Some(i as int) && i
                    < self.ytdata@.len() && self.ytdata@[i as int].video_id@ == video_id@,
                None => yt_idx(self.ytdata@, video_id@, 0) is None,
            },
    {
        let n = self.ytdata.len();
        let mut i: usize = 0;
        loop
            invariant
                i <= n,
                n == self.ytdata@.len(),
                yt_idx(self.ytdata@, video_id@, 0) == yt_idx(self.ytdata@, video_id@, i as int),
            decreases n - i,
        {
            if i >= n {
                return None;
            }
            if crate::text::str_eq(self.ytdata[i].video_id.as_str(), video_id) {
                return Some(i);
            }
            i = i + 1;
        }
    }

    /// Caches the extractor metadata of one item: replaced or appended.
    pub fn set_yt_dlp(&mut self, video_id: &str, dlp: &str)
        requires
            old(self).wf(),
        ensures
            final(self).wf(),
            match yt_idx(old(self).ytdata@, video_id@, 0) {
                Some(i) => {
                    &&& final(self).ytdata@.len() == old(self).ytdata@.len()
                    &&& final(self).ytdata@[i].video_id@ == video_id@
                    &&& final(self).ytdata@[i].ytdlp@ == dlp@
                    &&& forall|k: int|
                        0 <= k < old(self).ytdata@.len() && k != i ==> (
                        #[trigger] final(self).ytdata@[k]) == old(self).ytdata@[k]
                },
                None => {
                    &&& final(self).ytdata@.len() == old(self).ytdata@.len() + 1
                    &&& final(self).ytdata@.last().video_id@ == video_id@
                    &&& final(self).ytdata@.last().ytdlp@ == dlp@
                    &&& forall|k: int|
                        0 <= k < old(self).ytdata@.len() ==> (#[trigger] final(self).ytdata@[k])
                            == old(self).ytdata@[k]
                },
            },
            final(self).videos == old(self).videos,
            final(self).playlists == old(self).playlists,
            final(self).playlist_configs == old(self).playlist_configs,
            final(self).brainz_rows == old(self).brainz_rows,
            final(self).auth == old(self).auth,
            final(self).users == old(self).users,
            final(self).kvp == old(self).kvp,
    {
        let row = YtDataRow { video_id: String::from_str(video_id), ytdlp: String::from_str(dlp) };
        match self.find_yt(video_id) {
            Some(i) => {
                self.ytdata[i] = row;
                proof {
                    assert forall|a: int, b: int| 0 <= a < b < final(self).ytdata@.len() implies (
                    #[trigger] final(self).ytdata@[a]).video_id@ != (
                    #[trigger] final(self).ytdata@[b]).video_id@ by {
                        assert(old(self).ytdata@[a].video_id@ != old(self).ytdata@[b].video_id@);
                    }
                }
            },
            None => {
                proof {
                    lemma_yt_idx_none(self.ytdata@, video_id@, 0);
                }
                self.ytdata.push(row);
            },
        }
    }

    /// The cached extractor metadata of one item.
    pub fn try_get_yt_dlp(&self, video_id: &str) -> (r: Option<String>)
        ensures
            match yt_idx(self.ytdata@, video_id@, 0) {
                Some(i) => r matches Some(v) && v@ == self.ytdata@[i].ytdlp@,
                None => r is None,
            },
    {
        match self.find_yt(video_id) {
            Some(i) => Some(self.ytdata[i].ytdlp.clone()),
            None => None,
        }
    }

    /// Drops the cached extractor metadata of one item.
    pub fn delete_yt_data(&mut self, video_id: &str)
        requires
            old(self).wf(),
        ensures
            final(self).wf(),
            match yt_idx(old(self).ytdata@, video_id@, 0) {
                Some(i) => final(self).ytdata@ =~= old(self).ytdata@.remove(i),
                None => final(self).ytdata@ == old(self).ytdata@,
            },
            final(self).videos == old(self).videos,
            final(self).playlists == old(self).playlists,
            final(self).playlist_configs == old(self).playlist_configs,
            final(self).brainz_rows == old(self).brainz_rows,
            final(self).auth == old(self).auth,
            final(self).users == old(self).users,
            final(self).kvp == old(self).kvp,
    {
        match self.find_yt(video_id) {
            Some(i) => {
                self.ytdata.remove(i);
                proof {
                    assert forall|a: int, b: int| 0 <= a < b < final(self).ytdata@.len() implies (
                    #[trigger] final(self).ytdata@[a]).video_id@ != (
                    #[trigger] final(self).ytdata@[b]).video_id@ by {
                        let pa = if a < i as int { a } else { a + 1 };
                        let pb = if b < i as int { b } else { b + 1 };
                        assert(final(self).ytdata@[a] == old(self).ytdata@[pa]);
                        assert(final(self).ytdata@[b] == old(self).ytdata@[pb]);
                        assert(old(self).ytdata@[pa].video_id@ != old(self).ytdata@[pb].video_id@);
                    }
                }
            },
            None => {},
        }
    }

    /// The position of the resolver-cache row for `query`, if any.
    fn find_brainz(&self, query: &str) -> (r: Option<usize>)
        ensures
            match r {
                Some(i) => brainz_idx(self.brainz_rows@, query@, 0) == Some(i as int) && i
                    < self.brainz_rows@.len() && self.brainz_rows@[i as int].query@ == query@,
                None => brainz_idx(self.brainz_rows@, query@, 0) is None,
            },
    {
        let n = self.brainz_rows.len();
        let mut i: usize = 0;
        loop
            invariant
                i <= n,
                n == self.brainz_rows@.len(),
                brainz_idx(self.brainz_rows@, query@, 0) == brainz_idx(
                    self.brainz_rows@,
                    query@,
                    i as int,
                ),
            decreases n - i,
        {
            if i >= n {
                return None;
            }
            if crate::text::str_eq(self.brainz_rows[i].query.as_str(), query) {
                return Some(i);
            }
            i = i + 1;
        }
    }

    /// The cached resolver response for `query`.
    pub fn try_get_brainz(&self, query: &str) -> (r: Option<String>)
        ensures
            match brainz_idx(self.brainz_rows@, query@, 0) {
                Some(i) => r matches Some(v) && v@ == self.brainz_rows@[i].data@,
                None => r is None,
            },
    {
        match self.find_brainz(query) {
            Some(i) => Some(self.brainz_rows[i].data.clone()),
            None => None,
        }
    }

    /// Caches a resolver response: replaced or appended.
    pub fn set_brainz(&mut self, query: &str, data: &str)
        requires
            old(self).wf(),
        ensures
            final(self).wf(),
            match brainz_idx(old(self).brainz_rows@, query@, 0) {
                Some(i) => {
                    &&& final(self).brainz_rows@.len() == old(self).brainz_rows@.len()
                    &&& final(self).brainz_rows@[i].query@ == query@
                    &&& final(self).brainz_rows@[i].data@ == data@
                    &&& forall|k: int|
                        0 <= k < old(self).brainz_rows@.len() && k != i ==> (
                        #[trigger] final(self).brainz_rows@[k]) == old(self).brainz_rows@[k]
                },
                None => {
                    &&& final(self).brainz_rows@.len() == old(self).brainz_rows@.len() + 1
                    &&& final(self).brainz_rows@.last().query@ == query@
                    &&& final(self).brainz_rows@.last().data@ == data@
                    &&& forall|k: int|
                        0 <= k < old(self).brainz_rows@.len() ==> (
                        #[trigger] final(self).brainz_rows@[k]) == old(self).brainz_rows@[k]
                },
            },
            final(self).videos == old(self).videos,
            final(self).playlists == old(self).playlists,
            final(self).playlist_configs == old(self).playlist_configs,
            final(self).ytdata == old(self).ytdata,
            final(self).auth == old(self).auth,
            final(self).users == old(self).users,
            final(self).kvp == old(self).kvp,
    {
        let row = BrainzRow { query: String::from_str(query), data: String::from_str(data) };
        match self.find_brainz(query) {
            Some(i) => {
                self.brainz_rows[i] = row;
                proof {
                    assert forall|a: int, b: int|
                        0 <= a < b < final(self).brainz_rows@.len() implies (
                    #[trigger] final(self).brainz_rows@[a]).query@ != (
                    #[trigger] final(self).brainz_rows@[b]).query@ by {
                        assert(old(self).brainz_rows@[a].query@ != old(self).brainz_rows@[b].query@);
                    }
                }
            },
            None => {
                proof {
                    lemma_brainz_idx_none(self.brainz_rows@, query@, 0);
                }
                self.brainz_rows.push(row);
            },
        }
    }
}

/// A found setting index lies in range and names a row with the key.
pub proof fn lemma_kv_idx_bounds(rows: Seq<KvpRow>, key: Seq<char>, from: int)
    requires
        0 <= from,
    ensures
        match kv_idx(rows, key, from) {
            Some(i) => from <= i < rows.len() && rows[i].key@ == key,
            None => true,
        },
    decreases rows.len() - from,
{
    if !(from < 0 || from >= rows.len()) && !(rows[from].key@ == key) {
        lemma_kv_idx_bounds(rows, key, from + 1);
    }
}

/// A missing setting index means no row holds the key.
pub proof fn lemma_kv_idx_none(rows: Seq<KvpRow>, key: Seq<char>, from: int)
    requires
        0 <= from,
        kv_idx(rows, key, from) is None,
    ensures
        forall|k: int| from <= k < rows.len() ==> (#[trigger] rows[k]).key@ != key,
    decreases rows.len() - from,
{
    if from < rows.len() {
        lemma_kv_idx_none(rows, key, from + 1);
    }
}

/// A missing user index means no row holds the name.
proof fn lemma_user_idx_none(us: Seq<UserData>, name: Seq<char>, from: int)
    requires
        0 <= from,
        user_idx(us, name, from) is None,
    ensures
        forall|k: int| from <= k < us.len() ==> (#[trigger] us[k]).username@ != name,
    decreases us.len() - from,
{
    if from < us.len() {
        lemma_user_idx_none(us, name, from + 1);
    }
}

/// A missing extractor-cache index means no row holds the key.
proof fn lemma_yt_idx_none(rows: Seq<YtDataRow>, id: Seq<char>, from: int)
    requires
        0 <= from,
        yt_idx(rows, id, from) is None,
    ensures
        forall|k: int| from <= k < rows.len() ==> (#[trigger] rows[k]).video_id@ != id,
    decreases rows.len() - from,
{
    if from < rows.len() {
        lemma_yt_idx_none(rows, id, from + 1);
    }
}

/// A missing resolver-cache index means no row holds the key.
proof fn lemma_brainz_idx_none(rows: Seq<BrainzRow>, q: Seq<char>, from: int)
    requires
        0 <= from,
        brainz_idx(rows, q, from) is None,
    ensures
        forall|k: int| from <= k < rows.len() ==> (#[trigger] rows[k]).query@ != q,
    decreases rows.len() - from,
{
    if from < rows.len() {
        lemma_brainz_idx_none(rows, q, from + 1);
    }
}


/// Whether a stored playlist's entries carry their index as position.
pub open spec fn positions_are_indices(p: Playlist) -> bool {
    forall|k: int| 0 <= k < p.items@.len() ==> (#[trigger] p.items@[k]).position == k
}


/// A found playlist index lies in range and names a row with the key.
pub proof fn lemma_playlist_idx_bounds(ps: Seq<Playlist>, id: Seq<char>, from: int)
    requires
        0 <= from,
    ensures
        match playlist_idx(ps, id, from) {
            Some(i) => from <= i < ps.len() && ps[i].playlist_id@ == id,
            None => true,
        },
    decreases ps.len() - from,
{
    if !(from < 0 || from >= ps.len()) && !(ps[from].playlist_id@ == id) {
        lemma_playlist_idx_bounds(ps, id, from + 1);
    }
}

/// A missing playlist index means no row holds the key.
pub proof fn lemma_playlist_idx_none(ps: Seq<Playlist>, id: Seq<char>, from: int)
    requires
        0 <= from,
        playlist_idx(ps, id, from) is None,
    ensures
        forall|k: int| from <= k < ps.len() ==> (#[trigger] ps[k]).playlist_id@ != id,
    decreases ps.len() - from,
{
    if from < ps.len() {
        lemma_playlist_idx_none(ps, id, from + 1);
    }
}

/// A missing configuration index means no row holds the key.
pub proof fn lemma_config_idx_none(cs: Seq<PlaylistConfig>, id: Seq<char>, from: int)
    requires
        0 <= from,
        config_idx(cs, id, from) is None,
    ensures
        forall|k: int| from <= k < cs.len() ==> (#[trigger] cs[k]).playlist_id@ != id,
    decreases cs.len() - from,
{
    if from < cs.len() {
        lemma_config_idx_none(cs, id, from + 1);
    }
}

impl DbState {
    /// The position of the playlist row for `id`, if there is one.
    fn find_playlist(&self, id: &str) -> (r: Option<usize>)
        ensures
            match r {
                Some(i) => playlist_idx(self.playlists@, id@, 0) == Some(i as int) && i
                    < self.playlists@.len() && self.playlists@[i as int].playlist_id@ == id@,
                None => playlist_idx(self.playlists@, id@, 0) is None,
            },
    {
        let n = self.playlists.len();
        let mut i: usize = 0;
        loop
            invariant
                i <= n,
                n == self.playlists@.len(),
                playlist_idx(self.playlists@, id@, 0) == playlist_idx(
                    self.playlists@,
                    id@,
                    i as int,
                ),
            decreases n - i,
        {
            if i >= n {
                return None;
            }
            if crate::text::str_eq(self.playlists[i].playlist_id.as_str(), id) {
                return Some(i);
            }
            i = i + 1;
        }
    }

    /// The position of the configuration row for `id`, if there is one.
    fn find_config(&self, id: &str) -> (r: Option<usize>)
        ensures
            match r {
                Some(i) => config_idx(self.playlist_configs@, id@, 0) == Some(i as int) && i
                    < self.playlist_configs@.len() && self.playlist_configs@[i as int].playlist_id@
                    == id@,
                None => config_idx(self.playlist_configs@, id@, 0) is None,
            },
    {
        let n = self.playlist_configs.len();
        let mut i: usize = 0;
        loop
            invariant
                i <= n,
                n == self.playlist_configs@.len(),
                config_idx(self.playlist_configs@, id@, 0) == config_idx(
                    self.playlist_configs@,
                    id@,
                    i as int,
                ),
            decreases n - i,
        {
            if i >= n {
                return None;
            }
            if crate::text::str_eq(self.playlist_configs[i].playlist_id.as_str(), id) {
                return Some(i);
            }
            i = i + 1;
        }
    }

    /// The stored playlist with the given key, entries included.
    pub fn try_get_playlist(&self, playlist_id: &str) -> (r: Option<Playlist>)
        ensures
            match playlist_idx(self.playlists@, playlist_id@, 0) {
                Some(i) => r matches Some(p) && p@ =~~= self.playlists@[i]@,
                None => r is None,
            },
    {
        match self.find_playlist(playlist_id) {
            Some(i) => Some(clone_playlist(&self.playlists[i])),
            None => None,
        }
    }

    /// Replaces the stored playlist with the given key in one atomic step:
    /// afterwards the row set for that key is exactly the new playlist and
    /// its entries, and every other playlist is unchanged. There is no
    /// intermediate state with the old rows deleted and the new ones not yet
    /// inserted.
    pub fn set_playlist(&mut self, playlist: &Playlist)
        requires
            old(self).wf(),
            positions_are_indices(*playlist),
        ensures
            final(self).wf(),
            match playlist_idx(old(self).playlists@, playlist.playlist_id@, 0) {
                Some(i) => {
                    &&& final(self).playlists@.len() == old(self).playlists@.len()
                    &&& final(self).playlists@[i]@ =~~= playlist@
                    &&& forall|k: int|
                        0 <= k < old(self).playlists@.len() && k != i ==> (
                        #[trigger] final(self).playlists@[k]) == old(self).playlists@[k]
                },
                None => {
                    &&& final(self).playlists@.len() == old(self).playlists@.len() + 1
                    &&& final(self).playlists@.last()@ =~~= playlist@
                    &&& forall|k: int|
                        0 <= k < old(self).playlists@.len() ==> (
                        #[trigger] final(self).playlists@[k]) == old(self).playlists@[k]
                },
            },
            final(self).videos == old(self).videos,
            final(self).playlist_configs == old(self).playlist_configs,
            final(self).ytdata == old(self).ytdata,
            final(self).brainz_rows == old(self).brainz_rows,
            final(self).auth == old(self).auth,
            final(self).users == old(self).users,
            final(self).kvp == old(self).kvp,
    {
        let copy = clone_playlist(playlist);
        match self.find_playlist(playlist.playlist_id.as_str()) {
            Some(i) => {
                self.playlists[i] = copy;
                proof {
                    assert forall|a: int, b: int|
                        0 <= a < b < final(self).playlists@.len() implies (
                    #[trigger] final(self).playlists@[a]).playlist_id@ != (
                    #[trigger] final(self).playlists@[b]).playlist_id@ by {
                        assert(old(self).playlists@[a].playlist_id@ != old(
                            self,
                        ).playlists@[b].playlist_id@);
                    }
                    assert(final(self).playlists@[i as int].playlist_id@
                        == playlist.playlist_id@);
                    assert forall|k: int|
                        0 <= k < final(self).playlists@.len() implies positions_are_indices(
                        #[trigger] final(self).playlists@[k]) by {
                        if k != i as int {
                            assert(final(self).playlists@[k] == old(self).playlists@[k]);
                        } else {
                            assert(forall|q: int|
                                0 <= q < copy.items@.len() ==> (#[trigger] copy.items@[q])@
                                    == playlist.items@[q]@);
                        }
                    }
                }
            },
            None => {
                proof {
                    lemma_playlist_idx_none(self.playlists@, playlist.playlist_id@, 0);
                }
                self.playlists.push(copy);
                proof {
                    assert forall|k: int|
                        0 <= k < final(self).playlists@.len() implies positions_are_indices(
                        #[trigger] final(self).playlists@[k]) by {
                        if k < old(self).playlists@.len() {
                            assert(final(self).playlists@[k] == old(self).playlists@[k]);
                        }
                    }
                }
            },
        }
    }

    /// Stamps the fetch time of the stored playlist with the given key.
    pub fn update_playlist_fetch_time(&mut self, playlist_id: &str, fetch_time: SqlSystemTime)
        requires
            old(self).wf(),
        ensures
            final(self).wf(),
            match playlist_idx(old(self).playlists@, playlist_id@, 0) {
                Some(i) => {
                    &&& final(self).playlists@.len() == old(self).playlists@.len()
                    &&& final(self).playlists@[i]@ =~~= PlaylistView {
                        fetch_time,
                        ..old(self).playlists@[i]@
                    }
                    &&& forall|k: int|
                        0 <= k < old(self).playlists@.len() && k != i ==> (
                        #[trigger] final(self).playlists@[k]) == old(self).playlists@[k]
                },
                None => final(self).playlists@ == old(self).playlists@,
            },
            final(self).videos == old(self).videos,
            final(self).playlist_configs == old(self).playlist_configs,
            final(self).ytdata == old(self).ytdata,
            final(self).brainz_rows == old(self).brainz_rows,
            final(self).auth == old(self).auth,
            final(self).users == old(self).users,
            final(self).kvp == old(self).kvp,
    {
        match self.find_playlist(playlist_id) {
            Some(i) => {
                let mut p = clone_playlist(&self.playlists[i]);
                p.fetch_time = fetch_time;
                self.playlists[i] = p;
                proof {
                    assert forall|a: int, b: int|
                        0 <= a < b < final(self).playlists@.len() implies (
                    #[trigger] final(self).playlists@[a]).playlist_id@ != (
                    #[trigger] final(self).playlists@[b]).playlist_id@ by {
                        assert(old(self).playlists@[a].playlist_id@ != old(
                            self,
                        ).playlists@[b].playlist_id@);
                    }
                    assert forall|k: int|
                        0 <= k < final(self).playlists@.len() implies positions_are_indices(
                        #[trigger] final(self).playlists@[k]) by {
                        if k != i as int {
                            assert(final(self).playlists@[k] == old(self).playlists@[k]);
                        } else {
                            assert(forall|q: int|
                                0 <= q < final(self).playlists@[k].items@.len() ==> (
                                #[trigger] final(self).playlists@[k].items@[q])@ == old(
                                    self,
                                ).playlists@[k].items@[q]@);
                        }
                    }
                }
            },
            None => {},
        }
    }

    /// All playlist configurations, in stored order.
    pub fn get_playlist_config(&self) -> (r: Vec<PlaylistConfig>)
        ensures
            r@.len() == self.playlist_configs@.len(),
            forall|k: int|
                0 <= k < r@.len() ==> (#[trigger] r@[k])@ == self.playlist_configs@[k]@,
    {
        let mut r: Vec<PlaylistConfig> = Vec::new();
        let n = self.playlist_configs.len();
        for i in 0..n
            invariant
                n == self.playlist_configs@.len(),
                r@.len() == i,
                forall|k: int|
                    0 <= k < i ==> (#[trigger] r@[k])@ == self.playlist_configs@[k]@,
        {
            r.push(clone_playlist_config(&self.playlist_configs[i]));
        }
        r
    }

    /// Writes a playlist configuration: replaced or appended.
    pub fn add_playlist_config(&mut self, playlist_config: &PlaylistConfig)
        requires
            old(self).wf(),
        ensures
            final(self).wf(),
            match config_idx(old(self).playlist_configs@, playlist_config.playlist_id@, 0) {
                Some(i) => {
                    &&& final(self).playlist_configs@.len() == old(self).playlist_configs@.len()
                    &&& final(self).playlist_configs@[i]@ == playlist_config@
                    &&& forall|k: int|
                        0 <= k < old(self).playlist_configs@.len() && k != i ==> (
                        #[trigger] final(self).playlist_configs@[k]) == old(
                            self,
                        ).playlist_configs@[k]
                },
                None => {
                    &&& final(self).playlist_configs@.len() == old(self).playlist_configs@.len()
                        + 1
                    &&& final(self).playlist_configs@.last()@ == playlist_config@
                    &&& forall|k: int|
                        0 <= k < old(self).playlist_configs@.len() ==> (
                        #[trigger] final(self).playlist_configs@[k]) == old(
                            self,
                        ).playlist_configs@[k]
                },
            },
            final(self).videos == old(self).videos,
            final(self).playlists == old(self).playlists,
            final(self).ytdata == old(self).ytdata,
            final(self).brainz_rows == old(self).brainz_rows,
            final(self).auth == old(self).auth,
            final(self).users == old(self).users,
            final(self).kvp == old(self).kvp,
    {
        let copy = clone_playlist_config(playlist_config);
        match self.find_config(playlist_config.playlist_id.as_str()) {
            Some(i) => {
                self.playlist_configs[i] = copy;
                proof {
                    assert forall|a: int, b: int|
                        0 <= a < b < final(self).playlist_configs@.len() implies (
                    #[trigger] final(self).playlist_configs@[a]).playlist_id@ != (
                    #[trigger] final(self).playlist_configs@[b]).playlist_id@ by {
                        assert(old(self).playlist_configs@[a].playlist_id@ != old(
                            self,
                        ).playlist_configs@[b].playlist_id@);
                    }
                }
            },
            None => {
                proof {
                    lemma_config_idx_none(
                        self.playlist_configs@,
                        playlist_config.playlist_id@,
                        0,
                    );
                }
                self.playlist_configs.push(copy);
            },
        }
    }

    /// Removes a playlist configuration.
    pub fn delete_playlist_config(&mut self, playlist_id: &str)
        requires
            old(self).wf(),
        ensures
            final(self).wf(),
            match config_idx(old(self).playlist_configs@, playlist_id@, 0) {
                Some(i) => final(self).playlist_configs@ =~= old(self).playlist_configs@.remove(i),
                None => final(self).playlist_configs@ == old(self).playlist_configs@,
            },
            final(self).videos == old(self).videos,
            final(self).playlists == old(self).playlists,
            final(self).ytdata == old(self).ytdata,
            final(self).brainz_rows == old(self).brainz_rows,
            final(self).auth == old(self).auth,
            final(self).users == old(self).users,
            final(self).kvp == old(self).kvp,
    {
        match self.find_config(playlist_id) {
            Some(i) => {
                self.playlist_configs.remove(i);
                proof {
                    assert forall|a: int, b: int|
                        0 <= a < b < final(self).playlist_configs@.len() implies (
                    #[trigger] final(self).playlist_configs@[a]).playlist_id@ != (
                    #[trigger] final(self).playlist_configs@[b]).playlist_id@ by {
                        let pa = if a < i as int { a } else { a + 1 };
                        let pb = if b < i as int { b } else { b + 1 };
                        assert(final(self).playlist_configs@[a] == old(
                            self,
                        ).playlist_configs@[pa]);
                        assert(final(self).playlist_configs@[b] == old(
                            self,
                        ).playlist_configs@[pb]);
                        assert(old(self).playlist_configs@[pa].playlist_id@ != old(
                            self,
                        ).playlist_configs@[pb].playlist_id@);
                    }
                }
            },
            None => {},
        }
    }
}


/// Whether an item still needs the tagger: not yet fetched, or fetched and
/// not yet categorized.
pub open spec fn is_unprocessed(v: VideoStatus) -> bool {
    v.fetch_status == FetchStatus::NotFetched || v.fetch_status == FetchStatus::Fetched
}

/// One reindex step: the item, if stored and categorized, is set back to
/// fetched; anything else is untouched.
pub open spec fn spec_reindex_one(vs: Seq<VideoStatus>, id: Seq<char>) -> Seq<VideoStatus> {
    match video_idx(vs, id, 0) {
        None => vs,
        Some(i) => if vs[i].fetch_status == FetchStatus::Categorized {
            vs.update(i, VideoStatus { fetch_status: FetchStatus::Fetched, ..vs[i] })
        } else {
            vs
        },
    }
}

/// The reindex pass applied to a list of keys, in order.
pub open spec fn spec_reindex(vs: Seq<VideoStatus>, ids: Seq<Seq<char>>) -> Seq<VideoStatus>
    decreases ids.len(),
{
    if ids.len() == 0 {
        vs
    } else {
        spec_reindex(spec_reindex_one(vs, ids[0]), ids.drop_first())
    }
}

/// Whether the item for `id` exists and carries a media-server identifier.
pub open spec fn has_jelly_id(vs: Seq<VideoStatus>, id: Seq<char>) -> bool {
    match video_idx(vs, id, 0) {
        Some(i) => vs[i].jelly_id is Some,
        None => false,
    }
}

impl DbState {
    /// The stored operator query override of one item.
    pub fn get_track_query_override(&self, video_id: &str) -> (r: Option<BrainzMultiSearch>)
        ensures
            match video_idx(self.videos@, video_id@, 0) {
                Some(i) => match self.videos@[i].override_query {
                    Some(ref q) => r matches Some(rq) && rq@ == q@,
                    None => r is None,
                },
                None => r is None,
            },
    {
        match self.find_video(video_id) {
            Some(i) => {
                proof {
                    lemma_video_idx_bounds(self.videos@, video_id@, 0);
                }
                match &self.videos[i].override_query {
                    Some(q) => Some(clone_multisearch(q)),
                    None => None,
                }
            },
            None => None,
        }
    }

    /// The stored operator result override of one item.
    pub fn get_track_result_override(&self, video_id: &str) -> (r: Option<BrainzMetadata>)
        ensures
            match video_idx(self.videos@, video_id@, 0) {
                Some(i) => match self.videos@[i].override_result {
                    Some(ref m) => r matches Some(rm) && rm@ =~~= m@,
                    None => r is None,
                },
                None => r is None,
            },
    {
        match self.find_video(video_id) {
            Some(i) => {
                proof {
                    lemma_video_idx_bounds(self.videos@, video_id@, 0);
                }
                match &self.videos[i].override_result {
                    Some(m) => Some(clone_metadata(m)),
                    None => None,
                }
            },
            None => None,
        }
    }

    /// All stored items, in stored order.
    pub fn get_all_videos(&self) -> (r: Vec<VideoStatus>)
        ensures
            r@.len() == self.videos@.len(),
            forall|k: int| 0 <= k < r@.len() ==> (#[trigger] r@[k])@ =~~= self.videos@[k]@,
    {
        let mut r: Vec<VideoStatus> = Vec::new();
        let n = self.videos.len();
        for i in 0..n
            invariant
                n == self.videos@.len(),
                r@.len() == i,
                forall|k: int| 0 <= k < i ==> (#[trigger] r@[k])@ =~~= self.videos@[k]@,
        {
            r.push(clone_video_status(&self.videos[i]));
        }
        r
    }

    /// The keys of all stored items, in stored order.
    pub fn get_all_ids(&self) -> (r: Vec<String>)
        ensures
            r@.len() == self.videos@.len(),
            forall|k: int| 0 <= k < r@.len() ==> (#[trigger] r@[k])@ == self.videos@[k].video_id@,
    {
        let mut r: Vec<String> = Vec::new();
        let n = self.videos.len();
        for i in 0..n
            invariant
                n == self.videos@.len(),
                r@.len() == i,
                forall|k: int|
                    0 <= k < i ==> (#[trigger] r@[k])@ == self.videos@[k].video_id@,
        {
            r.push(self.videos[i].video_id.clone());
        }
        r
    }

    /// The pipeline state of one item.
    pub fn get_video_fetch_status(&self, video_id: &str) -> (r: Option<FetchStatus>)
        ensures
            match video_idx(self.videos@, video_id@, 0) {
                Some(i) => r == Some(self.videos@[i].fetch_status),
                None => r is None,
            },
    {
        match self.find_video(video_id) {
            Some(i) => {
                proof {
                    lemma_video_idx_bounds(self.videos@, video_id@, 0);
                }
                Some(self.videos[i].fetch_status)
            },
            None => None,
        }
    }

    /// The keys of the items the tagger still has to process: those in the
    /// not-fetched or fetched states, in stored order.
    pub fn get_all_unprocessed_ids(&self) -> (r: Vec<String>)
        ensures
            r.deep_view() =~~= self.videos@.filter(|v: VideoStatus| is_unprocessed(v)).map_values(
                |v: VideoStatus| v.video_id@,
            ),
    {
        let ghost p = |v: VideoStatus| is_unprocessed(v);
        let mut r: Vec<String> = Vec::new();
        let n = self.videos.len();
        for i in 0..n
            invariant
                p == (|v: VideoStatus| is_unprocessed(v)),
                n == self.videos@.len(),
                r.deep_view() =~~= self.videos@.take(i as int).filter(p).map_values(
                    |v: VideoStatus| v.video_id@,
                ),
        {
            let ghost pre = r.deep_view();
            let st = self.videos[i].fetch_status;
            if st.code() == 0 || st.code() == 1 {
                r.push(self.videos[i].video_id.clone());
            }
            proof {
                reveal(Seq::filter);
                assert(self.videos@.take(i + 1).drop_last() =~= self.videos@.take(i as int));
                assert(self.videos@.take(i + 1).last() == self.videos@[i as int]);
                if p(self.videos@[i as int]) {
                    assert(r.deep_view() =~~= pre.push(self.videos@[i as int].video_id@));
                    assert(self.videos@.take(i + 1).filter(p) == self.videos@.take(
                        i as int,
                    ).filter(p).push(self.videos@[i as int]));
                    assert(r.deep_view() =~~= self.videos@.take(i + 1).filter(p).map_values(
                        |v: VideoStatus| v.video_id@,
                    ));
                } else {
                    assert(self.videos@.take(i + 1).filter(p) == self.videos@.take(
                        i as int,
                    ).filter(p));
                    assert(r.deep_view() =~~= self.videos@.take(i + 1).filter(p).map_values(
                        |v: VideoStatus| v.video_id@,
                    ));
                }
            }
        }
        proof {
            assert(self.videos@.take(n as int) =~= self.videos@);
        }
        r
    }

    /// Puts the named categorized items back into the fetched state, so the
    /// tagger reprocesses them; other items and states are untouched.
    pub fn set_videos_reindex(&mut self, video_ids: &Vec<String>)
        requires
            old(self).wf(),
        ensures
            final(self).wf(),
            final(self).videos@ == spec_reindex(old(self).videos@, video_ids.deep_view()),
            final(self).playlists == old(self).playlists,
            final(self).playlist_configs == old(self).playlist_configs,
            final(self).ytdata == old(self).ytdata,
            final(self).brainz_rows == old(self).brainz_rows,
            final(self).auth == old(self).auth,
            final(self).users == old(self).users,
            final(self).kvp == old(self).kvp,
    {
        let n = video_ids.len();
        let ghost ids = video_ids.deep_view();
        proof {
            assert(ids.skip(0) =~= ids);
        }
        for i in 0..n
            invariant
                self.wf(),
                n == video_ids@.len(),
                ids == video_ids.deep_view(),
                ids.len() == n,
                forall|k: int| 0 <= k < n ==> ids[k] == (#[trigger] video_ids@[k])@,
                spec_reindex(old(self).videos@, ids) == spec_reindex(
                    self.videos@,
                    ids.skip(i as int),
                ),
                self.playlists == old(self).playlists,
                self.playlist_configs == old(self).playlist_configs,
                self.ytdata == old(self).ytdata,
                self.brainz_rows == old(self).brainz_rows,
                self.auth == old(self).auth,
                self.users == old(self).users,
                self.kvp == old(self).kvp,
        {
            let ghost pre = self.videos@;
            match self.find_video(video_ids[i].as_str()) {
                Some(vi) => {
                    proof {
                        lemma_video_idx_bounds(self.videos@, video_ids@[i as int]@, 0);
                    }
                    if self.videos[vi].fetch_status.code() == 4 {
                        self.videos[vi].fetch_status = FetchStatus::Fetched;
                        proof {
                            assert(self.videos@ =~= pre.update(
                                vi as int,
                                VideoStatus { fetch_status: FetchStatus::Fetched, ..pre[vi as int] },
                            ));
                            assert(self.videos@ == spec_reindex_one(pre, ids[i as int]));
                            assert forall|a: int, b: int|
                                0 <= a < b < self.videos@.len() implies (
                            #[trigger] self.videos@[a]).video_id@ != (
                            #[trigger] self.videos@[b]).video_id@ by {
                                assert(pre[a].video_id@ != pre[b].video_id@);
                            }
                        }
                    }
                },
                None => {},
            }
            proof {
                assert(ids.skip(i as int)[0] == ids[i as int]);
                assert(ids.skip(i as int).drop_first() =~= ids.skip(i + 1));
                assert(spec_reindex(pre, ids.skip(i as int)) == spec_reindex(
                    spec_reindex_one(pre, ids[i as int]),
                    ids.skip(i + 1),
                ));
            }
        }
        proof {
            assert(ids.skip(n as int) =~= Seq::<Seq<char>>::empty());
        }
    }

    /// Updates the media-server identifier of one item; whether a row was
    /// updated.
    pub fn set_jellyfin_id(&mut self, video_id: &str, jelly_id: &str) -> (r: bool)
        requires
            old(self).wf(),
        ensures
            final(self).wf(),
            match video_idx(old(self).videos@, video_id@, 0) {
                Some(i) => {
                    &&& r
                    &&& final(self).videos@.len() == old(self).videos@.len()
                    &&& final(self).videos@[i]@ =~~= crate::models::VideoStatusView {
                        jelly_id: Some(jelly_id@),
                        ..old(self).videos@[i]@
                    }
                    &&& forall|k: int|
                        0 <= k < old(self).videos@.len() && k != i ==> (
                        #[trigger] final(self).videos@[k]) == old(self).videos@[k]
                },
                None => !r && final(self).videos@ == old(self).videos@,
            },
            final(self).playlists == old(self).playlists,
            final(self).playlist_configs == old(self).playlist_configs,
            final(self).ytdata == old(self).ytdata,
            final(self).brainz_rows == old(self).brainz_rows,
            final(self).auth == old(self).auth,
            final(self).users == old(self).users,
            final(self).kvp == old(self).kvp,
    {
        match self.find_video(video_id) {
            Some(i) => {
                proof {
                    lemma_video_idx_bounds(self.videos@, video_id@, 0);
                }
                let mut row = clone_video_status(&self.videos[i]);
                row.jelly_id = Some(String::from_str(jelly_id));
                self.videos[i] = row;
                proof {
                    lemma_video_keys_unchanged(old(self).videos@, final(self).videos@);
                }
                true
            },
            None => false,
        }
    }
}


/// The media-server identifier of the item for `id`, if the item exists and
/// has one.
pub open spec fn jelly_of(vs: Seq<VideoStatus>, id: Seq<char>) -> Option<Seq<char>> {
    match video_idx(vs, id, 0) {
        Some(i) => match vs[i].jelly_id {
            Some(j) => Some(j@),
            None => None,
        },
        None => None,
    }
}

/// Whether one playlist entry belongs in the mirror work list: not yet
/// mirrored, its item categorized, and its media-server identifier as the
/// filter asks.
pub open spec fn needs_mirror(vs: Seq<VideoStatus>, it: PlaylistItem, has_jid: Option<bool>) -> bool {
    &&& it.jelly_status != JellyStatus::Synced
    &&& match video_idx(vs, it.video_id@, 0) {
        Some(i) => vs[i].fetch_status == FetchStatus::Categorized && match has_jid {
            Some(true) => vs[i].jelly_id is Some,
            Some(false) => vs[i].jelly_id is None,
            None => true,
        },
        None => false,
    }
}

/// The mirror work row of one playlist entry.
pub open spec fn mirror_row(
    vs: Seq<VideoStatus>,
    pid: Seq<char>,
    it: PlaylistItem,
) -> crate::models::JellySyncStatusView {
    let vi = video_idx(vs, it.video_id@, 0).unwrap();
    crate::models::JellySyncStatusView {
        playlist_id: pid,
        video_id: it.video_id@,
        fetch_status: vs[vi].fetch_status,
        jelly_status: it.jelly_status,
        jelly_id: crate::models::opt_view(vs[vi].jelly_id),
    }
}

/// The mirror work rows of one stored playlist, in entry order.
pub open spec fn mirror_rows_of(
    vs: Seq<VideoStatus>,
    pid: Seq<char>,
    items: Seq<PlaylistItem>,
    has_jid: Option<bool>,
) -> Seq<crate::models::JellySyncStatusView> {
    items.filter(|it: PlaylistItem| needs_mirror(vs, it, has_jid)).map_values(
        |it: PlaylistItem| mirror_row(vs, pid, it),
    )
}

/// Whether one configuration row contributes to the mirror pass: enabled,
/// paired with a media-server playlist, and its playlist stored.
pub open spec fn config_mirrors(s: DbState, c: PlaylistConfig) -> bool {
    c.enabled && c.jelly_playlist_id is Some && playlist_idx(s.playlists@, c.playlist_id@, 0)
        is Some
}

/// The whole mirror work list, configuration by configuration from `ci` on.
pub open spec fn mirror_rows(s: DbState, has_jid: Option<bool>, ci: int) -> Seq<
    crate::models::JellySyncStatusView,
>
    decreases s.playlist_configs@.len() - ci,
{
    if ci < 0 || ci >= s.playlist_configs@.len() {
        Seq::empty()
    } else {
        let c = s.playlist_configs@[ci];
        let head = if config_mirrors(s, c) {
            let pi = playlist_idx(s.playlists@, c.playlist_id@, 0).unwrap();
            mirror_rows_of(s.videos@, c.playlist_id@, s.playlists@[pi].items@, has_jid)
        } else {
            Seq::empty()
        };
        head + mirror_rows(s, has_jid, ci + 1)
    }
}

impl DbState {
    /// The entries of one stored playlist that belong in the mirror work
    /// list, joined with their item state, playlist-entry order kept.
    fn mirror_rows_of_playlist(&self, pi: usize, has_jid_present: bool, has_jid_filter: bool)
        -> (r: Vec<JellySyncStatus>)
        requires
            pi < self.playlists@.len(),
        ensures
            ({
                let pid = self.playlists@[pi as int].playlist_id@;
                let items = self.playlists@[pi as int].items@;
                let hj = if has_jid_present {
                    Some(has_jid_filter)
                } else {
                    None::<bool>
                };
                r@.len() == mirror_rows_of(self.videos@, pid, items, hj).len() && (forall|k: int|
                    0 <= k < r@.len() ==> (#[trigger] r@[k])@ =~~= mirror_rows_of(
                        self.videos@,
                        pid,
                        items,
                        hj,
                    )[k])
            }),
    {
        let ghost pid = self.playlists@[pi as int].playlist_id@;
        let ghost items = self.playlists@[pi as int].items@;
        let ghost hj = if has_jid_present { Some(has_jid_filter) } else { None::<bool> };
        let ghost p = |it: PlaylistItem| needs_mirror(self.videos@, it, hj);
        let ghost f = |it: PlaylistItem| mirror_row(self.videos@, pid, it);
        let mut r: Vec<JellySyncStatus> = Vec::new();
        let n = self.playlists[pi].items.len();
        for k in 0..n
            invariant
                pi < self.playlists@.len(),
                pid == self.playlists@[pi as int].playlist_id@,
                items == self.playlists@[pi as int].items@,
                hj == if has_jid_present { Some(has_jid_filter) } else { None::<bool> },
                p == (|it: PlaylistItem| needs_mirror(self.videos@, it, hj)),
                f == (|it: PlaylistItem| mirror_row(self.videos@, pid, it)),
                n == items.len(),
                r@.len() == items.take(k as int).filter(p).map_values(f).len(),
                forall|q: int|
                    0 <= q < r@.len() ==> (#[trigger] r@[q])@ =~~= items.take(k as int).filter(
                        p,
                    ).map_values(f)[q],
        {
            let it_status;
            let it_vid;
            {
                let it = &self.playlists[pi].items[k];
                it_status = it.jelly_status;
                it_vid = it.video_id.clone();
            }
            let ghost pre_len = r@.len();
            if it_status.code() != 1 {
                match self.find_video(it_vid.as_str()) {
                    Some(vi) => {
                        proof {
                            lemma_video_idx_bounds(self.videos@, it_vid@, 0);
                        }
                        let v = &self.videos[vi];
                        let passes = if v.fetch_status.code() == 4 {
                            if has_jid_present {
                                if has_jid_filter {
                                    v.jelly_id.is_some()
                                } else {
                                    v.jelly_id.is_none()
                                }
                            } else {
                                true
                            }
                        } else {
                            false
                        };
                        if passes {
                            let row = JellySyncStatus {
                                playlist_id: self.playlists[pi].playlist_id.clone(),
                                video_id: it_vid,
                                fetch_status: v.fetch_status,
                                jelly_status: it_status,
                                jelly_id: crate::models::clone_opt_string(&v.jelly_id),
                            };
                            proof {
                                assert(p(items[k as int]));
                                assert(row@ =~~= f(items[k as int]));
                            }
                            r.push(row);
                        }
                    },
                    None => {},
                }
            }
            proof {
                reveal(Seq::filter);
                assert(items.take(k + 1).drop_last() =~= items.take(k as int));
                assert(items.take(k + 1).last() == items[k as int]);
                if p(items[k as int]) {
                    assert(items.take(k + 1).filter(p) == items.take(k as int).filter(p).push(
                        items[k as int],
                    ));
                    assert(r@.len() == pre_len + 1);
                } else {
                    assert(items.take(k + 1).filter(p) == items.take(k as int).filter(p));
                    assert(r@.len() == pre_len);
                }
            }
        }
        proof {
            assert(items.take(n as int) =~= items);
        }
        r
    }

    /// The mirror work list: for each enabled configuration paired with a
    /// media-server playlist, the stored playlist's entries that are not yet
    /// mirrored and whose item is categorized, optionally filtered by
    /// whether the item already has a media-server identifier.
    pub fn get_jellyfin_unsynced(&self, has_jid: Option<bool>) -> (r: Vec<JellySyncStatus>)
        ensures
            ({
                let rows = mirror_rows(*self, has_jid, 0);
                r@.len() == rows.len() && (forall|k: int|
                    0 <= k < r@.len() ==> (#[trigger] r@[k])@ =~~= rows[k])
            }),
    {
        let (has_jid_present, has_jid_filter) = match has_jid {
            Some(b) => (true, b),
            None => (false, false),
        };
        let mut r: Vec<JellySyncStatus> = Vec::new();
        let n = self.playlist_configs.len();
        for ci in 0..n
            invariant
                has_jid == if has_jid_present { Some(has_jid_filter) } else { None::<bool> },
                n == self.playlist_configs@.len(),
                Seq::new(r@.len() as nat, |k: int| r@[k]@) + mirror_rows(*self, has_jid, ci as int)
                    =~~= mirror_rows(*self, has_jid, 0),
        {
            let ghost pre_views = Seq::new(r@.len() as nat, |k: int| r@[k]@);
            let c = &self.playlist_configs[ci];
            let qualifies = c.enabled && c.jelly_playlist_id.is_some();
            let ghost pre = r@;
            if qualifies {
                match self.find_playlist(c.playlist_id.as_str()) {
                    Some(pi) => {
                        let mut rows = self.mirror_rows_of_playlist(
                            pi,
                            has_jid_present,
                            has_jid_filter,
                        );
                        let m = rows.len();
                        let ghost rowsv = Seq::new(rows@.len(), |q: int| rows@[q]@);
                        let mut q: usize = 0;
                        while q < m
                            invariant
                                q <= m,
                                m == rows@.len(),
                                rowsv.len() == m,
                                forall|w: int|
                                    q <= w < m ==> (#[trigger] rows@[w])@ =~~= rowsv[w],
                                r@.len() == pre.len() + q,
                                forall|w: int|
                                    0 <= w < pre.len() ==> (#[trigger] r@[w]) == pre[w],
                                forall|w: int|
                                    pre.len() <= w < r@.len() ==> (#[trigger] r@[w])@ =~~= rowsv[w
                                        - pre.len()],
                            decreases m - q,
                        {
                            let mut row = JellySyncStatus {
                                playlist_id: String::new(),
                                video_id: String::new(),
                                fetch_status: FetchStatus::NotFetched,
                                jelly_status: JellyStatus::NotSynced,
                                jelly_id: None,
                            };
                            std::mem::swap(&mut row, &mut rows[q]);
                            r.push(row);
                            q = q + 1;
                        }
                        proof {
                            let c0 = self.playlist_configs@[ci as int];
                            assert(config_mirrors(*self, c0));
                            let rows0 = mirror_rows_of(
                                self.videos@,
                                c0.playlist_id@,
                                self.playlists@[playlist_idx(
                                    self.playlists@,
                                    c0.playlist_id@,
                                    0,
                                ).unwrap()].items@,
                                has_jid,
                            );
                            assert(rowsv.len() == rows0.len());
                            assert(rowsv =~~= rows0);
                            assert(mirror_rows(*self, has_jid, ci as int) =~~= rows0 + mirror_rows(
                                *self,
                                has_jid,
                                ci + 1,
                            ));
                            assert(Seq::new(r@.len() as nat, |k: int| r@[k]@) =~~= pre_views
                                + rowsv);
                            assert(Seq::new(r@.len() as nat, |k: int| r@[k]@) + mirror_rows(
                                *self,
                                has_jid,
                                ci + 1,
                            ) =~~= mirror_rows(*self, has_jid, 0));
                        }
                    },
                    None => {
                        proof {
                            let c0 = self.playlist_configs@[ci as int];
                            assert(!config_mirrors(*self, c0));
                            assert(mirror_rows(*self, has_jid, ci as int) =~~= mirror_rows(
                                *self,
                                has_jid,
                                ci + 1,
                            ));
                            assert(Seq::new(r@.len() as nat, |k: int| r@[k]@) + mirror_rows(
                                *self,
                                has_jid,
                                ci + 1,
                            ) =~~= mirror_rows(*self, has_jid, 0));
                        }
                    },
                }
            } else {
                proof {
                    let c0 = self.playlist_configs@[ci as int];
                    assert(!config_mirrors(*self, c0));
                    assert(mirror_rows(*self, has_jid, ci as int) =~~= mirror_rows(
                        *self,
                        has_jid,
                        ci + 1,
                    ));
                    assert(Seq::new(r@.len() as nat, |k: int| r@[k]@) + mirror_rows(
                        *self,
                        has_jid,
                        ci + 1,
                    ) =~~= mirror_rows(*self, has_jid, 0));
                }
            }
        }
        proof {
            assert(mirror_rows(*self, has_jid, n as int) =~~= Seq::empty());
            assert(Seq::new(r@.len() as nat, |k: int| r@[k]@) + mirror_rows(*self, has_jid, n as int)
                =~~= Seq::new(r@.len() as nat, |k: int| r@[k]@));
        }
        r
    }

    /// The media-server identifiers of one playlist's entries whose items
    /// have one, in entry order — under well-formedness, playback order.
    pub fn get_jellyfin_playlist_item_ids(&self, youtube_playlist_id: &str) -> (r: Vec<String>)
        ensures
            match playlist_idx(self.playlists@, youtube_playlist_id@, 0) {
                Some(pi) => r.deep_view() =~~= self.playlists@[pi].items@.filter_map(
                    |it: PlaylistItem| jelly_of(self.videos@, it.video_id@),
                ),
                None => r@.len() == 0,
            },
    {
        let pi = match self.find_playlist(youtube_playlist_id) {
            Some(pi) => pi,
            None => {
                return Vec::new();
            },
        };
        let ghost f = |it: PlaylistItem| jelly_of(self.videos@, it.video_id@);
        let ghost items = self.playlists@[pi as int].items@;
        let mut r: Vec<String> = Vec::new();
        let n = self.playlists[pi].items.len();
        for k in 0..n
            invariant
                pi < self.playlists@.len(),
                items == self.playlists@[pi as int].items@,
                f == (|it: PlaylistItem| jelly_of(self.videos@, it.video_id@)),
                n == items.len(),
                r.deep_view() =~~= items.take(k as int).filter_map(f),
        {
            let it_vid = self.playlists[pi].items[k].video_id.clone();
            let ghost pre = r.deep_view();
            proof {
                assert(items.take(k + 1).drop_last() =~= items.take(k as int));
                assert(items.take(k + 1).last() == items[k as int]);
            }
            match self.find_video(it_vid.as_str()) {
                Some(vi) => {
                    proof {
                        lemma_video_idx_bounds(self.videos@, it_vid@, 0);
                    }
                    match &self.videos[vi].jelly_id {
                        Some(j) => {
                            let jc = j.clone();
                            let ghost jv = jc@;
                            r.push(jc);
                            proof {
                                assert(f(items[k as int]) == Some(jv));
                                assert(items.take(k + 1).filter_map(f) =~~= items.take(
                                    k as int,
                                ).filter_map(f) + seq![jv]);
                                assert(r.deep_view() =~~= pre + seq![jv]);
                            }
                        },
                        None => {
                            proof {
                                assert(f(items[k as int]) is None);
                                assert(items.take(k + 1).filter_map(f) =~~= items.take(
                                    k as int,
                                ).filter_map(f));
                            }
                        },
                    }
                },
                None => {
                    proof {
                        assert(f(items[k as int]) is None);
                        assert(items.take(k + 1).filter_map(f) =~~= items.take(
                            k as int,
                        ).filter_map(f));
                    }
                },
            }
        }
        proof {
            assert(items.take(n as int) =~= items);
        }
        r
    }

    /// Marks the entries of one playlist whose items carry a media-server
    /// identifier as mirrored; everything else is untouched.
    pub fn set_jellyfin_items_to_synced(&mut self, youtube_playlist_id: &str)
        requires
            old(self).wf(),
        ensures
            final(self).wf(),
            match playlist_idx(old(self).playlists@, youtube_playlist_id@, 0) {
                Some(pi) => {
                    &&& final(self).playlists@.len() == old(self).playlists@.len()
                    &&& forall|k: int|
                        0 <= k < old(self).playlists@.len() && k != pi ==> (
                        #[trigger] final(self).playlists@[k]) == old(self).playlists@[k]
                    &&& final(self).playlists@[pi].items@.len() == old(
                        self,
                    ).playlists@[pi].items@.len()
                    &&& forall|q: int|
                        0 <= q < old(self).playlists@[pi].items@.len() ==> (
                        #[trigger] final(self).playlists@[pi].items@[q]) == (
                        if has_jelly_id(
                            old(self).videos@,
                            old(self).playlists@[pi].items@[q].video_id@,
                        ) {
                            PlaylistItem {
                                jelly_status: JellyStatus::Synced,
                                ..old(self).playlists@[pi].items@[q]
                            }
                        } else {
                            old(self).playlists@[pi].items@[q]
                        })
                    &&& final(self).playlists@[pi].playlist_id == old(
                        self,
                    ).playlists@[pi].playlist_id
                    &&& final(self).playlists@[pi].etag == old(self).playlists@[pi].etag
                    &&& final(self).playlists@[pi].total_results == old(
                        self,
                    ).playlists@[pi].total_results
                    &&& final(self).playlists@[pi].fetch_time == old(
                        self,
                    ).playlists@[pi].fetch_time
                },
                None => final(self).playlists@ == old(self).playlists@,
            },
            final(self).videos == old(self).videos,
            final(self).playlist_configs == old(self).playlist_configs,
            final(self).ytdata == old(self).ytdata,
            final(self).brainz_rows == old(self).brainz_rows,
            final(self).auth == old(self).auth,
            final(self).users == old(self).users,
            final(self).kvp == old(self).kvp,
    {
        let pi = match self.find_playlist(youtube_playlist_id) {
            Some(pi) => pi,
            None => {
                return ;
            },
        };
        let n = self.playlists[pi].items.len();
        for q in 0..n
            invariant
                self.wf(),
                pi < self.playlists@.len(),
                pi < old(self).playlists@.len(),
                n == self.playlists@[pi as int].items@.len(),
                n == old(self).playlists@[pi as int].items@.len(),
                self.playlists@.len() == old(self).playlists@.len(),
                forall|k: int|
                    0 <= k < old(self).playlists@.len() && k != pi as int ==> (
                    #[trigger] self.playlists@[k]) == old(self).playlists@[k],
                forall|w: int|
                    0 <= w < q ==> (#[trigger] self.playlists@[pi as int].items@[w]) == (
                    if has_jelly_id(
                        old(self).videos@,
                        old(self).playlists@[pi as int].items@[w].video_id@,
                    ) {
                        PlaylistItem {
                            jelly_status: JellyStatus::Synced,
                            ..old(self).playlists@[pi as int].items@[w]
                        }
                    } else {
                        old(self).playlists@[pi as int].items@[w]
                    }),
                forall|w: int|
                    q <= w < n ==> (#[trigger] self.playlists@[pi as int].items@[w]) == old(
                        self,
                    ).playlists@[pi as int].items@[w],
                self.playlists@[pi as int].playlist_id == old(
                    self,
                ).playlists@[pi as int].playlist_id,
                self.playlists@[pi as int].etag == old(self).playlists@[pi as int].etag,
                self.playlists@[pi as int].total_results == old(
                    self,
                ).playlists@[pi as int].total_results,
                self.playlists@[pi as int].fetch_time == old(self).playlists@[pi as int].fetch_time,
                self.videos == old(self).videos,
                self.playlist_configs == old(self).playlist_configs,
                self.ytdata == old(self).ytdata,
                self.brainz_rows == old(self).brainz_rows,
                self.auth == old(self).auth,
                self.users == old(self).users,
                self.kvp == old(self).kvp,
        {
            let vid = self.playlists[pi].items[q].video_id.clone();
            let has = match self.find_video(vid.as_str()) {
                Some(vi) => {
                    proof {
                        lemma_video_idx_bounds(self.videos@, vid@, 0);
                    }
                    self.videos[vi].jelly_id.is_some()
                },
                None => false,
            };
            if has {
                let ghost pre = self.playlists@;
                self.playlists[pi].items[q].jelly_status = JellyStatus::Synced;
                proof {
                    assert(self.playlists@[pi as int].items@ =~= pre[pi as int].items@.update(
                        q as int,
                        PlaylistItem {
                            jelly_status: JellyStatus::Synced,
                            ..pre[pi as int].items@[q as int]
                        },
                    ));
                    assert forall|a: int, b: int| 0 <= a < b < self.playlists@.len() implies (
                    #[trigger] self.playlists@[a]).playlist_id@ != (
                    #[trigger] self.playlists@[b]).playlist_id@ by {
                        assert(pre[a].playlist_id@ != pre[b].playlist_id@);
                    }
                    assert forall|k: int|
                        0 <= k < self.playlists@.len() implies positions_are_indices(
                        #[trigger] self.playlists@[k]) by {
                        assert(positions_are_indices(pre[k]));
                        if k == pi as int {
                            assert(forall|w: int|
                                0 <= w < self.playlists@[k].items@.len() ==> (
                                #[trigger] self.playlists@[k].items@[w]).position == pre[
                                    k
                                ].items@[w].position);
                        }
                    }
                }
            }
        }
    }
}

} // verus!
