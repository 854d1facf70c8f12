//! The library manager: destination paths, name sanitization, the rules for
//! deleting files and pruning directories, and the model of the library's
//! files with their embedded identifying comments. Paths are handled as
//! component lists; the filesystem calls that realize a decision live
//! outside and follow exactly what these functions return.

use vstd::prelude::*;
use crate::brainz::BrainzMetadata;
use crate::models::{FetchStatus, VideoStatus};
use crate::store::{video_idx, DbState};
use crate::time::SqlSystemTime;

verus! {

/// What the tag rewrite and the filing step carry: the item's identifier
/// and its resolved metadata.
#[derive(Debug, Clone)]
pub struct MetadataTags {
    pub youtube_id: String,
    pub brainz: BrainzMetadata,
}

/// The views of a component path.
pub open spec fn path_view(p: Seq<String>) -> Seq<Seq<char>> {
    p.map_values(|c: String| c@)
}

/// Whether `p` lies strictly below `base`: `base` is a proper prefix of its
/// components.
pub open spec fn strictly_below(base: Seq<Seq<char>>, p: Seq<Seq<char>>) -> bool {
    base.len() < p.len() && p.take(base.len() as int) == base
}

/// The configured base directories: the library root, the extractor's
/// working directory, and optionally a read-only migration root.
#[derive(Debug, Clone)]
pub struct MsPaths {
    pub music: Vec<String>,
    pub temp: Vec<String>,
    pub migrate: Option<Vec<String>>,
}

impl MsPaths {
    /// Whether `p` lies strictly below one of the configured bases.
    pub open spec fn spec_is_sub_file(self, p: Seq<Seq<char>>) -> bool {
        ||| strictly_below(path_view(self.music@), p)
        ||| strictly_below(path_view(self.temp@), p)
        ||| match self.migrate {
            Some(m) => strictly_below(path_view(m@), p),
            None => false,
        }
    }

    /// The configured base directories, in order: music, temp, and the
    /// migration root if configured.
    pub fn get_base_paths(&self) -> (r: Vec<Vec<String>>)
        ensures
            match self.migrate {
                Some(ref m) => r@.len() == 3 && path_view(r@[2]@) == path_view(m@),
                None => r@.len() == 2,
            },
            path_view(r@[0]@) == path_view(self.music@),
            path_view(r@[1]@) == path_view(self.temp@),
    {
        let mut r: Vec<Vec<String>> = Vec::new();
        r.push(clone_path(&self.music));
        r.push(clone_path(&self.temp));
        match &self.migrate {
            Some(m) => {
                r.push(clone_path(m));
            },
            None => {},
        }
        proof {
            assert(path_view(r@[0]@) =~= path_view(self.music@));
            assert(path_view(r@[1]@) =~= path_view(self.temp@));
        }
        r
    }

    /// Whether `path` lies strictly below one of the configured bases —
    /// never a base itself, never outside them.
    pub fn is_sub_file(&self, path: &Vec<String>) -> (r: bool)
        ensures
            r == self.spec_is_sub_file(path_view(path@)),
    {
        if path_below(&self.music, path) {
            return true;
        }
        if path_below(&self.temp, path) {
            return true;
        }
        match &self.migrate {
            Some(m) => path_below(m, path),
            None => false,
        }
    }
}

/// A copy of a component path.
pub fn clone_path(p: &Vec<String>) -> (r: Vec<String>)
    ensures
        path_view(r@) == path_view(p@),
        r@.len() == p@.len(),
        forall|k: int| 0 <= k < p@.len() ==> (#[trigger] r@[k])@ == p@[k]@,
{
    let mut r: Vec<String> = Vec::new();
    for i in 0..p.len()
        invariant
            r@.len() == i,
            forall|k: int| 0 <= k < i ==> (#[trigger] r@[k])@ == p@[k]@,
    {
        r.push(p[i].clone());
    }
    proof {
        assert(path_view(r@) =~= path_view(p@));
    }
    r
}

/// Whether `p` lies strictly below `base`, component by component.
pub fn path_below(base: &Vec<String>, p: &Vec<String>) -> (r: bool)
    ensures
        r == strictly_below(path_view(base@), path_view(p@)),
{
    if p.len() <= base.len() {
        proof {
            assert(path_view(base@).len() == base@.len());
            assert(path_view(p@).len() == p@.len());
        }
        return false;
    }
    for i in 0..base.len()
        invariant
            p@.len() > base@.len(),
            forall|k: int| 0 <= k < i ==> p@[k]@ == base@[k]@,
    {
        if !crate::text::str_eq(p[i].as_str(), base[i].as_str()) {
            proof {
                let bl = base@.len() as int;
                let ii = i as int;
                assert(path_view(p@).take(bl)[ii] != path_view(base@)[ii]);
            }
            return false;
        }
    }
    proof {
        assert(path_view(p@).take(base@.len() as int) =~= path_view(base@));
    }
    true
}

/// The parent of a component path.
pub fn parent_path(p: &Vec<String>) -> (r: Option<Vec<String>>)
    ensures
        p@.len() == 0 ==> r is None,
        p@.len() > 0 ==> (r matches Some(q) && path_view(q@) == path_view(p@).drop_last()
            && q@.len() == p@.len() - 1),
{
    if p.len() == 0 {
        return None;
    }
    let mut r = clone_path(p);
    r.pop();
    proof {
        assert(path_view(r@) =~= path_view(p@).drop_last());
    }
    Some(r)
}

/// Whether the deletion of `path` is allowed at all: only files strictly
/// below a configured base may be deleted.
pub fn delete_file_allowed(paths: &MsPaths, path: &Vec<String>) -> (r: bool)
    ensures
        r == paths.spec_is_sub_file(path_view(path@)),
{
    paths.is_sub_file(path)
}

/// The directories that the cleanup pass may remove after deleting `file`:
/// the chain of its parents, innermost first, cut off at the first one that
/// is not strictly below a configured base. Every returned directory lies
/// strictly below a base — the pass never removes a base itself nor
/// anything outside the bases. The caller removes them in order, stopping
/// at the first one that is not empty or cannot be removed.
pub fn cleanup_candidates(paths: &MsPaths, file: &Vec<String>) -> (r: Vec<Vec<String>>)
    ensures
        forall|k: int|
            0 <= k < r@.len() ==> paths.spec_is_sub_file(path_view((#[trigger] r@[k])@)),
{
    let mut r: Vec<Vec<String>> = Vec::new();
    if !paths.is_sub_file(file) {
        return r;
    }
    let mut cur = match parent_path(file) {
        Some(p) => p,
        None => {
            return r;
        },
    };
    loop
        invariant
            forall|k: int|
                0 <= k < r@.len() ==> paths.spec_is_sub_file(path_view((#[trigger] r@[k])@)),
        decreases cur@.len(),
    {
        if !paths.is_sub_file(&cur) {
            return r;
        }
        r.push(clone_path(&cur));
        cur = match parent_path(&cur) {
            Some(p) => p,
            None => {
                return r;
            },
        };
    }
}

/// A name for what the file-name sanitizer returns on one input, with the
/// fixed options of this library: a 64-character limit, filesystem-,
/// Windows- and URL-safe, whitespace normalized, leading and trailing
/// spaces and full stops trimmed, and the placeholder `song` when nothing
/// remains.
pub uninterp spec fn sanitized_of(s: Seq<char>) -> Seq<char>;

/// Sanitizes one path component.
///
/// Relies on sanitise_file_name::sanitise_with_options: the result depends
/// on the input alone; it is never empty (the placeholder steps in), and it
/// contains no path separator.
#[verifier::external_body]
pub fn sanitize_default(s: &str) -> (r: String)
    ensures
        r@ == sanitized_of(s@),
        r@.len() > 0,
        forall|k: int| 0 <= k < r@.len() ==> r@[k] != '/',
{
    let options = sanitise_file_name::Options {
        length_limit: 64,
        extension_cleverness: false,
        most_fs_safe: true,
        windows_safe: true,
        url_safe: true,
        normalise_whitespace: true,
        trim_spaces_and_full_stops: true,
        trim_more_punctuation: true,
        six_measures_of_barley: "song",
        ..sanitise_file_name::Options::DEFAULT
    };
    sanitise_file_name::sanitise_with_options(s, &options)
}

/// The canonical library location of a tagged file:
/// `<music>/<artist>/<album-or-title>/<title>.<ext>`, every component
/// sanitized; a missing album falls back to the sanitized title.
pub fn library_destination(music: &Vec<String>, tags: &MetadataTags, ext: &str) -> (r: Vec<String>)
    ensures
        r@.len() == music@.len() + 3,
        path_view(r@).take(music@.len() as int) == path_view(music@),
        r@[music@.len() as int]@ == sanitized_of(
            crate::text::spec_join(tags.brainz@.artist, "; "@),
        ),
        r@[music@.len() + 1int]@ == match tags.brainz@.album {
            Some(a) => sanitized_of(a),
            None => sanitized_of(tags.brainz@.title),
        },
        r@[music@.len() + 2int]@ == sanitized_of(tags.brainz@.title) + "."@ + ext@,
{
    let mut r = clone_path(music);
    let joined = crate::text::join_strings(&tags.brainz.artist, "; ");
    let clean_artist = sanitize_default(joined.as_str());
    let clean_title = sanitize_default(tags.brainz.title.as_str());
    let clean_album = match &tags.brainz.album {
        Some(a) => sanitize_default(a.as_str()),
        None => clean_title.clone(),
    };
    let mut file_name = clean_title.clone();
    file_name.append(".");
    file_name.append(ext);
    r.push(clean_artist);
    r.push(clean_album);
    r.push(file_name);
    proof {
        assert(tags.brainz.artist.deep_view() =~= tags.brainz@.artist);
        assert(path_view(r@).take(music@.len() as int) =~= path_view(music@));
    }
    r
}

/// One file of the library model: its path and the identifying comment its
/// tags carry, if any.
#[derive(Debug, Clone)]
pub struct FileEntry {
    pub path: Vec<String>,
    pub youtube_id: Option<String>,
}

/// The library and temporary trees as the pipeline sees them: a set of
/// files, each with at most one embedded identifying comment, no two files
/// carrying the same one.
#[derive(Debug)]
pub struct LibraryModel {
    pub files: Vec<FileEntry>,
}

/// The first file carrying identifying comment `id`, at or after `from`.
pub open spec fn file_with_id(fs: Seq<FileEntry>, id: Seq<char>, from: int) -> Option<int>
    decreases fs.len() - from,
{
    if from < 0 || from >= fs.len() {
        None
    } else if fs[from].youtube_id matches Some(y) && y@ == id {
        Some(from)
    } else {
        file_with_id(fs, id, from + 1)
    }
}

impl LibraryModel {
    /// No two files share a path, and no two carry the same identifying
    /// comment.
    pub open spec fn wf(self) -> bool {
        &&& forall|i: int, j: int|
            0 <= i < j < self.files@.len() ==> path_view(
                (#[trigger] self.files@[i]).path@,
            ) != path_view((#[trigger] self.files@[j]).path@)
        &&& forall|i: int, j: int|
            0 <= i < j < self.files@.len() ==> !((#[trigger] self.files@[i]).youtube_id matches
                Some(a) && ((#[trigger] self.files@[j]).youtube_id matches Some(b) && a@ == b@))
    }

    /// Exactly one file carries the identifying comment `id`.
    pub open spec fn exactly_one_file(self, id: Seq<char>) -> bool {
        exists|i: int|
            0 <= i < self.files@.len() && ((#[trigger] self.files@[i]).youtube_id matches Some(y)
                && y@ == id) && (forall|j: int|
                0 <= j < self.files@.len() && j != i ==> !((#[trigger] self.files@[j]).youtube_id
                    matches Some(y) && y@ == id))
    }

    /// An empty model.
    pub fn new() -> (r: Self)
        ensures
            r.wf(),
            r.files@.len() == 0,
    {
        LibraryModel { files: Vec::new() }
    }
}


/// Whether a file entry carries the identifying comment `id`.
pub open spec fn carries_id(f: FileEntry, id: Seq<char>) -> bool {
    f.youtube_id matches Some(y) && y@ == id
}

impl LibraryModel {
    /// In a well-formed model, any file carrying `id` is the only one.
    proof fn lemma_one_file_from_member(self, id: Seq<char>, i: int)
        requires
            self.wf(),
            0 <= i < self.files@.len(),
            carries_id(self.files@[i], id),
        ensures
            self.exactly_one_file(id),
    {
        assert forall|j: int| 0 <= j < self.files@.len() && j != i implies !((
        #[trigger] self.files@[j]).youtube_id matches Some(y) && y@ == id) by {
            if j < i {
                assert(!(self.files@[j].youtube_id matches Some(a) && (
                self.files@[i].youtube_id matches Some(b) && a@ == b@)));
            } else {
                assert(!(self.files@[i].youtube_id matches Some(a) && (
                self.files@[j].youtube_id matches Some(b) && a@ == b@)));
            }
        }
        assert(0 <= i < self.files@.len() && ((#[trigger] self.files@[i]).youtube_id matches Some(
            y,
        ) && y@ == id) && (forall|j: int|
            0 <= j < self.files@.len() && j != i ==> !((#[trigger] self.files@[j]).youtube_id
                matches Some(y) && y@ == id)));
    }

    /// The filing step as the library sees it: the freshly tagged file at
    /// `src` — the only one carrying `id` — moves to `dest`, replacing
    /// whatever untagged file stood there. Afterwards exactly one file
    /// carries `id`, and every file carrying another comment is untouched.
    pub fn categorize_file(&mut self, src: &Vec<String>, dest: &Vec<String>, id: &str)
        requires
            old(self).wf(),
            forall|i: int|
                0 <= i < old(self).files@.len() && carries_id(
                    #[trigger] old(self).files@[i],
                    id@,
                ) ==> path_view(old(self).files@[i].path@) == path_view(src@),
            forall|i: int|
                0 <= i < old(self).files@.len() && path_view(
                    (#[trigger] old(self).files@[i]).path@,
                ) == path_view(dest@) ==> (old(self).files@[i].youtube_id is None || carries_id(
                    old(self).files@[i],
                    id@,
                )),
            forall|i: int|
                0 <= i < old(self).files@.len() && path_view(
                    (#[trigger] old(self).files@[i]).path@,
                ) == path_view(src@) ==> (old(self).files@[i].youtube_id is None || carries_id(
                    old(self).files@[i],
                    id@,
                )),
        ensures
            final(self).wf(),
            final(self).exactly_one_file(id@),
            forall|j: int|
                0 <= j < old(self).files@.len() && ((#[trigger] old(self).files@[j]).youtube_id
                    matches Some(y) && y@ != id@) ==> final(self).has_entry(old(self).files@[j]),
            forall|k: int|
                0 <= k < final(self).files@.len() && ((#[trigger] final(self).files@[k]).youtube_id
                    matches Some(y) && y@ != id@) ==> old(self).has_entry(final(self).files@[k]),
    {
        let mut source: Vec<FileEntry> = Vec::new();
        std::mem::swap(&mut source, &mut self.files);
        let ghost orig = source@;
        let mut kept: Vec<FileEntry> = Vec::new();
        let n = source.len();
        let mut i: usize = 0;
        while i < n
            invariant
                i <= n,
                n == orig.len(),
                source@.len() == n,
                forall|j: int| i <= j < n ==> (#[trigger] source@[j]) == orig[j],
                forall|a: int, b: int|
                    0 <= a < b < kept@.len() ==> path_view(
                        (#[trigger] kept@[a]).path@,
                    ) != path_view((#[trigger] kept@[b]).path@),
                forall|a: int, b: int|
                    0 <= a < b < kept@.len() ==> !((#[trigger] kept@[a]).youtube_id matches Some(
                        x,
                    ) && ((#[trigger] kept@[b]).youtube_id matches Some(y) && x@ == y@)),
                forall|k: int|
                    0 <= k < kept@.len() ==> exists|j: int|
                        0 <= j < i && (#[trigger] kept@[k]) == orig[j],
                forall|k: int|
                    0 <= k < kept@.len() ==> path_view((#[trigger] kept@[k]).path@) != path_view(
                        src@,
                    ) && path_view(kept@[k].path@) != path_view(dest@),
                forall|j: int|
                    0 <= j < i && path_view((#[trigger] orig[j]).path@) != path_view(src@)
                        && path_view(orig[j].path@) != path_view(dest@) ==> exists|k: int|
                        0 <= k < kept@.len() && (#[trigger] kept@[k]) == orig[j],
                forall|a: int, b: int|
                    0 <= a < b < orig.len() ==> path_view(
                        (#[trigger] orig[a]).path@,
                    ) != path_view((#[trigger] orig[b]).path@),
                forall|a: int, b: int|
                    0 <= a < b < orig.len() ==> !((#[trigger] orig[a]).youtube_id matches Some(
                        x,
                    ) && ((#[trigger] orig[b]).youtube_id matches Some(y) && x@ == y@)),
            decreases n - i,
        {
            let at_src = path_eq(&source[i].path, src);
            let at_dest = path_eq(&source[i].path, dest);
            let ghost kept_before = kept@;
            if !at_src && !at_dest {
                let mut item = FileEntry { path: Vec::new(), youtube_id: None };
                std::mem::swap(&mut item, &mut source[i]);
                kept.push(item);
            }
            proof {
                assert forall|j: int|
                    0 <= j < i + 1 && path_view((#[trigger] orig[j]).path@) != path_view(src@)
                        && path_view(orig[j].path@) != path_view(dest@) implies exists|k: int|
                    0 <= k < kept@.len() && (#[trigger] kept@[k]) == orig[j] by {
                    if j < i {
                        let k = choose|k: int|
                            0 <= k < kept_before.len() && (#[trigger] kept_before[k]) == orig[j];
                        assert(kept@[k] == orig[j]);
                    } else {
                        assert(kept@[kept@.len() - 1] == orig[i as int]);
                    }
                }
            }
            i = i + 1;
        }
        let ghost kept_pre = kept@;
        let entry = FileEntry { path: clone_path(dest), youtube_id: Some(String::from_str(id)) };
        kept.push(entry);
        self.files = kept;
        proof {
            let m = self.files@.len() - 1;
            assert(carries_id(self.files@[m], id@));
            assert(path_view(self.files@[m].path@) =~= path_view(dest@));
            self.lemma_one_file_from_member(id@, m);
            assert forall|j: int|
                0 <= j < orig.len() && ((#[trigger] orig[j]).youtube_id matches Some(y) && y@
                    != id@) implies self.has_entry(orig[j]) by {
                assert(path_view(orig[j].path@) != path_view(src@));
                assert(path_view(orig[j].path@) != path_view(dest@));
                let k = choose|k: int| 0 <= k < kept_pre.len() && (#[trigger] kept_pre[k]) == orig[j];
                assert(self.files@[k] == orig[j]);
            }
            assert forall|k: int|
                0 <= k < self.files@.len() && ((#[trigger] self.files@[k]).youtube_id matches Some(
                    y,
                ) && y@ != id@) implies old(self).has_entry(self.files@[k]) by {
                assert(k < kept_pre.len());
                let j = choose|j: int| 0 <= j < orig.len() && (#[trigger] kept_pre[j + 0]) == orig[j] && kept_pre[k] == orig[j];
                let jj = choose|j: int| 0 <= j < orig.len() && kept_pre[k] == (#[trigger] orig[j]);
                assert(old(self).files@[jj] == self.files@[k]);
            }
        }
    }

    /// Whether an entry equal to `f` is present.
    pub open spec fn has_entry(self, f: FileEntry) -> bool {
        exists|k: int| 0 <= k < self.files@.len() && (#[trigger] self.files@[k]) == f
    }

    /// The deletion step as the library sees it: the file carrying `id`, if
    /// any, disappears; nothing else changes.
    pub fn remove_file_with_id(&mut self, id: &str) -> (removed: Option<Vec<String>>)
        requires
            old(self).wf(),
        ensures
            final(self).wf(),
            forall|j: int|
                0 <= j < final(self).files@.len() ==> !carries_id(
                    #[trigger] final(self).files@[j],
                    id@,
                ),
            forall|j: int|
                0 <= j < old(self).files@.len() && !carries_id(
                    #[trigger] old(self).files@[j],
                    id@,
                ) ==> final(self).has_entry(old(self).files@[j]),
            forall|k: int|
                0 <= k < final(self).files@.len() ==> old(self).has_entry(
                    #[trigger] final(self).files@[k],
                ),
    {
        let mut source: Vec<FileEntry> = Vec::new();
        std::mem::swap(&mut source, &mut self.files);
        let ghost orig = source@;
        let mut kept: Vec<FileEntry> = Vec::new();
        let mut removed: Option<Vec<String>> = None;
        let n = source.len();
        let mut i: usize = 0;
        while i < n
            invariant
                i <= n,
                n == orig.len(),
                source@.len() == n,
                forall|j: int| i <= j < n ==> (#[trigger] source@[j]) == orig[j],
                forall|a: int, b: int|
                    0 <= a < b < kept@.len() ==> path_view(
                        (#[trigger] kept@[a]).path@,
                    ) != path_view((#[trigger] kept@[b]).path@),
                forall|a: int, b: int|
                    0 <= a < b < kept@.len() ==> !((#[trigger] kept@[a]).youtube_id matches Some(
                        x,
                    ) && ((#[trigger] kept@[b]).youtube_id matches Some(y) && x@ == y@)),
                forall|k: int|
                    0 <= k < kept@.len() ==> exists|j: int|
                        0 <= j < i && (#[trigger] kept@[k]) == orig[j],
                forall|k: int| 0 <= k < kept@.len() ==> !carries_id(#[trigger] kept@[k], id@),
                forall|j: int|
                    0 <= j < i && !carries_id(#[trigger] orig[j], id@) ==> exists|k: int|
                        0 <= k < kept@.len() && (#[trigger] kept@[k]) == orig[j],
                forall|a: int, b: int|
                    0 <= a < b < orig.len() ==> path_view(
                        (#[trigger] orig[a]).path@,
                    ) != path_view((#[trigger] orig[b]).path@),
                forall|a: int, b: int|
                    0 <= a < b < orig.len() ==> !((#[trigger] orig[a]).youtube_id matches Some(
                        x,
                    ) && ((#[trigger] orig[b]).youtube_id matches Some(y) && x@ == y@)),
            decreases n - i,
        {
            let matches_id = match &source[i].youtube_id {
                Some(y) => crate::text::str_eq(y.as_str(), id),
                None => false,
            };
            let ghost kept_before = kept@;
            if matches_id {
                removed = Some(clone_path(&source[i].path));
            } else {
                let mut item = FileEntry { path: Vec::new(), youtube_id: None };
                std::mem::swap(&mut item, &mut source[i]);
                kept.push(item);
            }
            proof {
                assert forall|j: int|
                    0 <= j < i + 1 && !carries_id(#[trigger] orig[j], id@) implies exists|k: int|
                    0 <= k < kept@.len() && (#[trigger] kept@[k]) == orig[j] by {
                    if j < i {
                        let k = choose|k: int|
                            0 <= k < kept_before.len() && (#[trigger] kept_before[k]) == orig[j];
                        assert(kept@[k] == orig[j]);
                    } else {
                        assert(kept@[kept@.len() - 1] == orig[i as int]);
                    }
                }
            }
            i = i + 1;
        }
        self.files = kept;
        removed
    }
}

/// Whether two component paths are equal.
pub fn path_eq(a: &Vec<String>, b: &Vec<String>) -> (r: bool)
    ensures
        r == (path_view(a@) == path_view(b@)),
{
    if a.len() != b.len() {
        proof {
            assert(path_view(a@).len() != path_view(b@).len());
        }
        return false;
    }
    for i in 0..a.len()
        invariant
            a@.len() == b@.len(),
            forall|k: int| 0 <= k < i ==> a@[k]@ == b@[k]@,
    {
        if !crate::text::str_eq(a[i].as_str(), b[i].as_str()) {
            proof {
                assert(path_view(a@)[i as int] != path_view(b@)[i as int]);
            }
            return false;
        }
    }
    proof {
        assert(path_view(a@) =~= path_view(b@));
    }
    true
}


/// An entry-preserving step keeps exactly-one-ness: a well-formed model
/// that still holds an entry carrying `y` has exactly one.
proof fn lemma_exactly_one_from_entry(lib: LibraryModel, f: FileEntry, y: Seq<char>)
    requires
        lib.wf(),
        lib.has_entry(f),
        carries_id(f, y),
    ensures
        lib.exactly_one_file(y),
{
    let k = choose|k: int| 0 <= k < lib.files@.len() && (#[trigger] lib.files@[k]) == f;
    lib.lemma_one_file_from_member(y, k);
}

/// The end of one tagger pass over an item: the tagged file moves to its
/// library place and the item is categorized with its error cleared. The
/// invariant that every categorized item owns exactly one identified file
/// is preserved and established for this item.
pub fn finish_categorize(
    db: &mut DbState,
    lib: &mut LibraryModel,
    video_id: &str,
    src: &Vec<String>,
    dest: &Vec<String>,
    now: SqlSystemTime,
)
    requires
        old(db).wf(),
        old(lib).wf(),
        categorized_have_unique_files(*old(db), *old(lib)),
        video_idx(old(db).videos@, video_id@, 0) is Some,
        forall|i: int|
            0 <= i < old(lib).files@.len() && carries_id(#[trigger] old(lib).files@[i], video_id@)
                ==> path_view(old(lib).files@[i].path@) == path_view(src@),
        forall|i: int|
            0 <= i < old(lib).files@.len() && path_view((#[trigger] old(lib).files@[i]).path@)
                == path_view(dest@) ==> (old(lib).files@[i].youtube_id is None || carries_id(
                old(lib).files@[i],
                video_id@,
            )),
        forall|i: int|
            0 <= i < old(lib).files@.len() && path_view((#[trigger] old(lib).files@[i]).path@)
                == path_view(src@) ==> (old(lib).files@[i].youtube_id is None || carries_id(
                old(lib).files@[i],
                video_id@,
            )),
    ensures
        final(db).wf(),
        final(lib).wf(),
        categorized_have_unique_files(*final(db), *final(lib)),
        final(lib).exactly_one_file(video_id@),
        ({
            let i = video_idx(old(db).videos@, video_id@, 0).unwrap();
            final(db).videos@[i].fetch_status == FetchStatus::Categorized && final(db).videos@[i].last_error is None && final(db).videos@[i].last_update == Some(now)
        }),
{
    lib.categorize_file(src, dest, video_id);
    proof {
        crate::store::lemma_video_idx_bounds(db.videos@, video_id@, 0);
    }
    let mut status = match db.get_video(video_id) {
        Some(s) => s,
        None => {
            proof {
                assert(false);
            }
            unreached()
        },
    };
    crate::scheduler::apply_categorized(&mut status, now);
    db.set_full_track_status(&status);
    proof {
        let ghost i = video_idx(old(db).videos@, video_id@, 0).unwrap();
        assert(status.video_id@ == video_id@);
        assert(video_idx(old(db).videos@, status.video_id@, 0) == Some(i));
        assert(db.videos@[i]@ =~~= status@);
        assert forall|k: int|
            0 <= k < db.videos@.len() && (#[trigger] db.videos@[k]).fetch_status
                == FetchStatus::Categorized implies lib.exactly_one_file(db.videos@[k].video_id@) by {
            if k == i {
                assert(db.videos@[k].video_id@ == video_id@);
            } else {
                assert(db.videos@[k] == old(db).videos@[k]);
                if db.videos@[k].video_id@ == video_id@ {
                } else {
                    assert(old(lib).exactly_one_file(db.videos@[k].video_id@));
                    let w = choose|w: int|
                        0 <= w < old(lib).files@.len() && ((#[trigger] old(lib).files@[w]).youtube_id
                            matches Some(y) && y@ == db.videos@[k].video_id@) && (forall|j: int|
                            0 <= j < old(lib).files@.len() && j != w ==> !((
                            #[trigger] old(lib).files@[j]).youtube_id matches Some(y) && y@
                                == db.videos@[k].video_id@));
                    assert(lib.has_entry(old(lib).files@[w]));
                    lemma_exactly_one_from_entry(
                        *lib,
                        old(lib).files@[w],
                        db.videos@[k].video_id@,
                    );
                }
            }
        }
    }
}

/// The operator's delete command as the library and store see it: the
/// item's file disappears and the item is disabled. The categorized-items
/// invariant is preserved — a disabled item no longer claims a file, and
/// no other item's file is touched.
pub fn operator_delete(db: &mut DbState, lib: &mut LibraryModel, video_id: &str, now: SqlSystemTime)
    requires
        old(db).wf(),
        old(lib).wf(),
        categorized_have_unique_files(*old(db), *old(lib)),
    ensures
        final(db).wf(),
        final(lib).wf(),
        categorized_have_unique_files(*final(db), *final(lib)),
        match video_idx(old(db).videos@, video_id@, 0) {
            Some(i) => final(db).videos@[i].fetch_status == FetchStatus::Disabled && final(db).videos@[i].last_update == Some(now),
            None => final(db).videos == old(db).videos,
        },
        forall|j: int|
            0 <= j < final(lib).files@.len() ==> !carries_id(
                #[trigger] final(lib).files@[j],
                video_id@,
            ),
{
    let _removed = lib.remove_file_with_id(video_id);
    let mut status = match db.get_video(video_id) {
        Some(s) => s,
        None => {
            proof {
                crate::store::lemma_video_idx_none(db.videos@, video_id@, 0);
                assert forall|k: int|
                    0 <= k < db.videos@.len() && (#[trigger] db.videos@[k]).fetch_status
                        == FetchStatus::Categorized implies lib.exactly_one_file(
                    db.videos@[k].video_id@,
                ) by {
                    assert(db.videos@[k].video_id@ != video_id@);
                    lemma_delete_preserves_others(*old(lib), *lib, *old(db), video_id@, k);
                }
            }
            return ;
        },
    };
    proof {
        crate::store::lemma_video_idx_bounds(db.videos@, video_id@, 0);
    }
    status.fetch_status = FetchStatus::Disabled;
    status.update_at(now);
    db.set_full_track_status(&status);
    proof {
        let ghost i = video_idx(old(db).videos@, video_id@, 0).unwrap();
        assert(db.videos@[i]@ =~~= status@);
        assert forall|k: int|
            0 <= k < db.videos@.len() && (#[trigger] db.videos@[k]).fetch_status
                == FetchStatus::Categorized implies lib.exactly_one_file(db.videos@[k].video_id@) by {
            assert(k != i);
            assert(db.videos@[k] == old(db).videos@[k]);
            lemma_delete_preserves_others(*old(lib), *lib, *old(db), video_id@, k);
        }
    }
}

/// After removing the file for `id`, every other categorized item keeps its
/// one file.
proof fn lemma_delete_preserves_others(
    pre: LibraryModel,
    post: LibraryModel,
    db: DbState,
    id: Seq<char>,
    k: int,
)
    requires
        pre.wf(),
        post.wf(),
        categorized_have_unique_files(db, pre),
        0 <= k < db.videos@.len(),
        db.videos@[k].fetch_status == FetchStatus::Categorized,
        db.videos@[k].video_id@ != id,
        forall|j: int|
            0 <= j < pre.files@.len() && !carries_id(#[trigger] pre.files@[j], id) ==> post.has_entry(
                pre.files@[j],
            ),
    ensures
        post.exactly_one_file(db.videos@[k].video_id@),
{
    let y = db.videos@[k].video_id@;
    assert(pre.exactly_one_file(y));
    let w = choose|w: int|
        0 <= w < pre.files@.len() && ((#[trigger] pre.files@[w]).youtube_id matches Some(v) && v@
            == y) && (forall|j: int|
            0 <= j < pre.files@.len() && j != w ==> !((#[trigger] pre.files@[j]).youtube_id matches
                Some(v) && v@ == y));
    assert(!carries_id(pre.files@[w], id));
    assert(post.has_entry(pre.files@[w]));
    lemma_exactly_one_from_entry(post, pre.files@[w], y);
}


/// One entry of the in-memory lookup cache.
#[derive(Debug, Clone)]
pub struct CacheEntry {
    pub video_id: String,
    pub path: Vec<String>,
}

/// The first cache entry for `id`, at or after `from`.
pub open spec fn cache_idx(es: Seq<CacheEntry>, id: Seq<char>, from: int) -> Option<int>
    decreases es.len() - from,
{
    if from < 0 || from >= es.len() {
        None
    } else if es[from].video_id@ == id {
        Some(from)
    } else {
        cache_idx(es, id, from + 1)
    }
}

/// The in-memory map from item keys to library paths, rebuilt by scanning
/// when it goes stale.
#[derive(Debug)]
pub struct FileCache {
    pub lookup: Vec<CacheEntry>,
}

impl FileCache {
    /// Keys are unique.
    pub open spec fn wf(self) -> bool {
        forall|i: int, j: int|
            0 <= i < j < self.lookup@.len() ==> (#[trigger] self.lookup@[i]).video_id@ != (
            #[trigger] self.lookup@[j]).video_id@
    }

    /// An empty cache.
    pub fn new() -> (r: Self)
        ensures
            r.wf(),
            r.lookup@.len() == 0,
    {
        FileCache { lookup: Vec::new() }
    }

    /// The position of the entry for `id`, if there is one.
    fn find(&self, id: &str) -> (r: Option<usize>)
        ensures
            match r {
                Some(i) => cache_idx(self.lookup@, id@, 0) == Some(i as int) && i
                    < self.lookup@.len() && self.lookup@[i as int].video_id@ == id@,
                None => cache_idx(self.lookup@, id@, 0) is None,
            },
    {
        let n = self.lookup.len();
        let mut i: usize = 0;
        loop
            invariant
                i <= n,
                n == self.lookup@.len(),
                cache_idx(self.lookup@, id@, 0) == cache_idx(self.lookup@, id@, i as int),
            decreases n - i,
        {
            if i >= n {
                return None;
            }
            if crate::text::str_eq(self.lookup[i].video_id.as_str(), id) {
                return Some(i);
            }
            i = i + 1;
        }
    }

    /// The cached path of one item.
    pub fn get(&self, video_id: &str) -> (r: Option<Vec<String>>)
        ensures
            match cache_idx(self.lookup@, video_id@, 0) {
                Some(i) => r matches Some(p) && path_view(p@) == path_view(
                    self.lookup@[i].path@,
                ),
                None => r is None,
            },
    {
        match self.find(video_id) {
            Some(i) => Some(clone_path(&self.lookup[i].path)),
            None => None,
        }
    }

    /// Caches the path of one item: replaced or appended.
    pub fn insert(&mut self, video_id: &str, path: Vec<String>)
        requires
            old(self).wf(),
        ensures
            final(self).wf(),
            cache_idx(final(self).lookup@, video_id@, 0) matches Some(i) && path_view(
                final(self).lookup@[i].path@,
            ) == path_view(path@),
    {
        let entry = CacheEntry { video_id: String::from_str(video_id), path };
        match self.find(video_id) {
            Some(i) => {
                let ghost pre = self.lookup@;
                self.lookup[i] = entry;
                proof {
                    assert forall|a: int, b: int| 0 <= a < b < self.lookup@.len() implies (
                    #[trigger] self.lookup@[a]).video_id@ != (
                    #[trigger] self.lookup@[b]).video_id@ by {
                        assert(pre[a].video_id@ != pre[b].video_id@);
                    }
                    assert forall|k: int|
                        0 <= k < pre.len() implies (#[trigger] pre[k]).video_id@
                            == self.lookup@[k].video_id@ by {
                        if k != i as int {
                            assert(self.lookup@[k] == pre[k]);
                        }
                    }
                    lemma_cache_idx_same_keys(pre, self.lookup@, video_id@, 0);
                }
            },
            None => {
                let ghost pre = self.lookup@;
                self.lookup.push(entry);
                proof {
                    lemma_cache_idx_none(pre, video_id@, 0);
                    let m = self.lookup@.len() - 1;
                    assert forall|j: int|
                        0 <= j < m implies (#[trigger] self.lookup@[j]).video_id@ != video_id@ by {
                        assert(self.lookup@[j] == pre[j]);
                    }
                    lemma_cache_idx_exact(self.lookup@, video_id@, m);
                }
            },
        }
    }

    /// Drops the cached path of one item.
    pub fn remove(&mut self, video_id: &str)
        requires
            old(self).wf(),
        ensures
            final(self).wf(),
            cache_idx(final(self).lookup@, video_id@, 0) is None,
    {
        match self.find(video_id) {
            Some(i) => {
                let ghost pre = self.lookup@;
                self.lookup.remove(i);
                proof {
                    assert forall|a: int, b: int| 0 <= a < b < self.lookup@.len() implies (
                    #[trigger] self.lookup@[a]).video_id@ != (
                    #[trigger] self.lookup@[b]).video_id@ by {
                        let pa = if a < i as int { a } else { a + 1 };
                        let pb = if b < i as int { b } else { b + 1 };
                        assert(self.lookup@[a] == pre[pa]);
                        assert(self.lookup@[b] == pre[pb]);
                        assert(pre[pa].video_id@ != pre[pb].video_id@);
                    }
                    assert forall|k: int|
                        0 <= k < self.lookup@.len() implies (#[trigger] self.lookup@[k]).video_id@
                            != video_id@ by {
                        let pk = if k < i as int { k } else { k + 1 };
                        assert(self.lookup@[k] == pre[pk]);
                        if pk < i as int {
                            assert(pre[pk].video_id@ != pre[i as int].video_id@);
                        } else if pk > i as int {
                            assert(pre[i as int].video_id@ != pre[pk].video_id@);
                        }
                    }
                    lemma_cache_key_absent(self.lookup@, video_id@, 0);
                }
            },
            None => {},
        }
    }

    /// Empties the cache, before a rebuild.
    pub fn clear(&mut self)
        ensures
            final(self).wf(),
            final(self).lookup@.len() == 0,
    {
        self.lookup.clear();
    }

    /// How many items the cache knows.
    pub fn len(&self) -> (r: usize)
        ensures
            r == self.lookup@.len(),
    {
        self.lookup.len()
    }
}

proof fn lemma_cache_idx_none(es: Seq<CacheEntry>, id: Seq<char>, from: int)
    requires
        0 <= from,
        cache_idx(es, id, from) is None,
    ensures
        forall|k: int| from <= k < es.len() ==> (#[trigger] es[k]).video_id@ != id,
    decreases es.len() - from,
{
    if from < es.len() {
        lemma_cache_idx_none(es, id, from + 1);
    }
}

proof fn lemma_cache_idx_same_keys(a: Seq<CacheEntry>, b: Seq<CacheEntry>, id: Seq<char>, from: int)
    requires
        0 <= from,
        a.len() == b.len(),
        forall|k: int| 0 <= k < a.len() ==> (#[trigger] a[k]).video_id@ == b[k].video_id@,
    ensures
        cache_idx(a, id, from) == cache_idx(b, id, from),
    decreases a.len() - from,
{
    if from < a.len() {
        lemma_cache_idx_same_keys(a, b, id, from + 1);
    }
}

proof fn lemma_cache_idx_exact(es: Seq<CacheEntry>, id: Seq<char>, i: int)
    requires
        0 <= i < es.len(),
        es[i].video_id@ == id,
        forall|j: int| 0 <= j < i ==> (#[trigger] es[j]).video_id@ != id,
    ensures
        cache_idx(es, id, 0) == Some(i),
{
    lemma_cache_idx_exact_from(es, id, i, 0);
}

proof fn lemma_cache_idx_exact_from(es: Seq<CacheEntry>, id: Seq<char>, i: int, from: int)
    requires
        0 <= from <= i < es.len(),
        es[i].video_id@ == id,
        forall|j: int| from <= j < i ==> (#[trigger] es[j]).video_id@ != id,
    ensures
        cache_idx(es, id, from) == Some(i),
    decreases i - from,
{
    if from < i {
        lemma_cache_idx_exact_from(es, id, i, from + 1);
    }
}

proof fn lemma_cache_key_absent(es: Seq<CacheEntry>, id: Seq<char>, from: int)
    requires
        0 <= from,
        forall|k: int| 0 <= k < es.len() ==> (#[trigger] es[k]).video_id@ != id,
    ensures
        cache_idx(es, id, from) is None,
    decreases es.len() - from,
{
    if from < es.len() {
        lemma_cache_key_absent(es, id, from + 1);
    }
}

/// Whether a file's embedded identifying comment still names the item: the
/// cache trusts a hit only after this check.
pub fn check_file(tag: Option<&crate::tags::AudioTag>, video_id: &str) -> (r: bool)
    ensures
        match tag {
            Some(t) => r == (match crate::tags::comment_idx(
                t.comments@,
                crate::tags::spec_key_norm(t.format, "youtube_id"@),
                0,
            ) {
                Some(i) => t.comments@[i].values@.len() > 0 && t.comments@[i].values@[0]@
                    == video_id@,
                None => false,
            }),
            None => !r,
        },
{
    match tag {
        Some(t) => match crate::tags::read_youtube_id(t) {
            Some(y) => crate::text::str_eq(y.as_str(), video_id),
            None => false,
        },
        None => false,
    }
}

/// For every categorized item there is exactly one file whose embedded
/// identifying comment equals the item's key.
pub open spec fn categorized_have_unique_files(db: DbState, lib: LibraryModel) -> bool {
    forall|k: int|
        0 <= k < db.videos@.len() && (#[trigger] db.videos@[k]).fetch_status
            == FetchStatus::Categorized ==> lib.exactly_one_file(db.videos@[k].video_id@)
}

} // verus!
