//! The semantic audio-tag model: one set of fields over the five container
//! families, with each format's key conventions fixed here. Encoding a tag
//! into container bytes and decoding it back is the container libraries'
//! work and happens outside; this model is what those bytes must carry.

use vstd::prelude::*;
use crate::musicfiles::MetadataTags;
use crate::text;

verus! {

/// The closed error taxonomy of the tag layer.
#[derive(Debug, Clone, Copy, PartialEq, Eq, Structural)]
pub enum TagError {
    /// The file has no extension.
    NoFileExtension,
    /// The extension is not valid text.
    InvalidFileExtension,
    /// The extension names no supported container family.
    UnsupportedAudioFormat,
    /// A cover picture's mime type is not bmp, jpeg or png.
    InvalidImageFormat,
    /// A date string does not parse as a timestamp.
    TimestampParseError,
}

/// The five container families.
#[derive(Debug, Clone, Copy, PartialEq, Eq, Structural)]
pub enum TagFormat {
    Id3,
    VorbisFlac,
    Mp4,
    Opus,
    Ogg,
}

/// The container family behind a file extension.
pub open spec fn spec_format_of(ext: Seq<char>) -> Option<TagFormat> {
    if ext == "mp3"@ || ext == "wav"@ || ext == "aiff"@ {
        Some(TagFormat::Id3)
    } else if ext == "flac"@ {
        Some(TagFormat::VorbisFlac)
    } else if ext == "mp4"@ || ext == "m4a"@ || ext == "m4p"@ || ext == "m4b"@ || ext == "m4r"@
        || ext == "m4v"@ {
        Some(TagFormat::Mp4)
    } else if ext == "opus"@ {
        Some(TagFormat::Opus)
    } else if ext == "ogg"@ {
        Some(TagFormat::Ogg)
    } else {
        None
    }
}

/// The container family behind a file extension; an unknown extension is an
/// unsupported format.
pub fn format_from_extension(ext: &str) -> (r: Result<TagFormat, TagError>)
    ensures
        match spec_format_of(ext@) {
            Some(f) => r matches Ok(g) && g == f,
            None => r matches Err(e) && e == TagError::UnsupportedAudioFormat,
        },
{
    if text::str_eq(ext, "mp3") || text::str_eq(ext, "wav") || text::str_eq(ext, "aiff") {
        Ok(TagFormat::Id3)
    } else if text::str_eq(ext, "flac") {
        Ok(TagFormat::VorbisFlac)
    } else if text::str_eq(ext, "mp4") || text::str_eq(ext, "m4a") || text::str_eq(ext, "m4p")
        || text::str_eq(ext, "m4b") || text::str_eq(ext, "m4r") || text::str_eq(ext, "m4v") {
        Ok(TagFormat::Mp4)
    } else if text::str_eq(ext, "opus") {
        Ok(TagFormat::Opus)
    } else if text::str_eq(ext, "ogg") {
        Ok(TagFormat::Ogg)
    } else {
        Err(TagError::UnsupportedAudioFormat)
    }
}

/// A release date: a year, optionally a month, optionally a day.
#[derive(Debug, Clone, Copy, PartialEq, Eq, Structural)]
pub struct Timestamp {
    pub year: u32,
    pub month: Option<u8>,
    pub day: Option<u8>,
}

impl Timestamp {
    /// Four digits fit the year; a present month or day is a calendar one.
    pub open spec fn wf(self) -> bool {
        &&& self.year <= 9999
        &&& match self.month {
            Some(m) => 1 <= m <= 12,
            None => true,
        }
        &&& match self.day {
            Some(d) => 1 <= d <= 31,
            None => true,
        }
    }
}

/// The decimal digit character of a value below ten.
pub open spec fn digit(d: int) -> char {
    ((0x30 + d) as char)
}

/// A number below 10000 as four zero-padded digits.
pub open spec fn pad4(n: int) -> Seq<char> {
    seq![digit(n / 1000 % 10), digit(n / 100 % 10), digit(n / 10 % 10), digit(n % 10)]
}

/// A number below 100 as two zero-padded digits.
pub open spec fn pad2(n: int) -> Seq<char> {
    seq![digit(n / 10 % 10), digit(n % 10)]
}

/// A timestamp as the text-valued backends store it: `YYYY-MM-DD`, with an
/// absent month or day written as zero.
pub open spec fn spec_format_timestamp(t: Timestamp) -> Seq<char> {
    pad4(t.year as int) + seq!['-'] + pad2(
        match t.month {
            Some(m) => m as int,
            None => 0,
        },
    ) + seq!['-'] + pad2(
        match t.day {
            Some(d) => d as int,
            None => 0,
        },
    )
}

/// One decimal digit character for a value below ten.
fn digit_char(d: u32) -> (r: char)
    requires
        d < 10,
    ensures
        r == digit(d as int),
{
    ((0x30 + d) as u8) as char
}

/// A timestamp formatted as `YYYY-MM-DD`.
pub fn format_timestamp(t: &Timestamp) -> (r: String)
    requires
        t.wf(),
    ensures
        r@ == spec_format_timestamp(*t),
{
    let mut v: Vec<char> = Vec::new();
    let y = t.year;
    v.push(digit_char(y / 1000 % 10));
    v.push(digit_char(y / 100 % 10));
    v.push(digit_char(y / 10 % 10));
    v.push(digit_char(y % 10));
    v.push('-');
    let m: u32 = match t.month {
        Some(m) => m as u32,
        None => 0,
    };
    v.push(digit_char(m / 10 % 10));
    v.push(digit_char(m % 10));
    v.push('-');
    let d: u32 = match t.day {
        Some(d) => d as u32,
        None => 0,
    };
    v.push(digit_char(d / 10 % 10));
    v.push(digit_char(d % 10));
    proof {
        assert(v@ =~= spec_format_timestamp(*t));
    }
    text::string_from_chars(&v)
}

/// Whether a character is a decimal digit.
pub open spec fn is_digit(c: char) -> bool {
    '0' <= c && c <= '9'
}

/// The value of a digit character.
pub open spec fn digit_val(c: char) -> int {
    c as int - 0x30
}

/// The value of a sequence of digit characters.
pub open spec fn digits_val(s: Seq<char>) -> int
    decreases s.len(),
{
    if s.len() == 0 {
        0
    } else {
        digits_val(s.drop_last()) * 10 + digit_val(s.last())
    }
}

/// Whether every character of `s` is a digit.
pub open spec fn all_digits(s: Seq<char>) -> bool {
    forall|k: int| 0 <= k < s.len() ==> is_digit(#[trigger] s[k])
}

/// The timestamp a date string denotes, if it is well-shaped: `YYYY`,
/// `YYYY-MM` or `YYYY-MM-DD`, each field all digits, with a zero month or
/// day read as absent.
pub open spec fn spec_parse_timestamp(s: Seq<char>) -> Option<Timestamp> {
    let parts = text::spec_split(s, "-"@);
    if parts.len() == 1 && parts[0].len() == 4 && all_digits(parts[0]) {
        Some(Timestamp { year: digits_val(parts[0]) as u32, month: None, day: None })
    } else if parts.len() == 2 && parts[0].len() == 4 && all_digits(parts[0]) && parts[1].len() == 2
        && all_digits(parts[1]) {
        Some(
            Timestamp {
                year: digits_val(parts[0]) as u32,
                month: opt_field(digits_val(parts[1])),
                day: None,
            },
        )
    } else if parts.len() == 3 && parts[0].len() == 4 && all_digits(parts[0]) && parts[1].len() == 2
        && all_digits(parts[1]) && parts[2].len() == 2 && all_digits(parts[2]) {
        Some(
            Timestamp {
                year: digits_val(parts[0]) as u32,
                month: opt_field(digits_val(parts[1])),
                day: opt_field(digits_val(parts[2])),
            },
        )
    } else {
        None
    }
}

/// A zero calendar field read back as absent.
pub open spec fn opt_field(n: int) -> Option<u8> {
    if n == 0 {
        None
    } else {
        Some(n as u8)
    }
}

/// The value of a digit vector.
fn digits_value(v: &Vec<char>, start: usize, end: usize) -> (r: u32)
    requires
        start <= end,
        end as int <= v@.len(),
        end - start <= 4,
        all_digits(v@.subrange(start as int, end as int)),
    ensures
        r == digits_val(v@.subrange(start as int, end as int)),
        r <= 9999,
{
    let mut r: u32 = 0;
    let mut i: usize = start;
    while i < end
        invariant
            start <= i <= end,
            end as int <= v@.len(),
            end - start <= 4,
            all_digits(v@.subrange(start as int, end as int)),
            r == digits_val(v@.subrange(start as int, i as int)),
            r <= 9999,
        decreases end - i,
    {
        proof {
            assert(v@.subrange(start as int, end as int)[i - start] == v@[i as int]);
            assert(is_digit(v@[i as int]));
            assert(v@.subrange(start as int, i + 1).drop_last() =~= v@.subrange(
                start as int,
                i as int,
            ));
            assert(v@.subrange(start as int, i + 1).last() == v@[i as int]);
            assert(forall|k: int|
                0 <= k < (v@.subrange(start as int, i as int)).len() ==> is_digit(
                    #[trigger] v@.subrange(start as int, i as int)[k],
                ));
            lemma_digits_val_bound(v@.subrange(start as int, i as int));
        }
        let c = v[i];
        r = r * 10 + ((c as u32) - 0x30);
        i = i + 1;
        proof {
            lemma_digits_val_bound(v@.subrange(start as int, i as int));
        }
    }
    r
}

/// A digit string of length at most four stays below ten thousand.
proof fn lemma_digits_val_bound(s: Seq<char>)
    requires
        all_digits(s),
        s.len() <= 4,
    ensures
        0 <= digits_val(s),
        s.len() <= 1 ==> digits_val(s) <= 9,
        s.len() <= 2 ==> digits_val(s) <= 99,
        s.len() <= 3 ==> digits_val(s) <= 999,
        digits_val(s) <= 9999,
    decreases s.len(),
{
    if s.len() == 0 {
    } else {
        assert(forall|k: int|
            0 <= k < s.drop_last().len() ==> is_digit(#[trigger] s.drop_last()[k]));
        lemma_digits_val_bound(s.drop_last());
        assert(0 <= digit_val(s.last()) <= 9);
    }
}


/// Whether every character of `v` is a digit.
fn check_all_digits(v: &Vec<char>) -> (r: bool)
    ensures
        r == all_digits(v@),
{
    for i in 0..v.len()
        invariant
            forall|k: int| 0 <= k < i ==> is_digit(#[trigger] v@[k]),
    {
        let c = v[i];
        if !('0' <= c && c <= '9') {
            return false;
        }
    }
    true
}

/// The timestamp a date string denotes, if any.
pub fn parse_timestamp(s: &str) -> (r: Option<Timestamp>)
    ensures
        r == spec_parse_timestamp(s@),
{
    let chars = text::chars_of(s);
    let mut dash: Vec<char> = Vec::new();
    dash.push('-');
    proof {
        assert(dash@ =~= "-"@) by {
            reveal_strlit("-");
        }
    }
    let parts = text::split_seq(&chars, &dash);
    let ghost sparts = text::spec_split(s@, "-"@);
    let np = parts.len();
    if np == 0 || np > 3 {
        return None;
    }
    if parts[0].len() != 4 || !check_all_digits(&parts[0]) {
        proof {
            assert(parts@[0]@ == sparts[0]);
            assert(parts@[0]@.subrange(0, parts@[0]@.len() as int) =~= parts@[0]@);
        }
        return None;
    }
    proof {
        assert(parts@[0]@ == sparts[0]);
        assert(parts@[0]@.subrange(0, 4) =~= parts@[0]@);
    }
    let year = digits_value(&parts[0], 0, 4);
    if np == 1 {
        return Some(Timestamp { year, month: None, day: None });
    }
    if parts[1].len() != 2 || !check_all_digits(&parts[1]) {
        proof {
            assert(parts@[1]@ == sparts[1]);
        }
        return None;
    }
    proof {
        assert(parts@[1]@ == sparts[1]);
        assert(parts@[1]@.subrange(0, 2) =~= parts@[1]@);
    }
    let month_v = digits_value(&parts[1], 0, 2);
    let month: Option<u8> = if month_v == 0 {
        None
    } else {
        Some(month_v as u8)
    };
    if np == 2 {
        return Some(Timestamp { year, month, day: None });
    }
    if parts[2].len() != 2 || !check_all_digits(&parts[2]) {
        proof {
            assert(parts@[2]@ == sparts[2]);
        }
        return None;
    }
    proof {
        assert(parts@[2]@ == sparts[2]);
        assert(parts@[2]@.subrange(0, 2) =~= parts@[2]@);
    }
    let day_v = digits_value(&parts[2], 0, 2);
    let day: Option<u8> = if day_v == 0 {
        None
    } else {
        Some(day_v as u8)
    };
    Some(Timestamp { year, month, day })
}

/// A cover picture: its mime type and raw bytes.
#[derive(Debug, Clone)]
pub struct Picture {
    pub mime_type: String,
    pub data: Vec<u8>,
}

/// Album information: title, album artist, and an optional cover.
#[derive(Debug, Clone)]
pub struct Album {
    pub title: Option<String>,
    pub artist: Option<String>,
    pub cover: Option<Picture>,
}

impl Album {
    /// An album with no fields set.
    pub fn new_empty() -> (r: Self)
        ensures
            r.title is None,
            r.artist is None,
            r.cover is None,
    {
        Album { title: None, artist: None, cover: None }
    }
}

/// Whether a mime type is accepted for a cover picture.
pub open spec fn spec_valid_image_mime(m: Seq<char>) -> bool {
    m == "image/bmp"@ || m == "image/jpeg"@ || m == "image/png"@
}

/// Whether a mime type is accepted for a cover picture: bmp, jpeg or png.
pub fn valid_image_mime(m: &str) -> (r: bool)
    ensures
        r == spec_valid_image_mime(m@),
{
    text::str_eq(m, "image/bmp") || text::str_eq(m, "image/jpeg") || text::str_eq(m, "image/png")
}

/// One comment key with its values, in order.
#[derive(Debug, Clone)]
pub struct CommentEntry {
    pub key: String,
    pub values: Vec<String>,
}

/// Whether a format stores comment keys case-normalized to upper case.
pub open spec fn spec_uppercases_keys(f: TagFormat) -> bool {
    f == TagFormat::VorbisFlac || f == TagFormat::Opus || f == TagFormat::Ogg
}

/// The stored form of a comment key under a format: the Vorbis-class
/// formats normalize keys to upper case.
pub open spec fn spec_key_norm(f: TagFormat, key: Seq<char>) -> Seq<char> {
    if spec_uppercases_keys(f) {
        text::spec_upper(key)
    } else {
        key
    }
}

/// The comment key that carries the resolver's recording identifier under a
/// format; the raw Ogg family has none.
pub open spec fn spec_brainz_key(f: TagFormat) -> Option<Seq<char>> {
    match f {
        TagFormat::Id3 => Some("http://musicbrainz.org"@),
        TagFormat::VorbisFlac => Some("MUSICBRAINZ_TRACKID"@),
        TagFormat::Mp4 => Some("MusicBrainz Track Id"@),
        TagFormat::Opus => Some("musicbrainz_trackid"@),
        TagFormat::Ogg => None,
    }
}

/// The comment key that carries the recording identifier under a format;
/// for the identifier-frame format it is the frame's owner.
pub fn brainz_key(f: TagFormat) -> (r: Option<String>)
    ensures
        match spec_brainz_key(f) {
            Some(k) => r matches Some(s) && s@ == k,
            None => r is None,
        },
{
    match f {
        TagFormat::Id3 => Some(String::from_str("http://musicbrainz.org")),
        TagFormat::VorbisFlac => Some(String::from_str("MUSICBRAINZ_TRACKID")),
        TagFormat::Mp4 => Some(String::from_str("MusicBrainz Track Id")),
        TagFormat::Opus => Some(String::from_str("musicbrainz_trackid")),
        TagFormat::Ogg => None,
    }
}

/// The first comment entry under a normalized key, at or after `from`.
pub open spec fn comment_idx(cs: Seq<CommentEntry>, key: Seq<char>, from: int) -> Option<int>
    decreases cs.len() - from,
{
    if from < 0 || from >= cs.len() {
        None
    } else if cs[from].key@ == key {
        Some(from)
    } else {
        comment_idx(cs, key, from + 1)
    }
}

/// A semantic tag: one set of fields over any of the five formats.
#[derive(Debug)]
pub struct AudioTag {
    pub format: TagFormat,
    pub title: Option<String>,
    pub artist: Option<String>,
    pub album_title: Option<String>,
    pub album_artist: Option<String>,
    pub cover: Option<Picture>,
    pub date: Option<Timestamp>,
    pub lyrics: Option<String>,
    pub comments: Vec<CommentEntry>,
}

impl AudioTag {
    /// Comment keys are stored normalized and uniquely.
    pub open spec fn wf(self) -> bool {
        &&& forall|i: int, j: int|
            0 <= i < j < self.comments@.len() ==> (#[trigger] self.comments@[i]).key@ != (
            #[trigger] self.comments@[j]).key@
        &&& forall|i: int|
            0 <= i < self.comments@.len() ==> spec_key_norm(
                self.format,
                (#[trigger] self.comments@[i]).key@,
            ) == self.comments@[i].key@
    }

    /// An empty tag of the given format.
    pub fn new_empty(format: TagFormat) -> (r: Self)
        ensures
            r.wf(),
            r.format == format,
            r.title is None,
            r.artist is None,
            r.album_title is None,
            r.album_artist is None,
            r.cover is None,
            r.date is None,
            r.lyrics is None,
            r.comments@.len() == 0,
    {
        AudioTag {
            format,
            title: None,
            artist: None,
            album_title: None,
            album_artist: None,
            cover: None,
            date: None,
            lyrics: None,
            comments: Vec::new(),
        }
    }

    /// An empty tag in the identifier-frame format family.
    pub fn new_empty_id3() -> (r: Self)
        ensures
            r.wf() && r.format == TagFormat::Id3 && r.comments@.len() == 0 && r.title is None
                && r.artist is None && r.date is None,
    {
        Self::new_empty(TagFormat::Id3)
    }

    /// An empty tag in the Vorbis-in-FLAC format.
    pub fn new_empty_flac() -> (r: Self)
        ensures
            r.wf() && r.format == TagFormat::VorbisFlac && r.comments@.len() == 0 && r.title is None
                && r.artist is None && r.date is None,
    {
        Self::new_empty(TagFormat::VorbisFlac)
    }

    /// An empty tag in the iTunes-style format.
    pub fn new_empty_mp4() -> (r: Self)
        ensures
            r.wf() && r.format == TagFormat::Mp4 && r.comments@.len() == 0 && r.title is None
                && r.artist is None && r.date is None,
    {
        Self::new_empty(TagFormat::Mp4)
    }

    /// An empty tag in the Opus format.
    pub fn new_empty_opus() -> (r: Self)
        ensures
            r.wf() && r.format == TagFormat::Opus && r.comments@.len() == 0 && r.title is None
                && r.artist is None && r.date is None,
    {
        Self::new_empty(TagFormat::Opus)
    }

    /// The stored form of a comment key under this tag's format.
    fn normalize_key(&self, key: &str) -> (r: String)
        ensures
            r@ == spec_key_norm(self.format, key@),
    {
        match self.format {
            TagFormat::VorbisFlac | TagFormat::Opus | TagFormat::Ogg => {
                let cs = text::chars_of(key);
                let up = text::upper_chars(&cs);
                text::string_from_chars(&up)
            },
            _ => String::from_str(key),
        }
    }

    /// The position of the comment entry for `key` in stored form.
    fn find_comment(&self, norm_key: &str) -> (r: Option<usize>)
        ensures
            match r {
                Some(i) => comment_idx(self.comments@, norm_key@, 0) == Some(i as int) && i
                    < self.comments@.len() && self.comments@[i as int].key@ == norm_key@,
                None => comment_idx(self.comments@, norm_key@, 0) is None,
            },
    {
        let n = self.comments.len();
        let mut i: usize = 0;
        loop
            invariant
                i <= n,
                n == self.comments@.len(),
                comment_idx(self.comments@, norm_key@, 0) == comment_idx(
                    self.comments@,
                    norm_key@,
                    i as int,
                ),
            decreases n - i,
        {
            if i >= n {
                return None;
            }
            if text::str_eq(self.comments[i].key.as_str(), norm_key) {
                return Some(i);
            }
            i = i + 1;
        }
    }

    /// The first comment value stored under `key`.
    pub fn get_comment(&self, key: &str) -> (r: Option<String>)
        ensures
            match comment_idx(self.comments@, spec_key_norm(self.format, key@), 0) {
                Some(i) => if self.comments@[i].values@.len() > 0 {
                    r matches Some(v) && v@ == self.comments@[i].values@[0]@
                } else {
                    r is None
                },
                None => r is None,
            },
    {
        let norm = self.normalize_key(key);
        match self.find_comment(norm.as_str()) {
            Some(i) => {
                if self.comments[i].values.len() > 0 {
                    Some(self.comments[i].values[0].clone())
                } else {
                    None
                }
            },
            None => None,
        }
    }

    /// Replaces all values stored under `key` with the one given.
    pub fn set_comment(&mut self, key: &str, value: String)
        requires
            old(self).wf(),
        ensures
            final(self).wf(),
            final(self).format == old(self).format,
            comment_idx(
                final(self).comments@,
                spec_key_norm(final(self).format, key@),
                0,
            ) matches Some(i) && final(self).comments@[i].values@.len() == 1 && final(self).comments@[i].values@[0]@ == value@,
            final(self).title == old(self).title,
            final(self).artist == old(self).artist,
            final(self).album_title == old(self).album_title,
            final(self).album_artist == old(self).album_artist,
            final(self).date == old(self).date,
            final(self).lyrics == old(self).lyrics,
            forall|j: int|
                0 <= j < final(self).comments@.len() && (#[trigger] final(self).comments@[j]).key@
                    != spec_key_norm(final(self).format, key@) ==> exists|k: int|
                    0 <= k < old(self).comments@.len() && (#[trigger] old(self).comments@[k])
                        == final(self).comments@[j],
            forall|k: int|
                0 <= k < old(self).comments@.len() && (#[trigger] old(self).comments@[k]).key@
                    != spec_key_norm(final(self).format, key@) ==> exists|j: int|
                    0 <= j < final(self).comments@.len() && (#[trigger] final(self).comments@[j])
                        == old(self).comments@[k],
    {
        let norm = self.normalize_key(key);
        let mut values: Vec<String> = Vec::new();
        values.push(value);
        match self.find_comment(norm.as_str()) {
            Some(i) => {
                let ghost pre = self.comments@;
                self.comments[i].values = values;
                proof {
                    let nk = spec_key_norm(self.format, key@);
                    assert(self.comments@[i as int].key@ == nk);
                    assert forall|k: int|
                        0 <= k < pre.len() implies (#[trigger] pre[k]).key@
                            == self.comments@[k].key@ by {
                        if k != i as int {
                            assert(self.comments@[k] == pre[k]);
                        }
                    }
                    lemma_comment_idx_same_keys(pre, self.comments@, nk, 0);
                    assert forall|a: int, b: int|
                        0 <= a < b < self.comments@.len() implies (
                    #[trigger] self.comments@[a]).key@ != (#[trigger] self.comments@[b]).key@ by {
                        assert(pre[a].key@ != pre[b].key@);
                    }
                    assert forall|j: int|
                        0 <= j < self.comments@.len() implies spec_key_norm(
                        self.format,
                        (#[trigger] self.comments@[j]).key@,
                    ) == self.comments@[j].key@ by {
                        assert(self.comments@[j].key@ == pre[j].key@);
                        assert(spec_key_norm(self.format, pre[j].key@) == pre[j].key@);
                    }
                    assert forall|j: int|
                        0 <= j < self.comments@.len() && (#[trigger] self.comments@[j]).key@
                            != nk implies exists|k: int|
                        0 <= k < pre.len() && (#[trigger] pre[k]) == self.comments@[j] by {
                        assert(self.comments@[j] == pre[j]);
                    }
                    assert forall|k: int|
                        0 <= k < pre.len() && (#[trigger] pre[k]).key@ != nk implies exists|j: int|
                        0 <= j < self.comments@.len() && (#[trigger] self.comments@[j])
                            == pre[k] by {
                        assert(self.comments@[k] == pre[k]);
                    }
                }
            },
            None => {
                let ghost pre = self.comments@;
                self.comments.push(CommentEntry { key: norm, values });
                proof {
                    let nk = spec_key_norm(self.format, key@);
                    crate::tags::lemma_comment_idx_none(pre, nk, 0);
                    let m = self.comments@.len() - 1;
                    assert(self.comments@[m].key@ == nk);
                    lemma_key_norm_idempotent(self.format, key@);
                    assert forall|j: int| 0 <= j < m implies (#[trigger] self.comments@[j]).key@
                        != nk by {
                        assert(self.comments@[j] == pre[j]);
                    }
                    assert forall|j: int|
                        0 <= j < self.comments@.len() implies spec_key_norm(
                        self.format,
                        (#[trigger] self.comments@[j]).key@,
                    ) == self.comments@[j].key@ by {
                        if j < m {
                            assert(self.comments@[j] == pre[j]);
                        }
                    }
                    lemma_comment_idx_exact(self.comments@, nk, m);
                    assert forall|j: int|
                        0 <= j < self.comments@.len() && (#[trigger] self.comments@[j]).key@
                            != nk implies exists|k: int|
                        0 <= k < pre.len() && (#[trigger] pre[k]) == self.comments@[j] by {
                        assert(j < m);
                        assert(self.comments@[j] == pre[j]);
                    }
                    assert forall|k: int|
                        0 <= k < pre.len() && (#[trigger] pre[k]).key@ != nk implies exists|j: int|
                        0 <= j < self.comments@.len() && (#[trigger] self.comments@[j])
                            == pre[k] by {
                        assert(self.comments@[k] == pre[k]);
                    }
                }
            },
        }
    }

    /// Appends one value under `key`, after any already stored.
    pub fn add_comment(&mut self, key: &str, value: String)
        requires
            old(self).wf(),
        ensures
            final(self).wf(),
            final(self).format == old(self).format,
            comment_idx(
                final(self).comments@,
                spec_key_norm(final(self).format, key@),
                0,
            ) matches Some(i) && final(self).comments@[i].values@.len() >= 1 && final(self).comments@[i].values@.last()@ == value@,
    {
        let norm = self.normalize_key(key);
        match self.find_comment(norm.as_str()) {
            Some(i) => {
                let ghost pre = self.comments@;
                self.comments[i].values.push(value);
                proof {
                    let nk = spec_key_norm(self.format, key@);
                    assert forall|k: int|
                        0 <= k < pre.len() implies (#[trigger] pre[k]).key@
                            == self.comments@[k].key@ by {
                        if k != i as int {
                            assert(self.comments@[k] == pre[k]);
                        }
                    }
                    lemma_comment_idx_same_keys(pre, self.comments@, nk, 0);
                    assert forall|a: int, b: int|
                        0 <= a < b < self.comments@.len() implies (
                    #[trigger] self.comments@[a]).key@ != (#[trigger] self.comments@[b]).key@ by {
                        assert(pre[a].key@ != pre[b].key@);
                    }
                    assert forall|j: int|
                        0 <= j < self.comments@.len() implies spec_key_norm(
                        self.format,
                        (#[trigger] self.comments@[j]).key@,
                    ) == self.comments@[j].key@ by {
                        assert(self.comments@[j].key@ == pre[j].key@);
                        assert(spec_key_norm(self.format, pre[j].key@) == pre[j].key@);
                    }
                }
            },
            None => {
                let mut values: Vec<String> = Vec::new();
                values.push(value);
                let ghost pre = self.comments@;
                self.comments.push(CommentEntry { key: norm, values });
                proof {
                    let nk = spec_key_norm(self.format, key@);
                    crate::tags::lemma_comment_idx_none(pre, nk, 0);
                    let m = self.comments@.len() - 1;
                    lemma_key_norm_idempotent(self.format, key@);
                    assert forall|j: int| 0 <= j < m implies (#[trigger] self.comments@[j]).key@
                        != nk by {
                        assert(self.comments@[j] == pre[j]);
                    }
                    assert forall|j: int|
                        0 <= j < self.comments@.len() implies spec_key_norm(
                        self.format,
                        (#[trigger] self.comments@[j]).key@,
                    ) == self.comments@[j].key@ by {
                        if j < m {
                            assert(self.comments@[j] == pre[j]);
                        }
                    }
                    lemma_comment_idx_exact(self.comments@, nk, m);
                }
            },
        }
    }

    /// Removes the values under `key`: all of them, or — with a value
    /// filter — exactly those equal to it, keeping the rest in order; an
    /// entry left without values disappears.
    pub fn remove_comment(&mut self, key: &str, value: Option<&str>)
        requires
            old(self).wf(),
        ensures
            final(self).wf(),
            final(self).format == old(self).format,
            final(self).title == old(self).title,
            final(self).artist == old(self).artist,
            final(self).album_title == old(self).album_title,
            final(self).album_artist == old(self).album_artist,
            final(self).cover == old(self).cover,
            final(self).date == old(self).date,
            final(self).lyrics == old(self).lyrics,
            value is None ==> comment_idx(
                final(self).comments@,
                spec_key_norm(final(self).format, key@),
                0,
            ) is None,
            value is None ==> (match comment_idx(
                old(self).comments@,
                spec_key_norm(old(self).format, key@),
                0,
            ) {
                Some(i) => final(self).comments@ =~= old(self).comments@.remove(i),
                None => final(self).comments@ == old(self).comments@,
            }),
            value matches Some(v) ==> (match comment_idx(
                old(self).comments@,
                spec_key_norm(old(self).format, key@),
                0,
            ) {
                Some(i) => {
                    let kept = old(self).comments@[i].values@.filter(
                        (|x: String| x@ != v@),
                    );
                    if kept.len() == 0 {
                        final(self).comments@ =~= old(self).comments@.remove(i)
                    } else {
                        final(self).comments@.len() == old(self).comments@.len() && final(self).comments@[i].key == old(self).comments@[i].key && final(self).comments@[i].values@ == kept && (forall|j: int|
                            0 <= j < old(self).comments@.len() && j != i ==> (
                            #[trigger] final(self).comments@[j]) == old(self).comments@[j])
                    }
                },
                None => final(self).comments@ == old(self).comments@,
            }),
    {
        let norm = self.normalize_key(key);
        match self.find_comment(norm.as_str()) {
            Some(i) => {
                match value {
                    None => {
                        let ghost pre = self.comments@;
                        self.comments.remove(i);
                        proof {
                            assert forall|a: int, b: int|
                                0 <= a < b < self.comments@.len() implies (
                            #[trigger] self.comments@[a]).key@ != (
                            #[trigger] self.comments@[b]).key@ by {
                                let pa = if a < i as int { a } else { a + 1 };
                                let pb = if b < i as int { b } else { b + 1 };
                                assert(self.comments@[a] == pre[pa]);
                                assert(self.comments@[b] == pre[pb]);
                                assert(pre[pa].key@ != pre[pb].key@);
                            }
                            lemma_comment_key_absent(
                                self.comments@,
                                spec_key_norm(self.format, key@),
                            );
                        }
                    },
                    Some(v) => {
                        let ghost p = |x: String| x@ != v@;
                        let ghost vals = self.comments@[i as int].values@;
                        let mut kept: Vec<String> = Vec::new();
                        let m = self.comments[i].values.len();
                        for w in 0..m
                            invariant
                                p == (|x: String| x@ != v@),
                                i < self.comments@.len(),
                                m == self.comments@[i as int].values@.len(),
                                vals == self.comments@[i as int].values@,
                                kept@ =~= vals.take(w as int).filter(p),
                        {
                            let ghost prek = kept@;
                            if !text::str_eq(self.comments[i].values[w].as_str(), v) {
                                kept.push(self.comments[i].values[w].clone());
                            }
                            proof {
                                reveal(Seq::filter);
                                assert(vals.take(w + 1).drop_last() =~= vals.take(w as int));
                                assert(vals.take(w + 1).last() == vals[w as int]);
                                if p(vals[w as int]) {
                                    assert(kept@ =~= prek.push(vals[w as int]));
                                    assert(vals.take(w + 1).filter(p) =~= vals.take(
                                        w as int,
                                    ).filter(p).push(vals[w as int]));
                                } else {
                                    assert(vals.take(w + 1).filter(p) =~= vals.take(
                                        w as int,
                                    ).filter(p));
                                }
                            }
                        }
                        proof {
                            assert(vals.take(m as int) =~= vals);
                            assert(kept@ =~= vals.filter(p));
                        }
                        let ghost pre = self.comments@;
                        if kept.len() == 0 {
                            self.comments.remove(i);
                            proof {
                                assert forall|a: int, b: int|
                                    0 <= a < b < self.comments@.len() implies (
                                #[trigger] self.comments@[a]).key@ != (
                                #[trigger] self.comments@[b]).key@ by {
                                    let pa = if a < i as int { a } else { a + 1 };
                                    let pb = if b < i as int { b } else { b + 1 };
                                    assert(self.comments@[a] == pre[pa]);
                                    assert(self.comments@[b] == pre[pb]);
                                    assert(pre[pa].key@ != pre[pb].key@);
                                }
                            }
                        } else {
                            self.comments[i].values = kept;
                            proof {
                                assert forall|a: int, b: int|
                                    0 <= a < b < self.comments@.len() implies (
                                #[trigger] self.comments@[a]).key@ != (
                                #[trigger] self.comments@[b]).key@ by {
                                    assert(pre[a].key@ != pre[b].key@);
                                }
                            }
                        }
                    },
                }
            },
            None => {},
        }
    }
}


/// Two entry lists with the same keys position by position look up alike.
pub proof fn lemma_comment_idx_same_keys(
    a: Seq<CommentEntry>,
    b: Seq<CommentEntry>,
    key: Seq<char>,
    from: int,
)
    requires
        0 <= from,
        a.len() == b.len(),
        forall|k: int| 0 <= k < a.len() ==> (#[trigger] a[k]).key@ == b[k].key@,
    ensures
        comment_idx(a, key, from) == comment_idx(b, key, from),
    decreases a.len() - from,
{
    if from < a.len() {
        lemma_comment_idx_same_keys(a, b, key, from + 1);
    }
}

/// The first entry with the key is the one found.
pub proof fn lemma_comment_idx_exact(cs: Seq<CommentEntry>, key: Seq<char>, i: int)
    requires
        0 <= i < cs.len(),
        cs[i].key@ == key,
        forall|j: int| 0 <= j < i ==> (#[trigger] cs[j]).key@ != key,
    ensures
        comment_idx(cs, key, 0) == Some(i),
{
    lemma_comment_idx_exact_from(cs, key, i, 0);
}

proof fn lemma_comment_idx_exact_from(cs: Seq<CommentEntry>, key: Seq<char>, i: int, from: int)
    requires
        0 <= from <= i < cs.len(),
        cs[i].key@ == key,
        forall|j: int| from <= j < i ==> (#[trigger] cs[j]).key@ != key,
    ensures
        comment_idx(cs, key, from) == Some(i),
    decreases i - from,
{
    if from < i {
        lemma_comment_idx_exact_from(cs, key, i, from + 1);
    }
}


/// Key normalization is idempotent.
pub proof fn lemma_key_norm_idempotent(f: TagFormat, k: Seq<char>)
    ensures
        spec_key_norm(f, spec_key_norm(f, k)) == spec_key_norm(f, k),
{
    if spec_uppercases_keys(f) {
        text::lemma_upper_idempotent(k);
    }
}

/// A missing comment index means no entry holds the key.
pub proof fn lemma_comment_idx_none(cs: Seq<CommentEntry>, key: Seq<char>, from: int)
    requires
        0 <= from,
        comment_idx(cs, key, from) is None,
    ensures
        forall|k: int| from <= k < cs.len() ==> (#[trigger] cs[k]).key@ != key,
    decreases cs.len() - from,
{
    if from < cs.len() {
        lemma_comment_idx_none(cs, key, from + 1);
    }
}

/// An entry with the key makes the lookup succeed.
pub proof fn lemma_comment_idx_member(cs: Seq<CommentEntry>, key: Seq<char>, i: int)
    requires
        0 <= i < cs.len(),
        cs[i].key@ == key,
    ensures
        comment_idx(cs, key, 0) is Some,
{
    lemma_comment_idx_member_from(cs, key, i, 0);
}

proof fn lemma_comment_idx_member_from(cs: Seq<CommentEntry>, key: Seq<char>, i: int, from: int)
    requires
        0 <= from <= i < cs.len(),
        cs[i].key@ == key,
    ensures
        comment_idx(cs, key, from) is Some,
    decreases i - from,
{
    if from < i && !(cs[from].key@ == key) {
        lemma_comment_idx_member_from(cs, key, i, from + 1);
    }
}

/// A key held by no entry is not found.
pub proof fn lemma_comment_key_absent(cs: Seq<CommentEntry>, key: Seq<char>)
    requires
        forall|k: int| 0 <= k < cs.len() ==> (#[trigger] cs[k]).key@ != key,
    ensures
        comment_idx(cs, key, 0) is None,
{
    lemma_comment_key_absent_from(cs, key, 0);
}

proof fn lemma_comment_key_absent_from(cs: Seq<CommentEntry>, key: Seq<char>, from: int)
    requires
        0 <= from,
        forall|k: int| 0 <= k < cs.len() ==> (#[trigger] cs[k]).key@ != key,
    ensures
        comment_idx(cs, key, from) is None,
    decreases cs.len() - from,
{
    if from < cs.len() {
        lemma_comment_key_absent_from(cs, key, from + 1);
    }
}


impl AudioTag {
    /// The title.
    pub fn title(&self) -> (r: Option<&str>)
        ensures
            match self.title {
                Some(ref t) => r matches Some(s) && s@ == t@,
                None => r is None,
            },
    {
        match &self.title {
            Some(t) => Some(t.as_str()),
            None => None,
        }
    }

    /// Sets the title.
    pub fn set_title(&mut self, title: &str)
        ensures
            final(self).title matches Some(t) && t@ == title@,
            final(self).format == old(self).format,
            final(self).artist == old(self).artist,
            final(self).album_title == old(self).album_title,
            final(self).album_artist == old(self).album_artist,
            final(self).cover == old(self).cover,
            final(self).date == old(self).date,
            final(self).lyrics == old(self).lyrics,
            final(self).comments == old(self).comments,
    {
        self.title = Some(String::from_str(title));
    }

    /// Removes the title.
    pub fn remove_title(&mut self)
        ensures
            final(self).title is None,
            final(self).format == old(self).format,
            final(self).artist == old(self).artist,
            final(self).album_title == old(self).album_title,
            final(self).album_artist == old(self).album_artist,
            final(self).cover == old(self).cover,
            final(self).date == old(self).date,
            final(self).lyrics == old(self).lyrics,
            final(self).comments == old(self).comments,
    {
        self.title = None;
    }

    /// The artist; multi-valued backends store the joined form.
    pub fn artist(&self) -> (r: Option<&str>)
        ensures
            match self.artist {
                Some(ref t) => r matches Some(s) && s@ == t@,
                None => r is None,
            },
    {
        match &self.artist {
            Some(t) => Some(t.as_str()),
            None => None,
        }
    }

    /// Sets the artist.
    pub fn set_artist(&mut self, artist: &str)
        ensures
            final(self).artist matches Some(t) && t@ == artist@,
            final(self).format == old(self).format,
            final(self).title == old(self).title,
            final(self).album_title == old(self).album_title,
            final(self).album_artist == old(self).album_artist,
            final(self).cover == old(self).cover,
            final(self).date == old(self).date,
            final(self).lyrics == old(self).lyrics,
            final(self).comments == old(self).comments,
    {
        self.artist = Some(String::from_str(artist));
    }

    /// Removes the artist.
    pub fn remove_artist(&mut self)
        ensures
            final(self).artist is None,
            final(self).format == old(self).format,
            final(self).title == old(self).title,
            final(self).album_title == old(self).album_title,
            final(self).album_artist == old(self).album_artist,
            final(self).cover == old(self).cover,
            final(self).date == old(self).date,
            final(self).lyrics == old(self).lyrics,
            final(self).comments == old(self).comments,
    {
        self.artist = None;
    }

    /// The album information, when any of its fields is stored.
    pub fn get_album_info(&self) -> (r: Option<Album>)
        ensures
            match r {
                Some(a) => {
                    &&& crate::models::opt_view(a.title) == crate::models::opt_view(
                        self.album_title,
                    )
                    &&& crate::models::opt_view(a.artist) == crate::models::opt_view(
                        self.album_artist,
                    )
                    &&& match (a.cover, self.cover) {
                        (Some(p), Some(q)) => p.mime_type@ == q.mime_type@ && p.data@ == q.data@,
                        (None, None) => true,
                        _ => false,
                    }
                },
                None => self.album_title is None && self.album_artist is None && self.cover
                    is None,
            },
    {
        if self.album_title.is_none() && self.album_artist.is_none() && self.cover.is_none() {
            return None;
        }
        let cover = match &self.cover {
            Some(p) => Some(Picture { mime_type: p.mime_type.clone(), data: p.data.clone() }),
            None => None,
        };
        Some(
            Album {
                title: crate::models::clone_opt_string(&self.album_title),
                artist: crate::models::clone_opt_string(&self.album_artist),
                cover,
            },
        )
    }

    /// Sets the album information. A present field replaces the stored one;
    /// an absent field leaves it. A cover whose mime type is not bmp, jpeg
    /// or png is refused and nothing changes.
    pub fn set_album_info(&mut self, album: Album) -> (r: Result<(), TagError>)
        ensures
            match r {
                Ok(_) => {
                    &&& (match album.title {
                        Some(ref t) => final(self).album_title matches Some(u) && u@ == t@,
                        None => final(self).album_title == old(self).album_title,
                    })
                    &&& (match album.artist {
                        Some(ref t) => final(self).album_artist matches Some(u) && u@ == t@,
                        None => final(self).album_artist == old(self).album_artist,
                    })
                    &&& (match album.cover {
                        Some(ref p) => spec_valid_image_mime(p.mime_type@) && (final(self).cover matches Some(q) && q.mime_type@ == p.mime_type@ && q.data@
                            == p.data@),
                        None => final(self).cover == old(self).cover,
                    })
                    &&& final(self).format == old(self).format
                    &&& final(self).title == old(self).title
                    &&& final(self).artist == old(self).artist
                    &&& final(self).date == old(self).date
                    &&& final(self).lyrics == old(self).lyrics
                    &&& final(self).comments == old(self).comments
                },
                Err(e) => e == TagError::InvalidImageFormat && (album.cover matches Some(p)
                    && !spec_valid_image_mime(p.mime_type@)) && *final(self) == *old(self),
            },
    {
        match &album.cover {
            Some(p) => {
                if !valid_image_mime(p.mime_type.as_str()) {
                    return Err(TagError::InvalidImageFormat);
                }
            },
            None => {},
        }
        let Album { title, artist, cover } = album;
        match title {
            Some(t) => {
                self.album_title = Some(t);
            },
            None => {},
        }
        match artist {
            Some(a) => {
                self.album_artist = Some(a);
            },
            None => {},
        }
        match cover {
            Some(p) => {
                self.cover = Some(p);
            },
            None => {},
        }
        Ok(())
    }

    /// Removes the album title, album artist and cover.
    pub fn remove_all_album_info(&mut self)
        ensures
            final(self).album_title is None,
            final(self).album_artist is None,
            final(self).cover is None,
            final(self).format == old(self).format,
            final(self).title == old(self).title,
            final(self).artist == old(self).artist,
            final(self).date == old(self).date,
            final(self).lyrics == old(self).lyrics,
            final(self).comments == old(self).comments,
    {
        self.album_title = None;
        self.album_artist = None;
        self.cover = None;
    }

    /// The release date.
    pub fn date(&self) -> (r: Option<Timestamp>)
        ensures
            r == self.date,
    {
        self.date
    }

    /// Sets the release date.
    pub fn set_date(&mut self, timestamp: Timestamp)
        ensures
            final(self).date == Some(timestamp),
            final(self).format == old(self).format,
            final(self).title == old(self).title,
            final(self).artist == old(self).artist,
            final(self).album_title == old(self).album_title,
            final(self).album_artist == old(self).album_artist,
            final(self).cover == old(self).cover,
            final(self).lyrics == old(self).lyrics,
            final(self).comments == old(self).comments,
    {
        self.date = Some(timestamp);
    }

    /// Removes the release date.
    pub fn remove_date(&mut self)
        ensures
            final(self).date is None,
            final(self).format == old(self).format,
            final(self).title == old(self).title,
            final(self).artist == old(self).artist,
            final(self).album_title == old(self).album_title,
            final(self).album_artist == old(self).album_artist,
            final(self).cover == old(self).cover,
            final(self).lyrics == old(self).lyrics,
            final(self).comments == old(self).comments,
    {
        self.date = None;
    }

    /// The lyrics.
    pub fn lyrics(&self) -> (r: Option<String>)
        ensures
            match self.lyrics {
                Some(ref t) => r matches Some(s) && s@ == t@,
                None => r is None,
            },
    {
        match &self.lyrics {
            Some(t) => Some(t.clone()),
            None => None,
        }
    }

    /// Sets the lyrics.
    pub fn set_lyrics(&mut self, lyrics: &str)
        ensures
            final(self).lyrics matches Some(t) && t@ == lyrics@,
            final(self).format == old(self).format,
            final(self).title == old(self).title,
            final(self).artist == old(self).artist,
            final(self).album_title == old(self).album_title,
            final(self).album_artist == old(self).album_artist,
            final(self).cover == old(self).cover,
            final(self).date == old(self).date,
            final(self).comments == old(self).comments,
    {
        self.lyrics = Some(String::from_str(lyrics));
    }

    /// Removes the lyrics.
    pub fn remove_lyrics(&mut self)
        ensures
            final(self).lyrics is None,
            final(self).format == old(self).format,
            final(self).title == old(self).title,
            final(self).artist == old(self).artist,
            final(self).album_title == old(self).album_title,
            final(self).album_artist == old(self).album_artist,
            final(self).cover == old(self).cover,
            final(self).date == old(self).date,
            final(self).comments == old(self).comments,
    {
        self.lyrics = None;
    }

    /// Projects the common subset — album information, title, artist and
    /// date — onto a tag of any format; absent fields project nothing. It
    /// succeeds exactly when the source's cover, if there is one, has an
    /// accepted mime type; an unsupported cover is refused with the target
    /// unchanged.
    pub fn copy_to(&self, other: &mut Self) -> (r: Result<(), TagError>)
        ensures
            r is Ok <==> (match self.cover {
                Some(ref p) => spec_valid_image_mime(p.mime_type@),
                None => true,
            }),
            r matches Err(e) ==> e == TagError::InvalidImageFormat && *final(other) == *old(other),
            r is Ok ==> {
                &&& (match self.album_title {
                    Some(ref t) => final(other).album_title matches Some(u) && u@ == t@,
                    None => final(other).album_title == old(other).album_title,
                })
                &&& (match self.album_artist {
                    Some(ref t) => final(other).album_artist matches Some(u) && u@ == t@,
                    None => final(other).album_artist == old(other).album_artist,
                })
                &&& (match self.cover {
                    Some(ref p) => final(other).cover matches Some(q) && q.mime_type@
                        == p.mime_type@ && q.data@ == p.data@,
                    None => final(other).cover == old(other).cover,
                })
                &&& (match self.title {
                    Some(ref t) => final(other).title matches Some(u) && u@ == t@,
                    None => final(other).title == old(other).title,
                })
                &&& (match self.artist {
                    Some(ref t) => final(other).artist matches Some(u) && u@ == t@,
                    None => final(other).artist == old(other).artist,
                })
                &&& (match self.date {
                    Some(d) => final(other).date == Some(d),
                    None => final(other).date == old(other).date,
                })
                &&& final(other).format == old(other).format
                &&& final(other).lyrics == old(other).lyrics
                &&& final(other).comments == old(other).comments
            },
    {
        match self.get_album_info() {
            Some(album) => {
                match other.set_album_info(album) {
                    Ok(_) => {},
                    Err(e) => {
                        return Err(e);
                    },
                }
            },
            None => {},
        }
        match &self.title {
            Some(t) => other.set_title(t.as_str()),
            None => {},
        }
        match &self.artist {
            Some(a) => other.set_artist(a.as_str()),
            None => {},
        }
        match self.date {
            Some(d) => other.set_date(d),
            None => {},
        }
        Ok(())
    }
}

/// Writing a well-formed timestamp and reading the text back yields the
/// same timestamp: the `YYYY-MM-DD` form loses nothing, with an absent
/// month or day written and read back as zero.
pub proof fn lemma_timestamp_round_trip(t: Timestamp)
    requires
        t.wf(),
    ensures
        spec_parse_timestamp(spec_format_timestamp(t)) == Some(t),
{
    let s = spec_format_timestamp(t);
    reveal_strlit("-");
    assert("-"@ =~= seq!['-']);
    let m = match t.month {
        Some(m) => m as int,
        None => 0,
    };
    let d = match t.day {
        Some(dd) => dd as int,
        None => 0,
    };
    assert(s.len() == 10);
    assert(s[4] == '-' && s[7] == '-');
    assert forall|k: int| 0 <= k < 10 && k != 4 && k != 7 implies is_digit(s[k]) && s[k] != '-' by {
        lemma_digit_is_digit(t.year as int / 1000 % 10);
        lemma_digit_is_digit(t.year as int / 100 % 10);
        lemma_digit_is_digit(t.year as int / 10 % 10);
        lemma_digit_is_digit(t.year as int % 10);
        lemma_digit_is_digit(m / 10 % 10);
        lemma_digit_is_digit(m % 10);
        lemma_digit_is_digit(d / 10 % 10);
        lemma_digit_is_digit(d % 10);
    }
    lemma_find_dash(s, 0, 4);
    let tail1 = s.subrange(5, 10);
    assert(text::spec_split(s, "-"@) =~= seq![s.subrange(0, 4)] + text::spec_split(tail1, "-"@));
    assert(tail1[2] == '-');
    assert forall|k: int| 0 <= k < 5 && k != 2 implies is_digit(tail1[k]) && tail1[k] != '-' by {
        assert(tail1[k] == s[5 + k]);
    }
    lemma_find_dash(tail1, 0, 2);
    let tail2 = tail1.subrange(3, 5);
    assert(text::spec_split(tail1, "-"@) =~= seq![tail1.subrange(0, 2)] + text::spec_split(
        tail2,
        "-"@,
    ));
    assert forall|k: int| 0 <= k < 2 implies is_digit(tail2[k]) && tail2[k] != '-' by {
        assert(tail2[k] == s[8 + k]);
    }
    lemma_no_dash(tail2, 0);
    assert(text::spec_split(tail2, "-"@) =~= seq![tail2]);
    let parts = text::spec_split(s, "-"@);
    assert(parts =~= seq![s.subrange(0, 4), tail1.subrange(0, 2), tail2]);
    assert(parts[0] =~= pad4(t.year as int));
    assert(parts[1] =~= pad2(m));
    assert(parts[2] =~= pad2(d));
    lemma_pad4_val(t.year as int);
    lemma_pad2_val(m);
    lemma_pad2_val(d);
    assert(all_digits(parts[0]));
    assert(all_digits(parts[1]));
    assert(all_digits(parts[2]));
    assert(digits_val(parts[0]) == t.year as int);
    assert(digits_val(parts[1]) == m);
    assert(digits_val(parts[2]) == d);
    assert(opt_field(m) == t.month);
    assert(opt_field(d) == t.day);
}

/// A digit character is a digit and is not the separator.
proof fn lemma_digit_is_digit(n: int)
    requires
        0 <= n <= 9,
    ensures
        is_digit(digit(n)),
        digit(n) != '-',
        digit_val(digit(n)) == n,
{
    assert(digit(n) as int == 0x30 + n);
    assert('0' as int == 0x30 && '9' as int == 0x39 && '-' as int == 0x2d);
}

/// The value written by four zero-padded digits.
proof fn lemma_pad4_val(n: int)
    requires
        0 <= n <= 9999,
    ensures
        all_digits(pad4(n)),
        digits_val(pad4(n)) == n,
{
    reveal_with_fuel(digits_val, 5);
    lemma_digit_is_digit(n / 1000 % 10);
    lemma_digit_is_digit(n / 100 % 10);
    lemma_digit_is_digit(n / 10 % 10);
    lemma_digit_is_digit(n % 10);
    assert(pad4(n).drop_last() =~= seq![
        digit(n / 1000 % 10),
        digit(n / 100 % 10),
        digit(n / 10 % 10),
    ]);
    assert(pad4(n).drop_last().drop_last() =~= seq![digit(n / 1000 % 10), digit(n / 100 % 10)]);
    assert(pad4(n).drop_last().drop_last().drop_last() =~= seq![digit(n / 1000 % 10)]);
    assert(pad4(n).drop_last().drop_last().drop_last().drop_last() =~= Seq::empty());
    assert(n / 1000 % 10 == n / 1000) by {
        assert(n / 1000 <= 9);
    }
    assert((n / 1000) * 1000 + (n / 100 % 10) * 100 + (n / 10 % 10) * 10 + n % 10 == n) by (nonlinear_arith)
        requires
            0 <= n <= 9999,
    ;
}

/// The value written by two zero-padded digits.
proof fn lemma_pad2_val(n: int)
    requires
        0 <= n <= 99,
    ensures
        all_digits(pad2(n)),
        digits_val(pad2(n)) == n,
{
    reveal_with_fuel(digits_val, 3);
    lemma_digit_is_digit(n / 10 % 10);
    lemma_digit_is_digit(n % 10);
    assert(pad2(n).drop_last() =~= seq![digit(n / 10 % 10)]);
    assert(pad2(n).drop_last().drop_last() =~= Seq::empty());
    assert(n / 10 % 10 == n / 10);
}

/// A dash at `at`, with digits before it from `from`, is the first found.
proof fn lemma_find_dash(s: Seq<char>, from: int, at: int)
    requires
        0 <= from <= at < s.len(),
        s[at] == '-',
        forall|k: int| from <= k < at ==> s[k] != '-',
    ensures
        text::spec_find(s, "-"@, from) == Some(at),
    decreases at - from,
{
    reveal_strlit("-");
    assert("-"@ =~= seq!['-']);
    if from == at {
        assert(s.subrange(at, at + 1) =~= seq!['-']);
    } else {
        assert(s.subrange(from, from + 1) =~= seq![s[from]]);
        assert(s.subrange(from, from + 1) != "-"@) by {
            assert(s.subrange(from, from + 1)[0] != '-');
        }
        lemma_find_dash(s, from + 1, at);
    }
}

/// A string without the separator does not find it.
proof fn lemma_no_dash(s: Seq<char>, from: int)
    requires
        0 <= from,
        forall|k: int| 0 <= k < s.len() ==> s[k] != '-',
    ensures
        text::spec_find(s, "-"@, from) is None,
    decreases s.len() - from,
{
    reveal_strlit("-");
    assert("-"@ =~= seq!['-']);
    if !(from < 0 || from + 1 > s.len()) {
        assert(s.subrange(from, from + 1) =~= seq![s[from]]);
        assert(s.subrange(from, from + 1) != "-"@) by {
            assert(s.subrange(from, from + 1)[0] != '-');
        }
        lemma_no_dash(s, from + 1);
    }
}


/// A found comment index names an entry with the key.
pub proof fn lemma_comment_idx_bounds(cs: Seq<CommentEntry>, key: Seq<char>, from: int)
    requires
        0 <= from,
    ensures
        match comment_idx(cs, key, from) {
            Some(i) => from <= i < cs.len() && cs[i].key@ == key,
            None => true,
        },
    decreases cs.len() - from,
{
    if !(from < 0 || from >= cs.len()) && !(cs[from].key@ == key) {
        lemma_comment_idx_bounds(cs, key, from + 1);
    }
}

/// Under unique keys, the entry found for a key is any entry holding it.
pub proof fn lemma_comment_unique_found(cs: Seq<CommentEntry>, key: Seq<char>, w: int)
    requires
        forall|i: int, j: int|
            0 <= i < j < cs.len() ==> (#[trigger] cs[i]).key@ != (#[trigger] cs[j]).key@,
        0 <= w < cs.len(),
        cs[w].key@ == key,
    ensures
        comment_idx(cs, key, 0) == Some(w),
{
    assert forall|j: int| 0 <= j < w implies (#[trigger] cs[j]).key@ != key by {
        assert(cs[j].key@ != cs[w].key@);
    }
    lemma_comment_idx_exact(cs, key, w);
}

/// The identifying comment of one categorized file, as the library reads it
/// back: the first value under the `youtube_id` key.
pub fn read_youtube_id(tag: &AudioTag) -> (r: Option<String>)
    ensures
        match comment_idx(tag.comments@, spec_key_norm(tag.format, "youtube_id"@), 0) {
            Some(i) => if tag.comments@[i].values@.len() > 0 {
                r matches Some(v) && v@ == tag.comments@[i].values@[0]@
            } else {
                r is None
            },
            None => r is None,
        },
{
    tag.get_comment("youtube_id")
}

/// The tag rewrite of one categorized item: title and joined artist
/// replaced, album information rebuilt with the joined album artist, the
/// item's key written as the `youtube_id` comment, and — when the resolver
/// named a recording — the format's identifier comment written too. A tag
/// whose stored cover carries an unsupported mime type is refused; the raw
/// Ogg family cannot carry a recording identifier, so that pairing is
/// outside this function's inputs.
pub fn apply_metadata(tag: &mut AudioTag, tags: &MetadataTags) -> (r: Result<(), TagError>)
    requires
        old(tag).wf(),
        !(old(tag).format == TagFormat::Ogg && tags.brainz.brainz_recording_id is Some),
    ensures
        (match old(tag).cover {
            Some(ref p) => spec_valid_image_mime(p.mime_type@),
            None => true,
        }) ==> r is Ok,
        r matches Err(e) ==> e == TagError::InvalidImageFormat,
        r is Ok ==> {
            let joined = text::spec_join(tags.brainz@.artist, "; "@);
            &&& final(tag).wf()
            &&& final(tag).format == old(tag).format
            &&& (final(tag).title matches Some(t) && t@ == tags.brainz.title@)
            &&& (final(tag).artist matches Some(a) && a@ == joined)
            &&& (final(tag).album_title matches Some(a) && a@ == (match tags.brainz@.album {
                Some(al) => al,
                None => Seq::<char>::empty(),
            }))
            &&& (final(tag).album_artist matches Some(a) && a@ == joined)
            &&& (comment_idx(
                final(tag).comments@,
                spec_key_norm(final(tag).format, "youtube_id"@),
                0,
            ) matches Some(i) && final(tag).comments@[i].values@.len() == 1 && final(tag).comments@[i].values@[0]@ == tags.youtube_id@)
            &&& (match tags.brainz@.brainz_recording_id {
                Some(rid) => spec_brainz_key(final(tag).format) matches Some(bk) && (comment_idx(
                    final(tag).comments@,
                    spec_key_norm(final(tag).format, bk),
                    0,
                ) matches Some(i) && final(tag).comments@[i].values@.len() == 1 && final(tag).comments@[i].values@[0]@ == rid),
                None => true,
            })
        },
{
    tag.remove_title();
    tag.set_title(tags.brainz.title.as_str());
    tag.remove_artist();
    let joined = text::join_strings(&tags.brainz.artist, "; ");
    proof {
        assert(tags.brainz.artist.deep_view() =~= tags.brainz@.artist);
    }
    tag.set_artist(joined.as_str());
    let mut album = match tag.get_album_info() {
        Some(a) => a,
        None => Album::new_empty(),
    };
    album.title = Some(
        match &tags.brainz.album {
            Some(a) => a.clone(),
            None => String::new(),
        },
    );
    album.artist = Some(joined.clone());
    tag.remove_all_album_info();
    let res = tag.set_album_info(album);
    match res {
        Ok(_) => {},
        Err(e) => {
            return Err(e);
        },
    }
    tag.set_comment("youtube_id", tags.youtube_id.clone());
    let ghost yt_key = spec_key_norm(tag.format, "youtube_id"@);
    let ghost after_yt = tag.comments@;
    match &tags.brainz.brainz_recording_id {
        Some(rid) => {
            let key = match brainz_key(tag.format) {
                Some(k) => k,
                None => {
                    proof {
                        assert(false);
                    }
                    unreached()
                },
            };
            proof {
                lemma_brainz_key_differs(tag.format);
            }
            let ghost bz_key = spec_key_norm(tag.format, key@);
            tag.set_comment(key.as_str(), rid.clone());
            proof {
                lemma_comment_idx_bounds(after_yt, yt_key, 0);
                let i0 = comment_idx(after_yt, yt_key, 0).unwrap();
                assert(after_yt[i0].key@ == yt_key);
                assert(yt_key != bz_key);
                let w = choose|w: int|
                    0 <= w < tag.comments@.len() && (#[trigger] tag.comments@[w]) == after_yt[i0];
                lemma_comment_unique_found(tag.comments@, yt_key, w);
            }
        },
        None => {},
    }
    Ok(())
}

/// The key that carries the recording identifier never collides with the
/// key that carries the item identifier, under any format's normalization.
proof fn lemma_brainz_key_differs(f: TagFormat)
    requires
        spec_brainz_key(f) is Some,
    ensures
        spec_key_norm(f, "youtube_id"@) != spec_key_norm(f, spec_brainz_key(f).unwrap()),
{
    reveal_strlit("youtube_id");
    reveal_strlit("http://musicbrainz.org");
    reveal_strlit("MUSICBRAINZ_TRACKID");
    reveal_strlit("MusicBrainz Track Id");
    reveal_strlit("musicbrainz_trackid");
    assert(spec_key_norm(f, "youtube_id"@).len() == 10);
    match f {
        TagFormat::Id3 => {
            assert(spec_key_norm(f, "http://musicbrainz.org"@).len() == 22);
        },
        TagFormat::VorbisFlac => {
            assert(spec_key_norm(f, "MUSICBRAINZ_TRACKID"@).len() == 19);
        },
        TagFormat::Mp4 => {
            assert(spec_key_norm(f, "MusicBrainz Track Id"@).len() == 20);
        },
        TagFormat::Opus => {
            assert(spec_key_norm(f, "musicbrainz_trackid"@).len() == 19);
        },
        TagFormat::Ogg => {},
    }
}

} // verus!
