//! Query planning for the public music-metadata database: building Lucene
//! queries from extractor metadata, deriving candidate searches, and the
//! deterministic short-circuit for nightcore titles.

use vstd::prelude::*;
use crate::text;

verus! {

/// Whether a byte stays as it is under percent-encoding: ASCII alphanumerics
/// and `-`, `.`, `_`, `~`.
pub open spec fn is_unreserved_byte(b: u8) -> bool {
    (0x30 <= b <= 0x39) || (0x41 <= b <= 0x5a) || (0x61 <= b <= 0x7a) || b == 0x2d || b == 0x2e
        || b == 0x5f || b == 0x7e
}

/// The upper-case hexadecimal digit for a value below 16.
pub open spec fn hex_char(d: u8) -> char {
    if d < 10 {
        ((0x30 + d) as char)
    } else {
        ((0x41 + (d - 10)) as char)
    }
}

/// One byte percent-encoded: itself if unreserved, else `%` and two digits.
pub open spec fn enc_byte(b: u8) -> Seq<char> {
    if is_unreserved_byte(b) {
        seq![b as char]
    } else {
        seq!['%', hex_char(b / 16), hex_char(b % 16)]
    }
}

/// A byte sequence percent-encoded.
pub open spec fn spec_percent_encode(bs: Seq<u8>) -> Seq<char>
    decreases bs.len(),
{
    if bs.len() == 0 {
        Seq::empty()
    } else {
        enc_byte(bs[0]) + spec_percent_encode(bs.drop_first())
    }
}

/// Percent-encodes a string, byte by byte of its UTF-8 form.
///
/// Relies on urlencoding::encode: every byte except ASCII alphanumerics and
/// `-`, `.`, `_`, `~` becomes `%` followed by two upper-case hex digits.
#[verifier::external_body]
pub fn percent_encode(s: &str) -> (r: String)
    ensures
        r@ == spec_percent_encode(vstd::utf8::encode_utf8(s@)),
{
    urlencoding::encode(s).into_owned()
}

/// A failure of the metadata resolver.
#[derive(Debug, Clone)]
pub enum BrainzError {
    /// The transport failed; the message is the transport's.
    ConnectionError(String),
    /// No query parameters were provided.
    EmptyQuery,
    /// A response could not be parsed; the message is the parser's.
    JsonError(String),
    /// No results were found.
    EmptyResult,
}

impl BrainzError {
    /// A short operator-facing description.
    pub fn message(&self) -> String {
        match self {
            BrainzError::ConnectionError(m) => m.clone(),
            BrainzError::EmptyQuery => String::from_str("No query parameters provided"),
            BrainzError::JsonError(m) => m.clone(),
            BrainzError::EmptyResult => String::from_str("No results found"),
        }
    }
}

/// The input of one resolution: what is known of a track before asking.
#[derive(Debug, Clone)]
pub struct BrainzMultiSearch {
    pub trackid: Option<String>,
    pub title: String,
    pub artist: Option<String>,
    pub album: Option<String>,
}

/// The mathematical value of a `BrainzMultiSearch`.
#[verifier::ext_equal]
pub struct BrainzMultiSearchView {
    pub trackid: Option<Seq<char>>,
    pub title: Seq<char>,
    pub artist: Option<Seq<char>>,
    pub album: Option<Seq<char>>,
}

impl View for BrainzMultiSearch {
    type V = BrainzMultiSearchView;

    open spec fn view(&self) -> BrainzMultiSearchView {
        BrainzMultiSearchView {
            trackid: match self.trackid {
                Some(ref s) => Some(s@),
                None => None,
            },
            title: self.title@,
            artist: match self.artist {
                Some(ref s) => Some(s@),
                None => None,
            },
            album: match self.album {
                Some(ref s) => Some(s@),
                None => None,
            },
        }
    }
}

/// The output of one resolution: the canonical identity of a track.
#[derive(Debug, Clone)]
pub struct BrainzMetadata {
    pub brainz_recording_id: Option<String>,
    pub title: String,
    pub artist: Vec<String>,
    pub album: Option<String>,
}

/// The mathematical value of a `BrainzMetadata`.
#[verifier::ext_equal]
pub struct BrainzMetadataView {
    pub brainz_recording_id: Option<Seq<char>>,
    pub title: Seq<char>,
    pub artist: Seq<Seq<char>>,
    pub album: Option<Seq<char>>,
}

impl View for BrainzMetadata {
    type V = BrainzMetadataView;

    open spec fn view(&self) -> BrainzMetadataView {
        BrainzMetadataView {
            brainz_recording_id: match self.brainz_recording_id {
                Some(ref s) => Some(s@),
                None => None,
            },
            title: self.title@,
            artist: self.artist.deep_view(),
            album: match self.album {
                Some(ref s) => Some(s@),
                None => None,
            },
        }
    }
}

/// One term of a Lucene query: absent, quoted-exact, or fuzzy.
#[derive(Debug, Clone)]
pub enum QTerm {
    Empty,
    Exact(String),
    Fuzzy(String),
}

/// The mathematical value of a `QTerm`.
#[verifier::ext_equal]
pub enum QTermView {
    Empty,
    Exact(Seq<char>),
    Fuzzy(Seq<char>),
}

impl View for QTerm {
    type V = QTermView;

    open spec fn view(&self) -> QTermView {
        match self {
            QTerm::Empty => QTermView::Empty,
            QTerm::Exact(s) => QTermView::Exact(s@),
            QTerm::Fuzzy(s) => QTermView::Fuzzy(s@),
        }
    }
}

impl QTerm {
    /// An exact term for a present value, or an absent term.
    pub fn exact_option(text: &Option<String>) -> (r: Self)
        ensures
            r@ == match *text {
                Some(ref s) => QTermView::Exact(s@),
                None => QTermView::Empty,
            },
    {
        match text {
            Some(s) => QTerm::Exact(s.clone()),
            None => QTerm::Empty,
        }
    }

    /// A fuzzy term for a present value, or an absent term.
    pub fn fuzzy_option(text: &Option<String>) -> (r: Self)
        ensures
            r@ == match *text {
                Some(ref s) => QTermView::Fuzzy(s@),
                None => QTermView::Empty,
            },
    {
        match text {
            Some(s) => QTerm::Fuzzy(s.clone()),
            None => QTerm::Empty,
        }
    }

    /// The text of the term, if any.
    pub fn get_text(&self) -> (r: Option<&str>)
        ensures
            match self@ {
                QTermView::Empty => r is None,
                QTermView::Exact(s) => r matches Some(t) && t@ == s,
                QTermView::Fuzzy(s) => r matches Some(t) && t@ == s,
            },
    {
        match self {
            QTerm::Empty => None,
            QTerm::Exact(s) => Some(s.as_str()),
            QTerm::Fuzzy(s) => Some(s.as_str()),
        }
    }
}

/// The Lucene fragment of one term under a field name: nothing for an absent
/// term, `name:"encoded"` for an exact one, `name:encoded` for a fuzzy one.
pub open spec fn spec_query_part(t: QTermView, name: Seq<char>) -> Option<Seq<char>> {
    match t {
        QTermView::Empty => None,
        QTermView::Exact(s) => Some(
            name + ":\""@ + spec_percent_encode(vstd::utf8::encode_utf8(s)) + "\""@,
        ),
        QTermView::Fuzzy(s) => Some(name + ":"@ + spec_percent_encode(vstd::utf8::encode_utf8(s))),
    }
}

impl QTerm {
    /// The Lucene fragment of this term under `name`, if the term is present.
    pub fn to_query_part(&self, name: &str) -> (r: Option<String>)
        ensures
            match spec_query_part(self@, name@) {
                Some(q) => r matches Some(rs) && rs@ == q,
                None => r is None,
            },
    {
        match self {
            QTerm::Empty => None,
            QTerm::Exact(s) => {
                let mut q = String::from_str(name);
                q.append(":\"");
                let enc = percent_encode(s.as_str());
                q.append(enc.as_str());
                q.append("\"");
                Some(q)
            },
            QTerm::Fuzzy(s) => {
                let mut q = String::from_str(name);
                q.append(":");
                let enc = percent_encode(s.as_str());
                q.append(enc.as_str());
                Some(q)
            },
        }
    }
}

/// One candidate search: terms for the recording, its artists and a release.
#[derive(Debug, Clone)]
pub struct RecordingSearch {
    pub title: QTerm,
    pub artist: Vec<QTerm>,
    pub album: QTerm,
}

/// The mathematical value of a `RecordingSearch`.
#[verifier::ext_equal]
pub struct RecordingSearchView {
    pub title: QTermView,
    pub artist: Seq<QTermView>,
    pub album: QTermView,
}

impl View for RecordingSearch {
    type V = RecordingSearchView;

    open spec fn view(&self) -> RecordingSearchView {
        RecordingSearchView {
            title: self.title@,
            artist: Seq::new(self.artist@.len(), |i: int| self.artist@[i]@),
            album: self.album@,
        }
    }
}

/// A present part as a one-element sequence, an absent one as none.
pub open spec fn opt_part(o: Option<Seq<char>>) -> Seq<Seq<char>> {
    match o {
        Some(p) => seq![p],
        None => Seq::empty(),
    }
}

/// The Lucene parts of one candidate search, in query order: the recording
/// term, the artist terms, the release term.
pub open spec fn spec_search_parts(s: RecordingSearchView) -> Seq<Seq<char>> {
    opt_part(spec_query_part(s.title, "recording"@)) + s.artist.filter_map(
        |t: QTermView| spec_query_part(t, "artist"@),
    ) + opt_part(spec_query_part(s.album, "release"@))
}

/// The full Lucene query of one candidate search: its parts joined with
/// `" AND "`. A search with no present term is rejected as `EmptyQuery`.
pub fn build_recording_query(search: &RecordingSearch) -> (r: Result<String, BrainzError>)
    ensures
        r matches Ok(q) ==> spec_search_parts(search@).len() > 0 && q@ == text::spec_join(
            spec_search_parts(search@),
            " AND "@,
        ),
        r matches Err(e) ==> spec_search_parts(search@).len() == 0 && e is EmptyQuery,
{
    let ghost f = |t: QTermView| spec_query_part(t, "artist"@);
    let ghost terms = search.artist@.map_values(|q: QTerm| q@);
    let mut parts: Vec<String> = Vec::new();
    if let Some(p) = search.title.to_query_part("recording") {
        parts.push(p);
    }
    let ghost head = parts.deep_view();
    proof {
        assert(head =~~= opt_part(spec_query_part(search@.title, "recording"@)));
    }
    for i in 0..search.artist.len()
        invariant
            f == (|t: QTermView| spec_query_part(t, "artist"@)),
            terms == search.artist@.map_values(|q: QTerm| q@),
            terms.len() == search.artist@.len(),
            parts.deep_view() =~~= head + terms.take(i as int).filter_map(f),
    {
        let ghost pre = parts.deep_view();
        proof {
            assert(terms.take(i + 1).drop_last() =~= terms.take(i as int));
            assert(terms.take(i + 1).last() == search.artist@[i as int]@);
        }
        match search.artist[i].to_query_part("artist") {
            Some(p) => {
                let ghost pv = p@;
                parts.push(p);
                proof {
                    assert(spec_query_part(search.artist@[i as int]@, "artist"@) == Some(pv));
                    assert(f(search.artist@[i as int]@) == Some(pv));
                    assert(terms.take(i + 1).filter_map(f) =~~= terms.take(i as int).filter_map(
                        f,
                    ) + seq![pv]);
                    assert(parts.deep_view() =~~= pre + seq![pv]);
                    assert(parts.deep_view() =~~= head + terms.take(i + 1).filter_map(f));
                }
            },
            None => {
                proof {
                    assert(f(search.artist@[i as int]@) is None);
                    assert(terms.take(i + 1).filter_map(f) =~~= terms.take(i as int).filter_map(
                        f,
                    ));
                    assert(parts.deep_view() =~~= head + terms.take(i + 1).filter_map(f));
                }
            },
        }
    }
    proof {
        assert(terms.take(search.artist@.len() as int) =~= terms);
        assert(search@.artist =~= terms);
        assert(search@.artist.filter_map(f) == terms.filter_map(f));
    }
    if let Some(p) = search.album.to_query_part("release") {
        parts.push(p);
    }
    proof {
        assert(parts.deep_view() =~~= spec_search_parts(search@));
    }
    if parts.len() == 0 {
        return Err(BrainzError::EmptyQuery);
    }
    let q = text::join_strings(&parts, " AND ");
    Ok(q)
}

/// The request URL for a Lucene query against the recording endpoint.
pub fn recording_url(query: &str) -> (r: String)
    ensures
        r@ == "http://musicbrainz.org/ws/2/recording/?limit=3&query="@ + query@,
{
    let mut u = String::from_str("http://musicbrainz.org/ws/2/recording/?limit=3&query=");
    u.append(query);
    u
}

/// The Lucene query that looks a recording up by its identifier.
pub fn rid_query(id: &str) -> (r: String)
    ensures
        r@ == "rid:"@ + id@,
{
    let mut q = String::from_str("rid:");
    q.append(id);
    q
}

/// A word character for the purpose of the artist-separator word boundary:
/// an ASCII letter, digit or underscore.
pub open spec fn is_word_char(c: char) -> bool {
    ('a' <= c && c <= 'z') || ('A' <= c && c <= 'Z') || ('0' <= c && c <= '9') || c == '_'
}

/// The length of the artist separator that starts at `i`, or zero. The
/// separators are `;`, `&`, and — at a word start — `ft`, `ft.`, `feat` and
/// `feat.`. `prev_word` says whether a word character immediately precedes
/// the sequence, for the boundary test at its first position.
pub open spec fn sep_len_at(s: Seq<char>, prev_word: bool, i: int) -> int {
    if !(0 <= i < s.len()) {
        0
    } else if s[i] == ';' || s[i] == '&' {
        1
    } else {
        let at_word_start = if i == 0 {
            !prev_word
        } else {
            !is_word_char(s[i - 1])
        };
        if at_word_start && i + 2 <= s.len() && s[i] == 'f' && s[i + 1] == 't' {
            if i + 3 <= s.len() && s[i + 2] == '.' {
                3
            } else {
                2
            }
        } else if at_word_start && i + 4 <= s.len() && s[i] == 'f' && s[i + 1] == 'e' && s[i + 2]
            == 'a' && s[i + 3] == 't' {
            if i + 5 <= s.len() && s[i + 4] == '.' {
                5
            } else {
                4
            }
        } else {
            0
        }
    }
}

/// The position of the first artist separator at or after `from`.
pub open spec fn spec_find_sep(s: Seq<char>, prev_word: bool, from: int) -> Option<int>
    decreases s.len() - from,
{
    if from < 0 || from >= s.len() {
        None
    } else if sep_len_at(s, prev_word, from) > 0 {
        Some(from)
    } else {
        spec_find_sep(s, prev_word, from + 1)
    }
}

proof fn lemma_find_sep_bounds(s: Seq<char>, prev_word: bool, from: int)
    requires
        0 <= from,
    ensures
        match spec_find_sep(s, prev_word, from) {
            Some(i) => from <= i < s.len() && 1 <= sep_len_at(s, prev_word, i) && i + sep_len_at(
                s,
                prev_word,
                i,
            ) <= s.len(),
            None => true,
        },
    decreases s.len() - from,
{
    if !(from < 0 || from >= s.len()) && !(sep_len_at(s, prev_word, from) > 0) {
        lemma_find_sep_bounds(s, prev_word, from + 1);
    }
}

/// The raw fields of an artist credit split at its separators, scanning left
/// to right; `prev_word` carries the word-boundary context into a suffix.
pub open spec fn spec_artist_fields(s: Seq<char>, prev_word: bool) -> Seq<Seq<char>>
    decreases s.len(),
    via spec_artist_fields_decreases
{
    match spec_find_sep(s, prev_word, 0) {
        None => seq![s],
        Some(i) => {
            let l = sep_len_at(s, prev_word, i);
            seq![s.subrange(0, i)] + spec_artist_fields(
                s.subrange(i + l, s.len() as int),
                is_word_char(s[i + l - 1]),
            )
        },
    }
}

#[via_fn]
proof fn spec_artist_fields_decreases(s: Seq<char>, prev_word: bool) {
    lemma_find_sep_bounds(s, prev_word, 0);
}

/// The characters that are stripped from a split artist field.
pub open spec fn is_stripped_char(c: char) -> bool {
    c == '(' || c == ')' || c == '[' || c == ']' || c == '\u{3010}' || c == '\u{3011}'
}

/// One artist field cleaned: trimmed, then bracket characters removed.
pub open spec fn spec_clean_artist(s: Seq<char>) -> Seq<char> {
    text::spec_trim(s).filter(|c: char| !is_stripped_char(c))
}

/// An artist credit split at `ft`/`feat`/`;`/`&` separators, each field
/// trimmed and stripped of brackets.
pub open spec fn spec_split_artists(s: Seq<char>) -> Seq<Seq<char>> {
    spec_artist_fields(s, false).map_values(|p: Seq<char>| spec_clean_artist(p))
}

/// The length of the artist separator at `i` of `v`, or zero.
fn sep_len_at_exec(v: &Vec<char>, prev_word: bool, i: usize) -> (r: usize)
    requires
        i < v@.len(),
    ensures
        r == sep_len_at(v@, prev_word, i as int),
{
    let n = v.len();
    if v[i] == ';' || v[i] == '&' {
        return 1;
    }
    let at_word_start = if i == 0 {
        !prev_word
    } else {
        let p = v[i - 1];
        !(('a' <= p && p <= 'z') || ('A' <= p && p <= 'Z') || ('0' <= p && p <= '9') || p == '_')
    };
    if at_word_start && n - i >= 2 && v[i] == 'f' && v[i + 1] == 't' {
        if n - i >= 3 && v[i + 2] == '.' {
            3
        } else {
            2
        }
    } else if at_word_start && n - i >= 4 && v[i] == 'f' && v[i + 1] == 'e' && v[i + 2] == 'a' && v[i
        + 3] == 't' {
        if n - i >= 5 && v[i + 4] == '.' {
            5
        } else {
            4
        }
    } else {
        0
    }
}

/// The position of the first artist separator of `v` at or after `from`.
fn find_sep_exec(v: &Vec<char>, prev_word: bool, from: usize) -> (r: Option<usize>)
    ensures
        match r {
            Some(i) => spec_find_sep(v@, prev_word, from as int) == Some(i as int),
            None => spec_find_sep(v@, prev_word, from as int) is None,
        },
{
    let n = v.len();
    let mut i: usize = from;
    loop
        invariant
            from <= i,
            n == v@.len(),
            spec_find_sep(v@, prev_word, from as int) == spec_find_sep(v@, prev_word, i as int),
        decreases v@.len() + 1 - i,
    {
        if i >= n {
            return None;
        }
        if sep_len_at_exec(v, prev_word, i) > 0 {
            return Some(i);
        }
        i = i + 1;
    }
}

/// One artist field cleaned: trimmed, then bracket characters removed.
fn clean_artist(v: Vec<char>) -> (r: Vec<char>)
    ensures
        r@ == spec_clean_artist(v@),
{
    let ghost p = |c: char| !is_stripped_char(c);
    let t = text::trim_chars(&v);
    let mut r: Vec<char> = Vec::new();
    for i in 0..t.len()
        invariant
            p == (|c: char| !is_stripped_char(c)),
            r@ == t@.take(i as int).filter(p),
    {
        let c = t[i];
        if !(c == '(' || c == ')' || c == '[' || c == ']' || c == '\u{3010}' || c == '\u{3011}') {
            r.push(c);
        }
        proof {
            reveal(Seq::filter);
            assert(t@.take(i + 1).drop_last() =~= t@.take(i as int));
            assert(t@.take(i + 1).last() == t@[i as int]);
        }
    }
    proof {
        assert(t@.take(t@.len() as int) =~= t@);
    }
    r
}

/// An artist credit split at its separators, each field trimmed and stripped
/// of brackets.
pub fn split_artists(artist: &str) -> (r: Vec<String>)
    ensures
        r.deep_view() == spec_split_artists(artist@),
{
    let chars = text::chars_of(artist);
    let fields = split_artist_fields(chars, false);
    let ghost raw = spec_artist_fields(artist@, false);
    let mut r: Vec<String> = Vec::new();
    let mut i: usize = 0;
    let n = fields.len();
    let mut fields = fields;
    proof {
        assert(fields.deep_view() == raw);
        assert(fields@.len() == raw.len());
    }
    while i < n
        invariant
            n == raw.len(),
            i <= n,
            fields@.len() == n,
            forall|k: int| i <= k < n ==> (#[trigger] fields@[k])@ == raw[k],
            r.deep_view() =~~= raw.take(i as int).map_values(
                |p: Seq<char>| spec_clean_artist(p),
            ),
        decreases n - i,
    {
        let mut field: Vec<char> = Vec::new();
        std::mem::swap(&mut field, &mut fields[i]);
        let ghost pre = r.deep_view();
        let cleaned = clean_artist(field);
        r.push(text::string_from_chars(&cleaned));
        proof {
            assert(raw.take(i + 1).drop_last() =~= raw.take(i as int));
            assert(r.deep_view() =~~= pre.push(spec_clean_artist(raw[i as int])));
            assert(r.deep_view() =~~= raw.take(i + 1).map_values(
                |p: Seq<char>| spec_clean_artist(p),
            ));
        }
        i = i + 1;
    }
    proof {
        assert(raw.take(n as int) =~= raw);
    }
    r
}

/// The raw fields of `v` split at its separators, with `prev_word` the
/// boundary context for the first position.
fn split_artist_fields(v: Vec<char>, prev_word: bool) -> (r: Vec<Vec<char>>)
    ensures
        r.deep_view() == spec_artist_fields(v@, prev_word),
    decreases v@.len(),
{
    match find_sep_exec(&v, prev_word, 0) {
        None => {
            let mut r: Vec<Vec<char>> = Vec::new();
            let ghost vv = v@;
            r.push(v);
            proof {
                assert(r.deep_view() =~~= spec_artist_fields(vv, prev_word));
            }
            r
        },
        Some(i) => {
            proof {
                lemma_find_sep_bounds(v@, prev_word, 0);
            }
            let l = sep_len_at_exec(&v, prev_word, i);
            let mut head: Vec<char> = Vec::new();
            let mut j: usize = 0;
            while j < i
                invariant
                    i <= v@.len(),
                    j <= i,
                    head@ == v@.subrange(0, j as int),
                decreases i - j,
            {
                head.push(v[j]);
                proof {
                    assert(head@ =~= v@.subrange(0, j + 1 as int));
                }
                j = j + 1;
            }
            let next_prev = {
                let c = v[i + l - 1];
                ('a' <= c && c <= 'z') || ('A' <= c && c <= 'Z') || ('0' <= c && c <= '9') || c
                    == '_'
            };
            let mut tail: Vec<char> = Vec::new();
            let start = i + l;
            let mut k: usize = start;
            let n = v.len();
            while k < n
                invariant
                    n == v@.len(),
                    start as int <= v@.len(),
                    start <= k,
                    k as int <= v@.len(),
                    tail@ == v@.subrange(start as int, k as int),
                decreases n - k,
            {
                tail.push(v[k]);
                proof {
                    assert(tail@ =~= v@.subrange(start as int, k + 1 as int));
                }
                k = k + 1;
            }
            let rest = split_artist_fields(tail, next_prev);
            let mut r: Vec<Vec<char>> = Vec::new();
            let ghost headv = head@;
            r.push(head);
            let mut idx: usize = 0;
            let m = rest.len();
            let mut rest = rest;
            let ghost restdv = rest.deep_view();
            while idx < m
                invariant
                    m == rest@.len(),
                    idx <= m,
                    restdv.len() == m,
                    forall|q: int| idx <= q < m ==> (#[trigger] rest@[q])@ == restdv[q],
                    r.deep_view() =~~= seq![headv] + restdv.take(idx as int),
                decreases m - idx,
            {
                let mut item: Vec<char> = Vec::new();
                std::mem::swap(&mut item, &mut rest[idx]);
                let ghost pre = r.deep_view();
                r.push(item);
                proof {
                    assert(r.deep_view() =~~= pre.push(restdv[idx as int]));
                    assert(seq![headv] + restdv.take(idx + 1) =~= (seq![headv] + restdv.take(
                        idx as int,
                    )).push(restdv[idx as int]));
                }
                idx = idx + 1;
            }
            proof {
                assert(restdv.take(m as int) =~= restdv);
                assert(r.deep_view() =~~= spec_artist_fields(v@, prev_word));
            }
            r
        },
    }
}


/// The text of a term, if the term is present.
pub open spec fn term_text(t: QTermView) -> Option<Seq<char>> {
    match t {
        QTermView::Empty => None,
        QTermView::Exact(s) => Some(s),
        QTermView::Fuzzy(s) => Some(s),
    }
}

/// The views of a sequence of candidate searches.
pub open spec fn search_views(v: Seq<RecordingSearch>) -> Seq<RecordingSearchView> {
    v.map_values(|s: RecordingSearch| s@)
}

/// An artist credit split at commas, each field trimmed, as exact terms.
pub open spec fn spec_comma_terms(a: Seq<char>) -> Seq<QTermView> {
    text::spec_split(a, ","@).map_values(|p: Seq<char>| QTermView::Exact(text::spec_trim(p)))
}

/// The candidates built from the extractor's own music fields, when any is
/// present: title with comma-split artists and the album, then the same
/// without the album.
pub open spec fn spec_native_candidates(d: BrainzMultiSearchView) -> Seq<RecordingSearchView> {
    if d.album is Some || d.artist is Some {
        let terms = match d.artist {
            Some(a) => spec_comma_terms(a),
            None => Seq::empty(),
        };
        let album = match d.album {
            Some(al) => QTermView::Exact(al),
            None => QTermView::Empty,
        };
        seq![
            RecordingSearchView { title: QTermView::Exact(d.title), artist: terms, album },
            RecordingSearchView {
                title: QTermView::Exact(d.title),
                artist: terms,
                album: QTermView::Empty,
            },
        ]
    } else {
        Seq::empty()
    }
}

/// The candidates built by splitting a hyphenated title once: right side as
/// the title with the left side's artists, then the reverse orientation.
pub open spec fn spec_hyphen_candidates(d: BrainzMultiSearchView) -> Seq<RecordingSearchView> {
    if text::spec_contains(d.title, " - "@) {
        let parts = text::spec_split(d.title, " - "@);
        seq![
            RecordingSearchView {
                title: QTermView::Exact(parts[1]),
                artist: spec_split_artists(parts[0]).map_values(
                    |p: Seq<char>| QTermView::Exact(p),
                ),
                album: QTermView::Empty,
            },
            RecordingSearchView {
                title: QTermView::Exact(parts[0]),
                artist: spec_split_artists(parts[1]).map_values(
                    |p: Seq<char>| QTermView::Exact(p),
                ),
                album: QTermView::Empty,
            },
        ]
    } else {
        Seq::empty()
    }
}

/// All candidate searches of one resolution, in priority order.
pub open spec fn spec_candidates(d: BrainzMultiSearchView) -> Seq<RecordingSearchView> {
    spec_native_candidates(d) + spec_hyphen_candidates(d)
}

proof fn lemma_split_len_ge1(s: Seq<char>, pat: Seq<char>)
    ensures
        text::spec_split(s, pat).len() >= 1,
{
}

/// A string that contains its separator splits into at least two parts.
proof fn lemma_split_contains_len(s: Seq<char>, pat: Seq<char>)
    requires
        text::spec_contains(s, pat),
    ensures
        text::spec_split(s, pat).len() >= 2,
{
    let i = text::spec_find(s, pat, 0).unwrap();
    text::lemma_find_bounds(s, pat, 0);
    lemma_split_len_ge1(s.subrange(i + pat.len(), s.len() as int), pat);
}

/// A copy of one query term, field for field.
fn clone_qterm(t: &QTerm) -> (r: QTerm)
    ensures
        r@ == t@,
{
    match t {
        QTerm::Empty => QTerm::Empty,
        QTerm::Exact(s) => QTerm::Exact(s.clone()),
        QTerm::Fuzzy(s) => QTerm::Fuzzy(s.clone()),
    }
}

/// A copy of a term list, element for element.
fn clone_terms(v: &Vec<QTerm>) -> (r: Vec<QTerm>)
    ensures
        r@.map_values(|q: QTerm| q@) =~= v@.map_values(|q: QTerm| q@),
{
    let mut r: Vec<QTerm> = Vec::new();
    for i in 0..v.len()
        invariant
            r@.len() == i,
            forall|k: int| 0 <= k < i ==> (#[trigger] r@[k])@ == v@[k]@,
    {
        r.push(clone_qterm(&v[i]));
    }
    proof {
        assert(r@.map_values(|q: QTerm| q@) =~= v@.map_values(|q: QTerm| q@));
    }
    r
}

/// An artist credit split at commas, each field trimmed, as exact terms.
fn comma_terms(a: &str) -> (r: Vec<QTerm>)
    ensures
        r@.map_values(|q: QTerm| q@) =~= spec_comma_terms(a@),
{
    let chars = text::chars_of(a);
    let mut pat: Vec<char> = Vec::new();
    pat.push(',');
    proof {
        assert(pat@ =~= ","@) by {
            reveal_strlit(",");
        }
    }
    let parts = text::split_seq(&chars, &pat);
    let ghost spec_parts = text::spec_split(a@, ","@);
    let mut r: Vec<QTerm> = Vec::new();
    let n = parts.len();
    for i in 0..n
        invariant
            n == parts@.len(),
            parts.deep_view() == spec_parts,
            spec_parts.len() == n,
            r@.len() == i,
            forall|k: int|
                0 <= k < i ==> (#[trigger] r@[k])@ == QTermView::Exact(
                    text::spec_trim(spec_parts[k]),
                ),
    {
        proof {
            assert(parts@[i as int]@ == spec_parts[i as int]);
        }
        let trimmed = text::trim_chars(&parts[i]);
        r.push(QTerm::Exact(text::string_from_chars(&trimmed)));
    }
    proof {
        assert(r@.map_values(|q: QTerm| q@) =~= spec_parts.map_values(
            |p: Seq<char>| QTermView::Exact(text::spec_trim(p)),
        ));
    }
    r
}

/// Strings wrapped as exact terms.
fn exact_terms(v: Vec<String>) -> (r: Vec<QTerm>)
    ensures
        r@.map_values(|q: QTerm| q@) =~= v.deep_view().map_values(
            |p: Seq<char>| QTermView::Exact(p),
        ),
{
    let mut r: Vec<QTerm> = Vec::new();
    let n = v.len();
    let ghost dv = v.deep_view();
    let mut v = v;
    let mut i: usize = 0;
    while i < n
        invariant
            n == v@.len(),
            i <= n,
            dv.len() == n,
            forall|k: int| i <= k < n ==> (#[trigger] v@[k])@ == dv[k],
            r@.len() == i,
            forall|k: int| 0 <= k < i ==> (#[trigger] r@[k])@ == QTermView::Exact(dv[k]),
        decreases n - i,
    {
        let mut s = String::new();
        std::mem::swap(&mut s, &mut v[i]);
        r.push(QTerm::Exact(s));
        i = i + 1;
    }
    proof {
        assert(r@.map_values(|q: QTerm| q@) =~= dv.map_values(|p: Seq<char>| QTermView::Exact(p)));
    }
    r
}

/// All candidate searches for one resolution input, in priority order: the
/// extractor's native fields first, then the hyphen-split orientations.
pub fn derive_candidates(dlp: &BrainzMultiSearch) -> (r: Vec<RecordingSearch>)
    ensures
        search_views(r@) =~~= spec_candidates(dlp@),
{
    let mut out: Vec<RecordingSearch> = Vec::new();
    if dlp.album.is_some() || dlp.artist.is_some() {
        let artist_terms: Vec<QTerm> = match &dlp.artist {
            Some(a) => comma_terms(a.as_str()),
            None => Vec::new(),
        };
        let terms_again = clone_terms(&artist_terms);
        out.push(
            RecordingSearch {
                title: QTerm::Exact(dlp.title.clone()),
                artist: artist_terms,
                album: QTerm::exact_option(&dlp.album),
            },
        );
        out.push(
            RecordingSearch {
                title: QTerm::Exact(dlp.title.clone()),
                artist: terms_again,
                album: QTerm::Empty,
            },
        );
        proof {
            assert(search_views(out@) =~~= spec_native_candidates(dlp@));
        }
    }
    let ghost native = search_views(out@);
    let title_chars = text::chars_of(dlp.title.as_str());
    let mut dash: Vec<char> = Vec::new();
    dash.push(' ');
    dash.push('-');
    dash.push(' ');
    proof {
        assert(dash@ =~= " - "@) by {
            reveal_strlit(" - ");
        }
    }
    if text::contains_seq(&title_chars, &dash) {
        proof {
            lemma_split_contains_len(dlp.title@, " - "@);
        }
        let parts = text::split_seq(&title_chars, &dash);
        let ghost parts_s = text::spec_split(dlp.title@, " - "@);
        let p0 = text::string_from_chars(&parts[0]);
        let p1 = text::string_from_chars(&parts[1]);
        proof {
            assert(parts@[0]@ == parts_s[0]);
            assert(parts@[1]@ == parts_s[1]);
        }
        let a0 = split_artists(p0.as_str());
        let a1 = split_artists(p1.as_str());
        let ghost pre = search_views(out@);
        out.push(
            RecordingSearch {
                title: QTerm::Exact(p1),
                artist: exact_terms(a0),
                album: QTerm::Empty,
            },
        );
        out.push(
            RecordingSearch {
                title: QTerm::Exact(p0),
                artist: exact_terms(a1),
                album: QTerm::Empty,
            },
        );
        proof {
            let hc = spec_hyphen_candidates(dlp@);
            let m = out@.len() as int;
            assert(out@[m - 2]@ =~~= hc[0]);
            assert(out@[m - 1]@ =~~= hc[1]);
            assert(search_views(out@) =~~= native + hc);
        }
    }
    proof {
        assert(search_views(out@) =~~= spec_candidates(dlp@));
    }
    out
}


/// Whether one candidate's artist terms mention nightcore, in upper case.
pub open spec fn is_nightcore_candidate(c: RecordingSearchView) -> bool {
    exists|k: int|
        0 <= k < c.artist.len() && (term_text(#[trigger] c.artist[k]) matches Some(t)
            && text::spec_contains(text::spec_upper(t), "NIGHTCORE"@))
}

/// The first nightcore candidate at or after `from`.
pub open spec fn first_nightcore_from(cands: Seq<RecordingSearchView>, from: int) -> Option<int>
    decreases cands.len() - from,
{
    if from < 0 || from >= cands.len() {
        None
    } else if is_nightcore_candidate(cands[from]) {
        Some(from)
    } else {
        first_nightcore_from(cands, from + 1)
    }
}

/// Whether one candidate's artist terms mention nightcore.
fn candidate_is_nightcore(c: &RecordingSearch) -> (r: bool)
    ensures
        r == is_nightcore_candidate(c@),
{
    let nc = text::chars_of("NIGHTCORE");
    let n = c.artist.len();
    for k in 0..n
        invariant
            n == c.artist@.len(),
            nc@ == "NIGHTCORE"@,
            forall|j: int|
                0 <= j < k ==> !(term_text(#[trigger] c@.artist[j]) matches Some(t)
                    && text::spec_contains(text::spec_upper(t), "NIGHTCORE"@)),
    {
        proof {
            assert(c@.artist[k as int] == c.artist@[k as int]@);
        }
        match c.artist[k].get_text() {
            Some(t) => {
                let chars = text::chars_of(t);
                let up = text::upper_chars(&chars);
                if text::contains_seq(&up, &nc) {
                    return true;
                }
            },
            None => {},
        }
    }
    false
}

/// The synthetic result of the nightcore short-circuit for a candidate with
/// title term `title` against the resolution input `d`.
pub open spec fn spec_nightcore_result(
    title: QTermView,
    d: BrainzMultiSearchView,
    m: BrainzMetadataView,
) -> bool {
    &&& m.brainz_recording_id is None
    &&& m.title == match term_text(title) {
        Some(t) => t,
        None => d.title,
    }
    &&& m.artist =~= seq!["Nightcore"@]
    &&& m.album == Some("Nightcore"@)
}

/// How one resolution proceeds: by recording identifier, with a ready result
/// that needs no lookup, or by trying candidate searches in order.
#[derive(Debug, Clone)]
pub enum ResolvePlan {
    ById(String),
    Ready(BrainzMetadata),
    TryInOrder(Vec<RecordingSearch>),
}

/// The plan for one resolution input. A present `trackid` is looked up
/// directly. Otherwise the candidates are derived; if one of them mentions
/// nightcore among its artists, the first such candidate determines a
/// synthetic result and no lookup happens; else the candidates are tried in
/// order.
pub fn plan_resolution(dlp: &BrainzMultiSearch) -> (r: ResolvePlan)
    ensures
        match dlp@.trackid {
            Some(tid) => r matches ResolvePlan::ById(s) && s@ == tid,
            None => {
                let cands = spec_candidates(dlp@);
                match first_nightcore_from(cands, 0) {
                    Some(i) => r matches ResolvePlan::Ready(m) && spec_nightcore_result(
                        cands[i].title,
                        dlp@,
                        m@,
                    ),
                    None => r matches ResolvePlan::TryInOrder(v) && search_views(v@) =~~= cands,
                }
            },
        },
{
    if let Some(tid) = &dlp.trackid {
        return ResolvePlan::ById(tid.clone());
    }
    let cands = derive_candidates(dlp);
    let ghost cvs = spec_candidates(dlp@);
    let n = cands.len();
    let mut i: usize = 0;
    while i < n
        invariant
            n == cands@.len(),
            i <= n,
            dlp@.trackid is None,
            cvs == spec_candidates(dlp@),
            search_views(cands@) =~~= cvs,
            first_nightcore_from(cvs, 0) == first_nightcore_from(cvs, i as int),
        decreases n - i,
    {
        proof {
            assert(cvs[i as int] == cands@[i as int]@);
        }
        if candidate_is_nightcore(&cands[i]) {
            let title = match cands[i].title.get_text() {
                Some(t) => String::from_str(t),
                None => dlp.title.clone(),
            };
            let mut artist: Vec<String> = Vec::new();
            artist.push(String::from_str("Nightcore"));
            let m = BrainzMetadata {
                brainz_recording_id: None,
                title,
                artist,
                album: Some(String::from_str("Nightcore")),
            };
            proof {
                assert(m@.artist =~= seq!["Nightcore"@]);
                assert(is_nightcore_candidate(cvs[i as int]));
                assert(first_nightcore_from(cvs, i as int) == Some(i as int));
                assert(first_nightcore_from(cvs, 0) == Some(i as int));
                assert(spec_nightcore_result(cvs[i as int].title, dlp@, m@));
            }
            return ResolvePlan::Ready(m);
        }
        i = i + 1;
    }
    ResolvePlan::TryInOrder(cands)
}

/// One recording of a provider response, reduced to plain values: its
/// identifier, title, credited artist names and release titles, in response
/// order.
#[derive(Debug, Clone)]
pub struct ParsedRecording {
    pub id: String,
    pub title: String,
    pub artist_names: Vec<String>,
    pub release_titles: Vec<String>,
}

/// The metadata taken from a response: the first recording wins; its first
/// release names the album. An empty response is `EmptyResult`.
pub fn metadata_from_recordings(recordings: Vec<ParsedRecording>) -> (r: Result<
    BrainzMetadata,
    BrainzError,
>)
    ensures
        recordings@.len() == 0 ==> (r matches Err(e) && e is EmptyResult),
        recordings@.len() > 0 ==> (r matches Ok(m) && {
            &&& m@.title == recordings@[0].title@
            &&& m@.artist == recordings@[0].artist_names.deep_view()
            &&& m@.album == if recordings@[0].release_titles@.len() > 0 {
                Some(recordings@[0].release_titles@[0]@)
            } else {
                None::<Seq<char>>
            }
            &&& m@.brainz_recording_id == Some(recordings@[0].id@)
        }),
{
    let mut recordings = recordings;
    if recordings.len() == 0 {
        return Err(BrainzError::EmptyResult);
    }
    let first = recordings.remove(0);
    let album = if first.release_titles.len() > 0 {
        Some(first.release_titles[0].clone())
    } else {
        None
    };
    Ok(
        BrainzMetadata {
            brainz_recording_id: Some(first.id),
            title: first.title,
            artist: first.artist_names,
            album,
        },
    )
}

} // verus!
