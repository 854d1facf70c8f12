//! Verified text utilities over character sequences.
//!
//! Titles, artists, identifiers and query strings are manipulated as
//! sequences of characters; every helper here carries an exact contract.

use vstd::prelude::*;

verus! {

/// The whitespace characters that trimming removes.
pub open spec fn is_ws(c: char) -> bool {
    c == ' ' || c == '\t' || c == '\n' || c == '\r'
}

/// The ASCII upper-case image of one character.
pub open spec fn spec_upper_char(c: char) -> char {
    if 'a' <= c && c <= 'z' {
        (((c as u8) - 0x20u8) as char)
    } else {
        c
    }
}

/// A sequence mapped to ASCII upper case.
pub open spec fn spec_upper(s: Seq<char>) -> Seq<char> {
    s.map_values(|c: char| spec_upper_char(c))
}

pub fn upper_char(c: char) -> (r: char)
    ensures
        r == spec_upper_char(c),
{
    if 'a' <= c && c <= 'z' {
        ((c as u8) - 0x20u8) as char
    } else {
        c
    }
}

/// The characters of `s`, in order.
pub fn chars_of(s: &str) -> (v: Vec<char>)
    ensures
        v@ == s@,
{
    let n = s.unicode_len();
    let mut v: Vec<char> = Vec::new();
    for i in 0..n
        invariant
            n == s@.len(),
            v@ == s@.take(i as int),
    {
        v.push(s.get_char(i));
    }
    proof {
        assert(v@ =~= s@);
    }
    v
}

/// Appends one character to a string.
///
/// Relies on String::push appending exactly that character.
#[verifier::external_body]
pub fn push_char(s: &mut String, c: char)
    ensures
        final(s)@ == old(s)@.push(c),
{
    s.push(c);
}

/// A string holding exactly the characters of `v`.
pub fn string_from_chars(v: &Vec<char>) -> (s: String)
    ensures
        s@ == v@,
{
    let mut s = String::new();
    for i in 0..v.len()
        invariant
            s@ == v@.take(i as int),
    {
        push_char(&mut s, v[i]);
    }
    proof {
        assert(s@ =~= v@);
    }
    s
}

/// Whether two string slices hold the same characters.
///
/// Relies on str's PartialEq: two slices are equal exactly when their
/// character sequences are.
#[verifier::external_body]
pub fn str_eq(a: &str, b: &str) -> (r: bool)
    ensures
        r == (a@ == b@),
{
    a == b
}

/// `s` without leading whitespace.
pub open spec fn spec_trim_start(s: Seq<char>) -> Seq<char>
    decreases s.len(),
{
    if s.len() > 0 && is_ws(s[0]) {
        spec_trim_start(s.drop_first())
    } else {
        s
    }
}

/// `s` without trailing whitespace.
pub open spec fn spec_trim_end(s: Seq<char>) -> Seq<char>
    decreases s.len(),
{
    if s.len() > 0 && is_ws(s.last()) {
        spec_trim_end(s.drop_last())
    } else {
        s
    }
}

/// `s` without leading and trailing whitespace.
pub open spec fn spec_trim(s: Seq<char>) -> Seq<char> {
    spec_trim_end(spec_trim_start(s))
}

proof fn lemma_trim_start_range(s: Seq<char>, i: int)
    requires
        0 <= i <= s.len(),
        forall|j: int| 0 <= j < i ==> is_ws(s[j]),
        i < s.len() ==> !is_ws(s[i]),
    ensures
        spec_trim_start(s) == s.subrange(i, s.len() as int),
    decreases i,
{
    if i == 0 {
        assert(s.subrange(0, s.len() as int) =~= s);
    } else {
        assert(is_ws(s[0]));
        lemma_trim_start_range(s.drop_first(), i - 1);
        assert(s.drop_first().subrange(i - 1, s.drop_first().len() as int) =~= s.subrange(
            i,
            s.len() as int,
        ));
    }
}

proof fn lemma_trim_end_range(s: Seq<char>, i: int)
    requires
        0 <= i <= s.len(),
        forall|j: int| i <= j < s.len() ==> is_ws(s[j]),
        i > 0 ==> !is_ws(s[i - 1]),
    ensures
        spec_trim_end(s) == s.subrange(0, i),
    decreases s.len() - i,
{
    if i == s.len() {
        assert(s.subrange(0, i) =~= s);
    } else {
        assert(is_ws(s.last()));
        lemma_trim_end_range(s.drop_last(), i);
        assert(s.drop_last().subrange(0, i) =~= s.subrange(0, i));
    }
}

/// The characters of `v` without leading and trailing whitespace.
pub fn trim_chars(v: &Vec<char>) -> (r: Vec<char>)
    ensures
        r@ == spec_trim(v@),
{
    let n = v.len();
    let mut start: usize = 0;
    while start < n && (v[start] == ' ' || v[start] == '\t' || v[start] == '\n' || v[start] == '\r')
        invariant
            n == v@.len(),
            0 <= start <= n,
            forall|j: int| 0 <= j < start ==> is_ws(v@[j]),
        decreases n - start,
    {
        start = start + 1;
    }
    let mut end: usize = n;
    while end > start && (v[end - 1] == ' ' || v[end - 1] == '\t' || v[end - 1] == '\n' || v[end
        - 1] == '\r')
        invariant
            n == v@.len(),
            0 <= start <= end <= n,
            forall|j: int| 0 <= j < start ==> is_ws(v@[j]),
            start < n ==> !is_ws(v@[start as int]),
            forall|j: int| end <= j < n ==> is_ws(v@[j]),
        decreases end,
    {
        end = end - 1;
    }
    let mut r: Vec<char> = Vec::new();
    let mut i: usize = start;
    while i < end
        invariant
            0 <= start <= i <= end <= n,
            n == v@.len(),
            r@ == v@.subrange(start as int, i as int),
        decreases end - i,
    {
        r.push(v[i]);
        proof {
            assert(r@ =~= v@.subrange(start as int, i + 1 as int));
        }
        i = i + 1;
    }
    proof {
        lemma_trim_start_range(v@, start as int);
        let t = v@.subrange(start as int, n as int);
        lemma_trim_end_range(t, end - start as int);
        assert(t.subrange(0, end - start as int) =~= v@.subrange(start as int, end as int));
    }
    r
}

/// Whether `pat` occurs in `s` starting at `i`.
pub open spec fn match_at(s: Seq<char>, pat: Seq<char>, i: int) -> bool {
    0 <= i && i + pat.len() <= s.len() && s.subrange(i, i + pat.len()) == pat
}

/// The first occurrence of a non-empty `pat` in `s` at or after `from`.
pub open spec fn spec_find(s: Seq<char>, pat: Seq<char>, from: int) -> Option<int>
    decreases s.len() - from,
{
    if from < 0 || pat.len() == 0 || from + pat.len() > s.len() {
        None
    } else if s.subrange(from, from + pat.len()) == pat {
        Some(from)
    } else {
        spec_find(s, pat, from + 1)
    }
}

/// Whether `pat` occurs anywhere in `s`.
pub open spec fn spec_contains(s: Seq<char>, pat: Seq<char>) -> bool {
    spec_find(s, pat, 0) is Some
}

/// Whether `v` matches `pat` at position `i`.
fn is_match_at(v: &Vec<char>, pat: &Vec<char>, i: usize) -> (r: bool)
    requires
        i + pat@.len() <= v@.len(),
    ensures
        r == match_at(v@, pat@, i as int),
{
    let n = v.len();
    let mut j: usize = 0;
    while j < pat.len()
        invariant
            n == v@.len(),
            i + pat@.len() <= v@.len(),
            0 <= j <= pat@.len(),
            forall|k: int| 0 <= k < j ==> v@[i + k] == pat@[k],
        decreases pat@.len() - j,
    {
        if v[i + j] != pat[j] {
            proof {
                assert(v@.subrange(i as int, i + pat@.len())[j as int] == v@[i + j]);
            }
            return false;
        }
        j = j + 1;
    }
    proof {
        assert(v@.subrange(i as int, i + pat@.len()) =~= pat@);
    }
    true
}

/// The position of the first occurrence of `pat` in `v` at or after `from`.
pub fn find_in(v: &Vec<char>, pat: &Vec<char>, from: usize) -> (r: Option<usize>)
    requires
        from <= v@.len(),
    ensures
        match r {
            Some(i) => spec_find(v@, pat@, from as int) == Some(i as int),
            None => spec_find(v@, pat@, from as int) is None,
        },
{
    if pat.len() == 0 || pat.len() > v.len() {
        return None;
    }
    let n = v.len();
    let last = n - pat.len();
    let mut i: usize = from;
    loop
        invariant
            from <= i,
            pat@.len() >= 1,
            pat@.len() <= v@.len(),
            n == v@.len(),
            last == v@.len() - pat@.len(),
            spec_find(v@, pat@, from as int) == spec_find(v@, pat@, i as int),
        decreases v@.len() + 1 - i,
    {
        if i > last {
            return None;
        }
        if is_match_at(v, pat, i) {
            return Some(i);
        }
        i = i + 1;
    }
}

/// Whether `pat` occurs anywhere in `v`.
pub fn contains_seq(v: &Vec<char>, pat: &Vec<char>) -> (r: bool)
    ensures
        r == spec_contains(v@, pat@),
{
    match find_in(v, pat, 0) {
        Some(_) => true,
        None => false,
    }
}

/// `s` split at every non-overlapping occurrence of `pat`, scanning left to
/// right. Without an occurrence the result is the single part `s`.
pub open spec fn spec_split(s: Seq<char>, pat: Seq<char>) -> Seq<Seq<char>>
    decreases s.len(),
    via spec_split_decreases
{
    if pat.len() == 0 {
        seq![s]
    } else {
        match spec_find(s, pat, 0) {
            None => seq![s],
            Some(i) => seq![s.subrange(0, i)] + spec_split(
                s.subrange(i + pat.len(), s.len() as int),
                pat,
            ),
        }
    }
}

#[via_fn]
proof fn spec_split_decreases(s: Seq<char>, pat: Seq<char>) {
    lemma_find_bounds(s, pat, 0);
}

pub proof fn lemma_find_bounds(s: Seq<char>, pat: Seq<char>, from: int)
    requires
        0 <= from,
    ensures
        match spec_find(s, pat, from) {
            Some(i) => from <= i && pat.len() >= 1 && i + pat.len() <= s.len() && match_at(
                s,
                pat,
                i,
            ),
            None => true,
        },
    decreases s.len() - from,
{
    if !(from < 0 || pat.len() == 0 || from + pat.len() > s.len()) && !(s.subrange(
        from,
        from + pat.len(),
    ) == pat) {
        lemma_find_bounds(s, pat, from + 1);
    }
}

/// The parts of `v` separated by `pat`.
pub fn split_seq(v: &Vec<char>, pat: &Vec<char>) -> (r: Vec<Vec<char>>)
    requires
        pat@.len() >= 1,
    ensures
        r.deep_view() == spec_split(v@, pat@),
        r@.len() >= 1,
{
    let mut rest: Vec<char> = Vec::new();
    let mut i: usize = 0;
    while i < v.len()
        invariant
            0 <= i <= v@.len(),
            rest@ == v@.take(i as int),
        decreases v@.len() - i,
    {
        rest.push(v[i]);
        proof {
            assert(rest@ =~= v@.take(i + 1 as int));
        }
        i = i + 1;
    }
    proof {
        assert(rest@ =~= v@);
    }
    let mut parts: Vec<Vec<char>> = Vec::new();
    loop
        invariant
            pat@.len() >= 1,
            spec_split(v@, pat@) =~~= parts.deep_view() + spec_split(rest@, pat@),
        decreases rest@.len(),
    {
        match find_in(&rest, pat, 0) {
            None => {
                proof {
                    assert(spec_split(rest@, pat@) =~~= seq![rest@]);
                }
                let ghost pre = parts.deep_view();
                let ghost prev_rest = rest@;
                parts.push(rest);
                proof {
                    assert(parts.deep_view() =~~= pre.push(prev_rest));
                    assert(spec_split(v@, pat@) =~~= parts.deep_view());
                }
                return parts;
            },
            Some(idx) => {
                let rlen = rest.len();
                proof {
                    lemma_find_bounds(rest@, pat@, 0);
                    assert(idx + pat@.len() <= rlen as int);
                }
                let mut head: Vec<char> = Vec::new();
                let mut j: usize = 0;
                while j < idx
                    invariant
                        idx <= rest@.len(),
                        0 <= j <= idx,
                        head@ == rest@.subrange(0, j as int),
                    decreases idx - j,
                {
                    head.push(rest[j]);
                    proof {
                        assert(head@ =~= rest@.subrange(0, j + 1 as int));
                    }
                    j = j + 1;
                }
                let mut tail: Vec<char> = Vec::new();
                let start: usize = idx + pat.len();
                let mut k: usize = start;
                while k < rest.len()
                    invariant
                        start as int <= rest@.len(),
                        start <= k,
                        k as int <= rest@.len(),
                        tail@ == rest@.subrange(start as int, k as int),
                    decreases rest@.len() - k,
                {
                    tail.push(rest[k]);
                    proof {
                        assert(tail@ =~= rest@.subrange(start as int, k + 1 as int));
                    }
                    k = k + 1;
                }
                let ghost pre = parts.deep_view();
                let ghost prev_rest = rest@;
                parts.push(head);
                rest = tail;
                proof {
                    assert(parts.deep_view() =~~= pre.push(prev_rest.subrange(0, idx as int)));
                    assert(rest@ =~= prev_rest.subrange(idx + pat@.len(), prev_rest.len() as int));
                    assert(spec_split(prev_rest, pat@) =~~= seq![
                        prev_rest.subrange(0, idx as int),
                    ] + spec_split(rest@, pat@));
                    assert(parts.deep_view() + spec_split(rest@, pat@) =~~= pre + spec_split(
                        prev_rest,
                        pat@,
                    ));
                }
            },
        }
    }
}

/// The parts joined with `sep` between consecutive parts.
pub open spec fn spec_join(parts: Seq<Seq<char>>, sep: Seq<char>) -> Seq<char>
    decreases parts.len(),
{
    if parts.len() == 0 {
        Seq::empty()
    } else if parts.len() == 1 {
        parts[0]
    } else {
        parts[0] + sep + spec_join(parts.drop_first(), sep)
    }
}

proof fn lemma_join_push(parts: Seq<Seq<char>>, sep: Seq<char>, x: Seq<char>)
    ensures
        spec_join(parts.push(x), sep) == if parts.len() == 0 {
            x
        } else {
            spec_join(parts, sep) + sep + x
        },
    decreases parts.len(),
{
    if parts.len() == 0 {
        assert(parts.push(x)[0] =~= x);
        assert(spec_join(parts.push(x), sep) =~= x);
    } else if parts.len() == 1 {
        assert(parts.push(x).drop_first() =~= seq![x]);
        assert(spec_join(seq![x], sep) == x);
        assert(spec_join(parts.push(x), sep) == parts.push(x)[0] + sep + spec_join(
            parts.push(x).drop_first(),
            sep,
        ));
        assert(parts.push(x)[0] == parts[0]);
        assert(spec_join(parts, sep) == parts[0]);
    } else {
        lemma_join_push(parts.drop_first(), sep, x);
        assert(parts.push(x).drop_first() =~= parts.drop_first().push(x));
        assert(spec_join(parts.push(x), sep) =~= parts[0] + sep + spec_join(
            parts.drop_first().push(x),
            sep,
        ));
        assert(spec_join(parts, sep) + sep + x =~= parts[0] + sep + (spec_join(
            parts.drop_first(),
            sep,
        ) + sep + x));
    }
}

/// The strings of `parts` joined with `sep`.
pub fn join_strings(parts: &Vec<String>, sep: &str) -> (r: String)
    ensures
        r@ == spec_join(parts.deep_view(), sep@),
{
    let mut r = String::new();
    for i in 0..parts.len()
        invariant
            r@ == spec_join(parts.deep_view().take(i as int), sep@),
    {
        if i > 0 {
            r.append(sep);
        }
        r.append(parts[i].as_str());
        proof {
            let pv = parts.deep_view();
            assert(pv.take(i + 1 as int) =~= pv.take(i as int).push(pv[i as int]));
            lemma_join_push(pv.take(i as int), sep@, pv[i as int]);
            assert(parts@[i as int]@ == pv[i as int]);
        }
    }
    proof {
        assert(parts.deep_view().take(parts@.len() as int) =~= parts.deep_view());
    }
    r
}

/// The characters of `v` in ASCII upper case.
pub fn upper_chars(v: &Vec<char>) -> (r: Vec<char>)
    ensures
        r@ == spec_upper(v@),
{
    let mut r: Vec<char> = Vec::new();
    for i in 0..v.len()
        invariant
            r@ == spec_upper(v@.take(i as int)),
    {
        r.push(upper_char(v[i]));
        proof {
            assert(spec_upper(v@.take(i + 1 as int)) =~= spec_upper(v@.take(i as int)).push(
                spec_upper_char(v@[i as int]),
            ));
        }
    }
    proof {
        assert(v@.take(v@.len() as int) =~= v@);
    }
    r
}



/// Upper-casing is idempotent.
pub proof fn lemma_upper_idempotent(s: Seq<char>)
    ensures
        spec_upper(spec_upper(s)) == spec_upper(s),
{
    assert forall|k: int| 0 <= k < s.len() implies spec_upper_char(
        #[trigger] spec_upper(s)[k],
    ) == spec_upper(s)[k] by {
        assert(spec_upper(s)[k] == spec_upper_char(s[k]));
    }
    assert(spec_upper(spec_upper(s)) =~= spec_upper(s));
}

/// The normal form of an operator-supplied field: trimmed, and absent when
/// nothing remains.
pub open spec fn spec_norm(s: Seq<char>) -> Option<Seq<char>> {
    if spec_trim(s).len() == 0 {
        None
    } else {
        Some(spec_trim(s))
    }
}

/// The normal form of an optional operator-supplied field.
pub open spec fn spec_norm_opt(o: Option<Seq<char>>) -> Option<Seq<char>> {
    match o {
        Some(s) => spec_norm(s),
        None => None,
    }
}

/// A field trimmed, and dropped when nothing remains.
pub fn norm_string(s: Option<&str>) -> (r: Option<String>)
    ensures
        match s {
            Some(t) => match spec_norm(t@) {
                Some(n) => r matches Some(rs) && rs@ == n,
                None => r is None,
            },
            None => r is None,
        },
{
    match s {
        Some(t) => {
            let cs = chars_of(t);
            let trimmed = trim_chars(&cs);
            if trimmed.len() == 0 {
                None
            } else {
                Some(string_from_chars(&trimmed))
            }
        },
        None => None,
    }
}

} // verus!

