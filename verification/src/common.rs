//! Text clean-up shared by the search pipeline: HTML sanitising and the
//! normalisation applied to names of places and to free-text searches.

use vstd::prelude::*;
use crate::text::{
    all_ascii, ascii_lower, chars_of, find_char, is_ascii_alpha, is_ascii_alphabetic, is_trimmed, is_ws, lemma_trim_trimmed,
    push_char, split_once, string_from_range, trim,
};

verus! {

/// What `ammonia::is_html` answers for a text: whether sanitising it
/// would change it.
pub uninterp spec fn html_detected(s: Seq<char>) -> bool;

/// What `ammonia::clean` returns for a text: the text sanitised with
/// ammonia's default policy.
pub uninterp spec fn html_sanitized(s: Seq<char>) -> Seq<char>;

/// Calls `ammonia::is_html`. Its result is taken to be a function of the
/// text alone (the default tokenizer keeps no state between calls); nothing
/// more is claimed of it.
#[verifier::external_body]
fn ammonia_is_html(s: &str) -> (b: bool)
    ensures
        b == html_detected(s@),
{
    ammonia::is_html(s)
}

/// Calls `ammonia::clean`. Its result is taken to be a function of the
/// text alone (the default policy is fixed); nothing more is claimed of it.
#[verifier::external_body]
fn ammonia_clean(s: &str) -> (r: String)
    ensures
        r@ == html_sanitized(s@),
{
    ammonia::clean(s)
}

/// The text with HTML sanitised away when it holds any.
pub open spec fn spec_clean_html(s: Seq<char>) -> Seq<char> {
    if html_detected(s) {
        html_sanitized(s)
    } else {
        s
    }
}

/// Sanitises `str` when it holds HTML and hands it back unchanged
/// otherwise.
pub fn clean_html(str: String) -> (r: String)
    ensures
        r@ == spec_clean_html(str@),
{
    if ammonia_is_html(str.as_str()) {
        ammonia_clean(str.as_str())
    } else {
        str
    }
}


// ---------------------------------------------------------------------
// Lower case
// ---------------------------------------------------------------------

/// What `str::to_lowercase` returns for a text: each character replaced by
/// its Unicode lower-case mapping.
pub uninterp spec fn lowercase(s: Seq<char>) -> Seq<char>;

/// Each character of an ASCII text in lower case, as
/// `char::to_ascii_lowercase` writes it.
pub open spec fn ascii_lowercase_text(s: Seq<char>) -> Seq<char> {
    s.map_values(|c: char| ascii_lower(c))
}

/// Calls `str::to_lowercase`. Its result is a function of the text alone;
/// the Unicode case tables are not restated here. Of an ASCII text, whose
/// characters' Unicode lower-case mappings are the ASCII ones, it gives
/// the ASCII lower case.
#[verifier::external_body]
pub(crate) fn to_lowercase(s: &str) -> (r: String)
    ensures
        r@ == lowercase(s@),
        all_ascii(s@) ==> r@ == ascii_lowercase_text(s@),
{
    s.to_lowercase()
}

// ---------------------------------------------------------------------
// Normalisation
// ---------------------------------------------------------------------

/// `s` without the characters before its first ASCII letter.
pub open spec fn strip_non_alpha_start(s: Seq<char>) -> Seq<char>
    decreases s.len(),
{
    if s.len() > 0 && !is_ascii_alpha(s[0]) {
        strip_non_alpha_start(s.drop_first())
    } else {
        s
    }
}

/// `s` without the characters after its last ASCII letter.
pub open spec fn strip_non_alpha_end(s: Seq<char>) -> Seq<char>
    decreases s.len(),
{
    if s.len() > 0 && !is_ascii_alpha(s.last()) {
        strip_non_alpha_end(s.drop_last())
    } else {
        s
    }
}

/// The part of `s` from its first to its last ASCII letter (empty when it
/// has none).
pub open spec fn strip_non_alpha(s: Seq<char>) -> Seq<char> {
    strip_non_alpha_end(strip_non_alpha_start(s))
}

/// What `normalize` returns: the part from the first to the last ASCII
/// letter, trimmed, in lower case.
pub open spec fn spec_normalize(s: Seq<char>) -> Seq<char> {
    lowercase(trim(strip_non_alpha(s)))
}

/// The stripped text starts and ends with an ASCII letter.
pub proof fn lemma_strip_non_alpha_ends(s: Seq<char>)
    ensures
        strip_non_alpha(s).len() > 0 ==> is_ascii_alpha(strip_non_alpha(s)[0])
            && is_ascii_alpha(strip_non_alpha(s).last()),
{
    lemma_strip_start(s);
    lemma_strip_end(strip_non_alpha_start(s));
}

proof fn lemma_strip_start(s: Seq<char>)
    ensures
        strip_non_alpha_start(s).len() > 0 ==> is_ascii_alpha(strip_non_alpha_start(s)[0]),
    decreases s.len(),
{
    if s.len() > 0 && !is_ascii_alpha(s[0]) {
        lemma_strip_start(s.drop_first());
    }
}

proof fn lemma_strip_end(s: Seq<char>)
    ensures
        strip_non_alpha_end(s).len() > 0 ==> is_ascii_alpha(strip_non_alpha_end(s).last()),
        strip_non_alpha_end(s).len() > 0 && s.len() > 0 && is_ascii_alpha(s[0])
            ==> strip_non_alpha_end(s)[0] == s[0],
    decreases s.len(),
{
    if s.len() > 0 && !is_ascii_alpha(s.last()) {
        lemma_strip_end(s.drop_last());
    }
}

/// Trimming after stripping changes nothing: the stripped text starts and
/// ends with a letter, never with whitespace.
pub proof fn lemma_normalize_trim_is_noop(s: Seq<char>)
    ensures
        trim(strip_non_alpha(s)) == strip_non_alpha(s),
        spec_normalize(s) == lowercase(strip_non_alpha(s)),
{
    lemma_strip_non_alpha_ends(s);
    let t = strip_non_alpha(s);
    if t.len() > 0 {
        assert(!is_ws(t[0]) && !is_ws(t.last()));
    }
    assert(is_trimmed(t));
    lemma_trim_trimmed(t);
}

/// The sub-range `lo..hi` of `v` from its first to its last ASCII letter.
fn strip_non_alpha_range(v: &Vec<char>, lo: usize, hi: usize) -> (r: (usize, usize))
    requires
        lo <= hi <= v.len(),
    ensures
        lo <= r.0 <= r.1 <= hi,
        v@.subrange(r.0 as int, r.1 as int) == strip_non_alpha(v@.subrange(lo as int, hi as int)),
{
    let mut a = lo;
    while a < hi && !is_ascii_alphabetic(v[a])
        invariant
            lo <= a <= hi <= v.len(),
            strip_non_alpha_start(v@.subrange(lo as int, hi as int)) == strip_non_alpha_start(
                v@.subrange(a as int, hi as int),
            ),
        decreases hi - a,
    {
        assert(v@.subrange(a as int, hi as int).drop_first() =~= v@.subrange(a + 1, hi as int));
        a = a + 1;
    }
    let mut b = hi;
    while b > a && !is_ascii_alphabetic(v[b - 1])
        invariant
            lo <= a <= b <= hi <= v.len(),
            strip_non_alpha_end(v@.subrange(a as int, hi as int)) == strip_non_alpha_end(
                v@.subrange(a as int, b as int),
            ),
        decreases b - a,
    {
        assert(v@.subrange(a as int, b as int).drop_last() =~= v@.subrange(a as int, b - 1));
        b = b - 1;
    }
    (a, b)
}

/// What `normalize` returns for an ASCII text: the part from the first to
/// the last ASCII letter, in ASCII lower case.
pub open spec fn spec_ascii_normalize(s: Seq<char>) -> Seq<char> {
    ascii_lowercase_text(strip_non_alpha(s))
}

/// The ASCII lower case of a character keeps it ASCII, keeps a letter a
/// letter, and changes nothing once applied.
proof fn lemma_ascii_lower(c: char)
    ensures
        (c as u32) < 0x80 ==> (ascii_lower(c) as u32) < 0x80,
        is_ascii_alpha(c) ==> is_ascii_alpha(ascii_lower(c)),
        ascii_lower(ascii_lower(c)) == ascii_lower(c),
{
}

/// Stripping keeps a text ASCII.
proof fn lemma_strip_keeps_ascii(s: Seq<char>)
    requires
        all_ascii(s),
    ensures
        all_ascii(strip_non_alpha_start(s)),
        all_ascii(strip_non_alpha_end(s)),
    decreases s.len(),
{
    if s.len() > 0 {
        let a = s.drop_first();
        let b = s.drop_last();
        assert(all_ascii(a)) by {
            assert forall|i: int| 0 <= i < a.len() implies (a[i] as u32) < 0x80 by {
                assert(a[i] == s[i + 1]);
            }
        }
        assert(all_ascii(b)) by {
            assert forall|i: int| 0 <= i < b.len() implies (b[i] as u32) < 0x80 by {
                assert(b[i] == s[i]);
            }
        }
        lemma_strip_keeps_ascii(a);
        lemma_strip_keeps_ascii(b);
    }
}

/// Normalising is idempotent: the normal form of a normal form is itself,
/// and the normal form of an ASCII text is ASCII, so `normalize` applied
/// to its own result on an ASCII text gives that result back.
pub proof fn lemma_ascii_normalize_idempotent(s: Seq<char>)
    ensures
        spec_ascii_normalize(spec_ascii_normalize(s)) == spec_ascii_normalize(s),
        all_ascii(s) ==> all_ascii(spec_ascii_normalize(s)),
{
    let t = strip_non_alpha(s);
    let r = spec_ascii_normalize(s);
    lemma_strip_non_alpha_ends(s);
    assert(r.len() == t.len());
    if r.len() > 0 {
        lemma_ascii_lower(t[0]);
        lemma_ascii_lower(t.last());
        assert(r[0] == ascii_lower(t[0]));
        assert(r.last() == ascii_lower(t.last()));
        assert(strip_non_alpha_start(r) == r);
        assert(strip_non_alpha_end(r) == r);
    } else {
        assert(strip_non_alpha_start(r) == r);
        assert(strip_non_alpha_end(r) == r);
    }
    assert(strip_non_alpha(r) == r);
    assert forall|i: int| 0 <= i < r.len() implies ascii_lower(#[trigger] r[i]) == r[i] by {
        lemma_ascii_lower(t[i]);
    }
    assert(ascii_lowercase_text(r) =~= r);
    if all_ascii(s) {
        lemma_strip_keeps_ascii(s);
        lemma_strip_keeps_ascii(strip_non_alpha_start(s));
        assert forall|i: int| 0 <= i < r.len() implies (#[trigger] r[i] as u32) < 0x80 by {
            lemma_ascii_lower(t[i]);
        }
    }
}

/// Normalises a name: keeps the part from the first to the last ASCII
/// letter, trims it and puts it in lower case; of an ASCII name, in ASCII
/// lower case.
pub fn normalize(str: &str) -> (r: String)
    ensures
        r@ == spec_normalize(str@),
        all_ascii(str@) ==> r@ == spec_ascii_normalize(str@),
{
    let v = chars_of(str);
    let n = v.len();
    assert(v@.subrange(0, n as int) =~= v@);
    let (a, b) = strip_non_alpha_range(&v, 0, n);
    proof {
        lemma_normalize_trim_is_noop(str@);
    }
    let stripped = string_from_range(&v, a, b);
    proof {
        if all_ascii(str@) {
            assert forall|i: int| 0 <= i < stripped@.len() implies (#[trigger] stripped@[i] as u32)
                < 0x80 by {
                assert(stripped@[i] == v@[a + i]);
            }
        }
    }
    to_lowercase(stripped.as_str())
}

// ---------------------------------------------------------------------
// Searches with a place filter
// ---------------------------------------------------------------------

/// A search for people, optionally filtered by province and city. The
/// filters are SQL `LIKE` patterns.
#[derive(Debug)]
pub struct SearchString {
    pub query: String,
    pub provincia: Option<String>,
    pub ciudad: Option<String>,
}

/// The mathematical value of a [`SearchString`].
pub struct SearchStringView {
    pub query: Seq<char>,
    pub provincia: Option<Seq<char>>,
    pub ciudad: Option<Seq<char>>,
}

impl View for SearchString {
    type V = SearchStringView;

    open spec fn view(&self) -> SearchStringView {
        SearchStringView {
            query: self.query@,
            provincia: match self.provincia {
                Some(p) => Some(p@),
                None => None,
            },
            ciudad: match self.ciudad {
                Some(c) => Some(c@),
                None => None,
            },
        }
    }
}

/// The `LIKE` pattern that matches any text holding the normalised `s`.
pub open spec fn like_pattern(s: Seq<char>) -> Seq<char> {
    seq!['%'] + spec_normalize(s) + seq!['%']
}

/// What `SearchString::parse` reads from `s`: `<query>` alone, or
/// `<query>|<province>`, or `<query>|<province>,<city>`.
pub open spec fn spec_search_string(s: Seq<char>) -> SearchStringView {
    match split_once(s, '|') {
        Some(qf) => match split_once(qf.1, ',') {
            Some(pc) => SearchStringView {
                query: spec_normalize(qf.0),
                provincia: Some(like_pattern(pc.0)),
                ciudad: Some(like_pattern(pc.1)),
            },
            None => SearchStringView {
                query: spec_normalize(qf.0),
                provincia: Some(like_pattern(qf.1)),
                ciudad: None,
            },
        },
        None => SearchStringView { query: spec_normalize(s), provincia: None, ciudad: None },
    }
}

/// `%` + the normalised `s` + `%`.
fn like_of(s: &str) -> (r: String)
    ensures
        r@ == like_pattern(s@),
{
    let mut r = String::new();
    push_char(&mut r, '%');
    let norm = normalize(s);
    r.append(norm.as_str());
    push_char(&mut r, '%');
    r
}

impl SearchString {
    /// Reads a search with an optional place filter.
    pub fn parse(search_str: &str) -> (r: Self)
        ensures
            r@ == spec_search_string(search_str@),
    {
        let v = chars_of(search_str);
        let n = v.len();
        assert(v@.subrange(0, n as int) =~= v@);
        match find_char(&v, 0, n, '|') {
            Some(i) => {
                let query = string_from_range(&v, 0, i);
                let filters = string_from_range(&v, i + 1, n);
                let fv = chars_of(filters.as_str());
                let fnn = fv.len();
                assert(fv@.subrange(0, fnn as int) =~= fv@);
                match find_char(&fv, 0, fnn, ',') {
                    Some(j) => {
                        let provincia = string_from_range(&fv, 0, j);
                        let ciudad = string_from_range(&fv, j + 1, fnn);
                        SearchString {
                            query: normalize(query.as_str()),
                            provincia: Some(like_of(provincia.as_str())),
                            ciudad: Some(like_of(ciudad.as_str())),
                        }
                    },
                    None => SearchString {
                        query: normalize(query.as_str()),
                        provincia: Some(like_of(filters.as_str())),
                        ciudad: None,
                    },
                }
            },
            None => SearchString { query: normalize(search_str), provincia: None, ciudad: None },
        }
    }
}

} // verus!
