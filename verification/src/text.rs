//! Character classes and string primitives, with their meaning over
//! `Seq<char>`: whitespace trimming, first occurrence of a character,
//! splitting, and conversion between `String` and `Vec<char>`.

use vstd::prelude::*;

verus! {

// ---------------------------------------------------------------------
// Character classes
// ---------------------------------------------------------------------

/// The Unicode `White_Space` property (what `char::is_whitespace` and
/// `str::trim` test).
pub open spec fn is_ws(c: char) -> bool {
    let u = c as u32;
    ||| (0x09 <= u && u <= 0x0D)
    ||| u == 0x20
    ||| u == 0x85
    ||| u == 0xA0
    ||| u == 0x1680
    ||| (0x2000 <= u && u <= 0x200A)
    ||| u == 0x2028
    ||| u == 0x2029
    ||| u == 0x202F
    ||| u == 0x205F
    ||| u == 0x3000
}

/// Whether `c` is whitespace in the sense of `char::is_whitespace`.
pub fn is_whitespace(c: char) -> (b: bool)
    ensures
        b == is_ws(c),
{
    let u = c as u32;
    (0x09 <= u && u <= 0x0D) || u == 0x20 || u == 0x85 || u == 0xA0 || u == 0x1680 || (0x2000
        <= u && u <= 0x200A) || u == 0x2028 || u == 0x2029 || u == 0x202F || u == 0x205F || u
        == 0x3000
}

/// The Unicode general category `Cc` (what `char::is_control` tests).
pub open spec fn is_cc(c: char) -> bool {
    let u = c as u32;
    u <= 0x1F || (0x7F <= u && u <= 0x9F)
}

/// Whether `c` is a control character in the sense of `char::is_control`.
pub fn is_control(c: char) -> (b: bool)
    ensures
        b == is_cc(c),
{
    let u = c as u32;
    u <= 0x1F || (0x7F <= u && u <= 0x9F)
}

/// ASCII letters, `[A-Za-z]`.
pub open spec fn is_ascii_alpha(c: char) -> bool {
    let u = c as u32;
    (0x41 <= u && u <= 0x5A) || (0x61 <= u && u <= 0x7A)
}

/// Whether `c` is an ASCII letter, as `char::is_ascii_alphabetic` tests.
pub fn is_ascii_alphabetic(c: char) -> (b: bool)
    ensures
        b == is_ascii_alpha(c),
{
    let u = c as u32;
    (0x41 <= u && u <= 0x5A) || (0x61 <= u && u <= 0x7A)
}

/// `char::to_ascii_uppercase`: lower-case ASCII letters are mapped to
/// upper case, every other character is kept.
pub open spec fn ascii_upper(c: char) -> char {
    let u = c as u32;
    if 0x61 <= u && u <= 0x7A {
        ((u - 32) as u32) as char
    } else {
        c
    }
}

/// Every character of `s` is ASCII.
pub open spec fn all_ascii(s: Seq<char>) -> bool {
    forall|i: int| 0 <= i < s.len() ==> (s[i] as u32) < 0x80
}

// ---------------------------------------------------------------------
// Trimming
// ---------------------------------------------------------------------

/// `s` without its leading whitespace.
pub open spec fn trim_start(s: Seq<char>) -> Seq<char>
    decreases s.len(),
{
    if s.len() > 0 && is_ws(s[0]) {
        trim_start(s.drop_first())
    } else {
        s
    }
}

/// `s` without its trailing whitespace.
pub open spec fn trim_end(s: Seq<char>) -> Seq<char>
    decreases s.len(),
{
    if s.len() > 0 && is_ws(s.last()) {
        trim_end(s.drop_last())
    } else {
        s
    }
}

/// `s` without leading and trailing whitespace (`str::trim`).
pub open spec fn trim(s: Seq<char>) -> Seq<char> {
    trim_end(trim_start(s))
}

/// A sequence that neither starts nor ends with whitespace.
pub open spec fn is_trimmed(s: Seq<char>) -> bool {
    s.len() > 0 ==> !is_ws(s[0]) && !is_ws(s.last())
}

/// `trim_start` drops a prefix made of whitespace, and stops at a
/// character that is not whitespace.
pub proof fn lemma_trim_start(s: Seq<char>)
    ensures
        exists|k: int|
            #![trigger s.subrange(k, s.len() as int)]
            0 <= k <= s.len() && trim_start(s) == s.subrange(k, s.len() as int) && (forall|i: int|
                0 <= i < k ==> is_ws(s[i])),
        trim_start(s).len() > 0 ==> !is_ws(trim_start(s)[0]),
        trim_start(s).len() <= s.len(),
    decreases s.len(),
{
    if s.len() > 0 && is_ws(s[0]) {
        lemma_trim_start(s.drop_first());
        let k = choose|k: int|
            #![trigger s.drop_first().subrange(k, s.drop_first().len() as int)]
            0 <= k <= s.drop_first().len() && trim_start(s.drop_first()) == s.drop_first().subrange(
                k,
                s.drop_first().len() as int,
            ) && (forall|i: int| 0 <= i < k ==> is_ws(s.drop_first()[i]));
        assert(s.drop_first().subrange(k, s.drop_first().len() as int) =~= s.subrange(
            k + 1,
            s.len() as int,
        ));
        assert forall|i: int| 0 <= i < k + 1 implies is_ws(s[i]) by {
            if i > 0 {
                assert(s[i] == s.drop_first()[i - 1]);
            }
        }
    } else {
        assert(s.subrange(0, s.len() as int) =~= s);
    }
}

/// `trim_end` drops a suffix made of whitespace, and stops at a character
/// that is not whitespace.
pub proof fn lemma_trim_end(s: Seq<char>)
    ensures
        exists|k: int|
            #![trigger s.subrange(0, k)]
            0 <= k <= s.len() && trim_end(s) == s.subrange(0, k) && (forall|i: int|
                k <= i < s.len() ==> is_ws(s[i])),
        trim_end(s).len() > 0 ==> !is_ws(trim_end(s).last()),
        trim_end(s).len() <= s.len(),
    decreases s.len(),
{
    if s.len() > 0 && is_ws(s.last()) {
        lemma_trim_end(s.drop_last());
        let k = choose|k: int|
            #![trigger s.drop_last().subrange(0, k)]
            0 <= k <= s.drop_last().len() && trim_end(s.drop_last()) == s.drop_last().subrange(0, k)
                && (forall|i: int| k <= i < s.drop_last().len() ==> is_ws(s.drop_last()[i]));
        assert(s.drop_last().subrange(0, k) =~= s.subrange(0, k));
        assert forall|i: int| k <= i < s.len() implies is_ws(s[i]) by {
            if i < s.len() - 1 {
                assert(s[i] == s.drop_last()[i]);
            }
        }
    } else {
        assert(s.subrange(0, s.len() as int) =~= s);
    }
}

/// The result of `trim` neither starts nor ends with whitespace, and a
/// sequence without such ends is its own trim.
pub proof fn lemma_trim_trimmed(s: Seq<char>)
    ensures
        is_trimmed(trim(s)),
        trim(s).len() <= s.len(),
        is_trimmed(s) ==> trim(s) == s,
{
    lemma_trim_start(s);
    lemma_trim_end(trim_start(s));
    let t = trim_start(s);
    if trim(s).len() > 0 {
        let k = choose|k: int|
            #![trigger t.subrange(0, k)]
            0 <= k <= t.len() && trim_end(t) == t.subrange(0, k) && (forall|i: int|
                k <= i < t.len() ==> is_ws(t[i]));
        assert(trim(s)[0] == t[0]);
    }
    if is_trimmed(s) {
        if s.len() > 0 {
            assert(trim_start(s) == s);
            assert(trim_end(s) == s);
        }
    }
}

/// Trimming twice is trimming once.
pub proof fn lemma_trim_idempotent(s: Seq<char>)
    ensures
        trim(trim(s)) == trim(s),
{
    lemma_trim_trimmed(s);
    lemma_trim_trimmed(trim(s));
}

/// Trimming the end of `a + b` only trims `b` when `b` holds a character
/// that is not whitespace.
pub proof fn lemma_trim_end_concat(a: Seq<char>, b: Seq<char>)
    requires
        exists|i: int| 0 <= i < b.len() && !is_ws(#[trigger] b[i]),
    ensures
        trim_end(a + b) == a + trim_end(b),
    decreases b.len(),
{
    let j = choose|i: int| 0 <= i < b.len() && !is_ws(#[trigger] b[i]);
    assert((a + b).last() == b.last());
    if is_ws(b.last()) {
        assert(j < b.len() - 1);
        assert(b.drop_last()[j] == b[j]);
        lemma_trim_end_concat(a, b.drop_last());
        assert((a + b).drop_last() =~= a + b.drop_last());
    }
}

/// What `trim` keeps of `s`: a character absent from `s` is absent from
/// its trim, and a character of `s` that is not whitespace is kept.
pub proof fn lemma_trim_contains(s: Seq<char>, c: char)
    ensures
        !s.contains(c) ==> !trim(s).contains(c),
        (s.contains(c) && !is_ws(c)) ==> trim(s).contains(c),
{
    lemma_trim_start(s);
    let k = choose|k: int|
        #![trigger s.subrange(k, s.len() as int)]
        0 <= k <= s.len() && trim_start(s) == s.subrange(k, s.len() as int) && (forall|i: int|
            0 <= i < k ==> is_ws(s[i]));
    let t = trim_start(s);
    lemma_trim_end(t);
    let m = choose|m: int|
        #![trigger t.subrange(0, m)]
        0 <= m <= t.len() && trim_end(t) == t.subrange(0, m) && (forall|i: int|
            m <= i < t.len() ==> is_ws(t[i]));
    assert forall|i: int| 0 <= i < trim(s).len() implies #[trigger] trim(s)[i] == s[k + i] by {}
    if trim(s).contains(c) {
        let i = choose|i: int| 0 <= i < trim(s).len() && trim(s)[i] == c;
        assert(s[k + i] == c);
    }
    if s.contains(c) && !is_ws(c) {
        let i = choose|i: int| 0 <= i < s.len() && s[i] == c;
        assert(i >= k);
        assert(t[i - k] == c);
        assert(i - k < m);
        assert(trim(s)[i - k] == c);
    }
}

/// The sub-range `lo..hi` of `v` with its leading and trailing whitespace
/// removed, returned as a sub-range of `v`.
pub fn trim_range(v: &Vec<char>, lo: usize, hi: usize) -> (r: (usize, usize))
    requires
        lo <= hi <= v.len(),
    ensures
        lo <= r.0 <= r.1 <= hi,
        v@.subrange(r.0 as int, r.1 as int) == trim(v@.subrange(lo as int, hi as int)),
{
    let mut a = lo;
    while a < hi && is_whitespace(v[a])
        invariant
            lo <= a <= hi <= v.len(),
            trim_start(v@.subrange(lo as int, hi as int)) == trim_start(
                v@.subrange(a as int, hi as int),
            ),
        decreases hi - a,
    {
        assert(v@.subrange(a as int, hi as int).drop_first() =~= v@.subrange(
            a + 1,
            hi as int,
        ));
        a = a + 1;
    }
    let mut b = hi;
    while b > a && is_whitespace(v[b - 1])
        invariant
            lo <= a <= b <= hi <= v.len(),
            trim_end(v@.subrange(a as int, hi as int)) == trim_end(v@.subrange(a as int, b as int)),
        decreases b - a,
    {
        assert(v@.subrange(a as int, b as int).drop_last() =~= v@.subrange(
            a as int,
            b - 1,
        ));
        b = b - 1;
    }
    (a, b)
}

// ---------------------------------------------------------------------
// Searching and splitting
// ---------------------------------------------------------------------

/// `str::split_once(c)`: the parts before and after the first `c`.
pub open spec fn split_once(s: Seq<char>, c: char) -> Option<(Seq<char>, Seq<char>)> {
    match s.index_of_first(c) {
        Some(i) => Some((s.subrange(0, i), s.subrange(i + 1, s.len() as int))),
        None => None,
    }
}

/// `str::split(c)`: the pieces of `s` between occurrences of `c`, in
/// order; there is always at least one piece.
pub open spec fn split_all(s: Seq<char>, c: char) -> Seq<Seq<char>>
    decreases s.len(),
{
    match s.index_of_first(c) {
        Some(i) => {
            if 0 <= i < s.len() {
                seq![s.subrange(0, i)] + split_all(s.subrange(i + 1, s.len() as int), c)
            } else {
                seq![s]
            }
        },
        None => seq![s],
    }
}

/// How `split_all` takes apart the sub-range `lo..n` of `v` when its first
/// separator is at `i`, or when there is none.
pub proof fn lemma_split_step(v: Seq<char>, lo: int, n: int, c: char, i: Option<int>)
    requires
        0 <= lo <= n == v.len(),
        match i {
            Some(k) => lo <= k < n && v.subrange(lo, n).index_of_first(c) == Some(k - lo),
            None => v.subrange(lo, n).index_of_first(c) is None,
        },
    ensures
        match i {
            Some(k) => split_all(v.subrange(lo, n), c) == seq![v.subrange(lo, k)] + split_all(
                v.subrange(k + 1, n),
                c,
            ),
            None => split_all(v.subrange(lo, n), c) == seq![v.subrange(lo, n)],
        },
{
    let s = v.subrange(lo, n);
    match i {
        Some(k) => {
            assert(s.subrange(0, k - lo) =~= v.subrange(lo, k));
            assert(s.subrange(k - lo + 1, s.len() as int) =~= v.subrange(k + 1, n));
        },
        None => {},
    }
}

/// The first index in `lo..hi` at which `v` holds `c`, if any.
pub fn find_char(v: &Vec<char>, lo: usize, hi: usize, c: char) -> (r: Option<usize>)
    requires
        lo <= hi <= v.len(),
    ensures
        match r {
            Some(i) => {
                &&& lo <= i < hi
                &&& v@.subrange(lo as int, hi as int).index_of_first(c) == Some(i - lo)
            },
            None => v@.subrange(lo as int, hi as int).index_of_first(c) is None,
        },
{
    let ghost s = v@.subrange(lo as int, hi as int);
    proof {
        s.index_of_first_ensures(c);
    }
    let mut i = lo;
    while i < hi
        invariant
            lo <= i <= hi <= v.len(),
            s == v@.subrange(lo as int, hi as int),
            forall|j: int| lo <= j < i ==> v@[j] != c,
            match s.index_of_first(c) {
                Some(index) => {
                    &&& s.contains(c)
                    &&& 0 <= index < s.len()
                    &&& s[index] == c
                    &&& forall|j: int| 0 <= j < index < s.len() ==> s[j] != c
                },
                None => !s.contains(c),
            },
        decreases hi - i,
    {
        if v[i] == c {
            proof {
                assert(s[i - lo] == c);
                assert(s.contains(c));
                let index = s.index_of_first(c).unwrap();
                if index < i - lo {
                    assert(v@[lo + index] == c);
                }
                if index > i - lo {
                    assert(s[i - lo] != c);
                }
            }
            return Some(i);
        }
        i = i + 1;
    }
    proof {
        if s.contains(c) {
            let index = s.index_of_first(c).unwrap();
            assert(v@[lo + index] == c);
        }
    }
    None
}

// ---------------------------------------------------------------------
// Conversions
// ---------------------------------------------------------------------

/// The characters of `s`, in order.
pub fn chars_of(s: &str) -> (v: Vec<char>)
    ensures
        v@ == s@,
{
    let mut v: Vec<char> = Vec::new();
    for c in it: s.chars()
        invariant
            v@ == it.seq().take(it.index() as int),
    {
        v.push(c);
        assert(v@ =~= it.seq().take(it.index() + 1));
    }
    assert(v@ =~= s@);
    v
}

/// Appends `c` to `s` (`String::push`).
#[verifier::external_body]
pub(crate) fn push_char(s: &mut String, c: char)
    ensures
        final(s)@ == old(s)@.push(c),
{
    s.push(c);
}

/// The characters `lo..hi` of `v` as a `String`.
pub fn string_from_range(v: &Vec<char>, lo: usize, hi: usize) -> (s: String)
    requires
        lo <= hi <= v.len(),
    ensures
        s@ == v@.subrange(lo as int, hi as int),
{
    let mut s = String::new();
    let mut i = lo;
    while i < hi
        invariant
            lo <= i <= hi <= v.len(),
            s@ == v@.subrange(lo as int, i as int),
        decreases hi - i,
    {
        push_char(&mut s, v[i]);
        assert(s@ =~= v@.subrange(lo as int, i + 1));
        i = i + 1;
    }
    s
}

/// The characters of `v` as a `String`.
pub fn string_from_chars(v: &Vec<char>) -> (s: String)
    ensures
        s@ == v@,
{
    let s = string_from_range(v, 0, v.len());
    assert(v@.subrange(0, v@.len() as int) =~= v@);
    s
}


// ---------------------------------------------------------------------
// Ordering
// ---------------------------------------------------------------------

/// Lexicographic order on character sequences, comparing code points.
/// UTF-8 keeps code-point order, so this is the order of `String`'s `Ord`
/// (which compares bytes).
pub open spec fn lex_lt(a: Seq<char>, b: Seq<char>) -> bool
    decreases a.len(),
{
    if a.len() == 0 {
        b.len() > 0
    } else if b.len() == 0 {
        false
    } else if a[0] != b[0] {
        (a[0] as int) < (b[0] as int)
    } else {
        lex_lt(a.drop_first(), b.drop_first())
    }
}

/// No sequence is below itself.
pub proof fn lemma_lex_irreflexive(a: Seq<char>)
    ensures
        !lex_lt(a, a),
    decreases a.len(),
{
    if a.len() > 0 {
        lemma_lex_irreflexive(a.drop_first());
    }
}

/// `lex_lt` is transitive.
pub proof fn lemma_lex_transitive(a: Seq<char>, b: Seq<char>, c: Seq<char>)
    requires
        lex_lt(a, b),
        lex_lt(b, c),
    ensures
        lex_lt(a, c),
    decreases a.len(),
{
    if a.len() > 0 && b.len() > 0 && c.len() > 0 {
        if a[0] == b[0] && b[0] == c[0] {
            lemma_lex_transitive(a.drop_first(), b.drop_first(), c.drop_first());
        }
    }
}

/// Two different sequences are ordered one way or the other.
pub proof fn lemma_lex_total(a: Seq<char>, b: Seq<char>)
    requires
        a != b,
    ensures
        lex_lt(a, b) || lex_lt(b, a),
    decreases a.len(),
{
    if a.len() > 0 && b.len() > 0 {
        if a[0] == b[0] {
            if a.drop_first() == b.drop_first() {
                assert(a =~= seq![a[0]] + a.drop_first());
                assert(b =~= seq![b[0]] + b.drop_first());
            }
            lemma_lex_total(a.drop_first(), b.drop_first());
        } else {
            assert((a[0] as int) != (b[0] as int));
        }
    } else if a.len() == 0 && b.len() == 0 {
        assert(a =~= b);
    }
}

/// Whether `a` comes strictly before `b` in lexicographic order.
pub fn chars_lt(a: &Vec<char>, b: &Vec<char>) -> (r: bool)
    ensures
        r == lex_lt(a@, b@),
{
    let mut i: usize = 0;
    assert(a@.skip(0) =~= a@);
    assert(b@.skip(0) =~= b@);
    while i < a.len() && i < b.len() && a[i] == b[i]
        invariant
            i <= a.len(),
            i <= b.len(),
            lex_lt(a@, b@) == lex_lt(a@.skip(i as int), b@.skip(i as int)),
        decreases a.len() - i,
    {
        assert(a@.skip(i as int).drop_first() =~= a@.skip(i + 1));
        assert(b@.skip(i as int).drop_first() =~= b@.skip(i + 1));
        i = i + 1;
    }
    if i == a.len() {
        i < b.len()
    } else if i == b.len() {
        false
    } else {
        a[i] < b[i]
    }
}

/// Whether `a` comes strictly before `b` as strings.
pub fn str_lt(a: &str, b: &str) -> (r: bool)
    ensures
        r == lex_lt(a@, b@),
{
    let av = chars_of(a);
    let bv = chars_of(b);
    chars_lt(&av, &bv)
}


// ---------------------------------------------------------------------
// Case-insensitive comparison and decimal numbers
// ---------------------------------------------------------------------

/// `char::to_ascii_lowercase`: upper-case ASCII letters are mapped to
/// lower case, every other character is kept.
pub open spec fn ascii_lower(c: char) -> char {
    let u = c as u32;
    if 0x41 <= u && u <= 0x5A {
        ((u + 32) as u32) as char
    } else {
        c
    }
}

/// `str::eq_ignore_ascii_case`: same length, and equal once ASCII letters
/// are put in lower case.
pub open spec fn eq_ignore_ascii_case(a: Seq<char>, b: Seq<char>) -> bool {
    a.len() == b.len() && forall|i: int| 0 <= i < a.len() ==> ascii_lower(a[i]) == ascii_lower(b[i])
}

/// The character `c` in lower case if it is an ASCII letter.
pub fn to_ascii_lowercase_char(c: char) -> (r: char)
    ensures
        r == ascii_lower(c),
{
    let u = c as u32;
    if 0x41 <= u && u <= 0x5A {
        let low: u32 = u + 32;
        let b = low as u8;
        b as char
    } else {
        c
    }
}

/// Whether `a` and `b` are equal up to the case of ASCII letters.
pub fn str_eq_ignore_ascii_case(a: &str, b: &str) -> (r: bool)
    ensures
        r == eq_ignore_ascii_case(a@, b@),
{
    let av = chars_of(a);
    let bv = chars_of(b);
    if av.len() != bv.len() {
        return false;
    }
    let mut i: usize = 0;
    while i < av.len()
        invariant
            i <= av@.len() == bv@.len(),
            av@ == a@,
            bv@ == b@,
            forall|j: int| 0 <= j < i ==> ascii_lower(av@[j]) == ascii_lower(bv@[j]),
        decreases av@.len() - i,
    {
        if to_ascii_lowercase_char(av[i]) != to_ascii_lowercase_char(bv[i]) {
            assert(ascii_lower(a@[i as int]) != ascii_lower(b@[i as int]));
            return false;
        }
        i = i + 1;
    }
    true
}

/// The ASCII digit of `d`.
pub open spec fn digit_char(d: nat) -> char {
    ((d + 48) as u32) as char
}

/// The decimal digits of `n`, most significant first, without leading
/// zeros (`0` is `"0"`).
pub open spec fn decimal(n: nat) -> Seq<char>
    decreases n,
{
    if n < 10 {
        seq![digit_char(n)]
    } else {
        decimal(n / 10).push(digit_char(n % 10))
    }
}

/// Appends the decimal digits of `n` to `s`.
pub fn push_decimal(s: &mut String, n: u64)
    ensures
        final(s)@ == old(s)@ + decimal(n as nat),
    decreases n,
{
    if n >= 10 {
        push_decimal(s, n / 10);
    }
    let d: u64 = n % 10;
    let b: u8 = (d + 48) as u8;
    push_char(s, b as char);
    proof {
        if n >= 10 {
            assert(decimal(n as nat) == decimal((n / 10) as nat).push(digit_char((n % 10) as nat)));
        }
    }
    assert(s@ =~= old(s)@ + decimal(n as nat));
}


// ---------------------------------------------------------------------
// Patterns and lines
// ---------------------------------------------------------------------

/// `s` begins with `p` (`str::starts_with`).
pub open spec fn has_prefix(s: Seq<char>, p: Seq<char>) -> bool {
    p.len() <= s.len() && s.subrange(0, p.len() as int) == p
}

/// `s` ends with `p` (`str::ends_with`).
pub open spec fn has_suffix(s: Seq<char>, p: Seq<char>) -> bool {
    p.len() <= s.len() && s.subrange(s.len() - p.len(), s.len() as int) == p
}

/// `p` occurs in `s` starting at `i`.
pub open spec fn occurs_at(s: Seq<char>, p: Seq<char>, i: int) -> bool {
    0 <= i && i + p.len() <= s.len() && s.subrange(i, i + p.len()) == p
}

/// `p` occurs somewhere in `s` (`str::contains`).
pub open spec fn contains_seq(s: Seq<char>, p: Seq<char>) -> bool {
    exists|i: int| #[trigger] occurs_at(s, p, i)
}

/// Whether `p` occurs in `s` at position `i`.
pub fn matches_at(s: &Vec<char>, p: &Vec<char>, i: usize) -> (b: bool)
    requires
        i + p.len() <= s.len(),
    ensures
        b == occurs_at(s@, p@, i as int),
{
    let mut j: usize = 0;
    while j < p.len()
        invariant
            i + p.len() <= s.len(),
            j <= p.len(),
            forall|k: int| 0 <= k < j ==> s@[i + k] == p@[k],
        decreases p.len() - j,
    {
        if s[i + j] != p[j] {
            assert(s@.subrange(i as int, i + p.len())[j as int] != p@[j as int]);
            return false;
        }
        j = j + 1;
    }
    assert(s@.subrange(i as int, i + p.len()) =~= p@);
    true
}

/// Whether `s` begins with `p`.
pub fn starts_with_chars(s: &Vec<char>, p: &Vec<char>) -> (b: bool)
    ensures
        b == has_prefix(s@, p@),
{
    if p.len() > s.len() {
        false
    } else {
        matches_at(s, p, 0)
    }
}

/// Whether `s` ends with `p`.
pub fn ends_with_chars(s: &Vec<char>, p: &Vec<char>) -> (b: bool)
    ensures
        b == has_suffix(s@, p@),
{
    if p.len() > s.len() {
        false
    } else {
        matches_at(s, p, s.len() - p.len())
    }
}

/// Whether `p` occurs in `s`.
pub fn contains_chars(s: &Vec<char>, p: &Vec<char>) -> (b: bool)
    ensures
        b == contains_seq(s@, p@),
{
    if p.len() > s.len() {
        assert forall|i: int| !occurs_at(s@, p@, i) by {}
        return false;
    }
    let last = s.len() - p.len();
    let mut i: usize = 0;
    while i < last
        invariant
            last + p.len() == s.len(),
            i <= last,
            forall|k: int| 0 <= k < i ==> !occurs_at(s@, p@, k),
        decreases last - i,
    {
        if matches_at(s, p, i) {
            return true;
        }
        i = i + 1;
    }
    if matches_at(s, p, last) {
        return true;
    }
    assert forall|k: int| !occurs_at(s@, p@, k) by {
        if 0 <= k && k + p.len() <= s.len() {
            assert(k <= last);
        }
    }
    false
}

/// `s` without one trailing carriage return.
pub open spec fn strip_cr(s: Seq<char>) -> Seq<char> {
    if s.len() > 0 && s.last() == '\r' {
        s.drop_last()
    } else {
        s
    }
}

/// `str::lines`: the pieces of `s` between line feeds; a piece that ends
/// at a line feed loses one carriage return before it, and an empty last
/// piece is not a line.
pub open spec fn lines(s: Seq<char>) -> Seq<Seq<char>>
    decreases s.len(),
{
    match s.index_of_first('\n') {
        Some(i) => {
            if 0 <= i < s.len() {
                seq![strip_cr(s.subrange(0, i))] + lines(s.subrange(i + 1, s.len() as int))
            } else {
                seq![s]
            }
        },
        None => if s.len() == 0 {
            seq![]
        } else {
            seq![s]
        },
    }
}

/// The first line feed of `s + t`, when `s` holds one, is that of `s`.
proof fn lemma_first_newline_concat(s: Seq<char>, t: Seq<char>, i: int)
    requires
        0 <= i < s.len(),
        s[i] == '\n',
        forall|j: int| 0 <= j < i ==> s[j] != '\n',
    ensures
        (s + t).index_of_first('\n') == Some(i),
{
    (s + t).index_of_first_ensures('\n');
    assert((s + t)[i] == '\n');
    assert((s + t).contains('\n'));
    match (s + t).index_of_first('\n') {
        Some(k) => {
            if k < i {
                assert((s + t)[k] == s[k]);
            }
        },
        None => {},
    }
}

/// Lines of a text that ends with a line feed (or is empty) followed by
/// more text are its lines followed by those of the rest.
pub proof fn lemma_lines_concat(s: Seq<char>, t: Seq<char>)
    requires
        s.len() == 0 || s.last() == '\n',
    ensures
        lines(s + t) == lines(s) + lines(t),
    decreases s.len(),
{
    if s.len() == 0 {
        lemma_lines_empty();
        assert(s =~= Seq::<char>::empty());
        assert(s + t =~= t);
        assert(lines(s) + lines(t) =~= lines(t));
    } else {
        s.index_of_first_ensures('\n');
        assert(s[s.len() - 1] == '\n');
        assert(s.contains('\n'));
        let i = s.index_of_first('\n')->Some_0;
        lemma_first_newline_concat(s, t, i);
        let rest = s.subrange(i + 1, s.len() as int);
        if rest.len() > 0 {
            assert(rest.last() == s.last());
        }
        lemma_lines_concat(rest, t);
        assert((s + t).subrange(0, i) =~= s.subrange(0, i));
        assert((s + t).subrange(i + 1, (s + t).len() as int) =~= rest + t);
        assert(lines(s + t) == seq![strip_cr(s.subrange(0, i))] + lines(rest + t));
        assert(lines(s) == seq![strip_cr(s.subrange(0, i))] + lines(rest));
        assert(lines(s + t) =~= lines(s) + lines(t));
    }
}

/// A text without characters has no lines.
pub proof fn lemma_lines_empty()
    ensures
        lines(Seq::<char>::empty()) == Seq::<Seq<char>>::empty(),
{
    Seq::<char>::empty().index_of_first_ensures('\n');
    assert(lines(Seq::<char>::empty()) =~= Seq::<Seq<char>>::empty());
}

/// The views of a sequence of character vectors.
pub open spec fn char_views(vs: Seq<Vec<char>>) -> Seq<Seq<char>> {
    vs.map_values(|v: Vec<char>| v@)
}

/// The lines of `v`, as `str::lines` cuts them.
pub fn lines_of(v: &Vec<char>) -> (r: Vec<Vec<char>>)
    ensures
        char_views(r@) == lines(v@),
{
    let n = v.len();
    let mut r: Vec<Vec<char>> = Vec::new();
    let mut lo: usize = 0;
    assert(v@.subrange(0, n as int) =~= v@);
    while lo < n
        invariant
            n == v.len(),
            lo <= n,
            lines(v@) == char_views(r@) + lines(v@.subrange(lo as int, n as int)),
        decreases n - lo,
    {
        let ghost rest = v@.subrange(lo as int, n as int);
        match find_char(v, lo, n, '\n') {
            Some(i) => {
                let mut hi = i;
                if hi > lo && v[hi - 1] == '\r' {
                    hi = hi - 1;
                }
                let mut piece: Vec<char> = Vec::new();
                let mut k = lo;
                while k < hi
                    invariant
                        lo <= k <= hi <= i < n == v.len(),
                        piece@ == v@.subrange(lo as int, k as int),
                    decreases hi - k,
                {
                    piece.push(v[k]);
                    assert(piece@ =~= v@.subrange(lo as int, k + 1));
                    k = k + 1;
                }
                proof {
                    assert(rest.subrange(0, i - lo) =~= v@.subrange(lo as int, i as int));
                    assert(rest.subrange(i - lo + 1, rest.len() as int) =~= v@.subrange(
                        i + 1,
                        n as int,
                    ));
                    assert(strip_cr(v@.subrange(lo as int, i as int)) =~= piece@);
                }
                let ghost old_r = r@;
                r.push(piece);
                assert(char_views(r@) =~= char_views(old_r).push(piece@));
                assert(char_views(r@) + lines(v@.subrange(i + 1, n as int)) =~= char_views(old_r)
                    + lines(rest));
                lo = i + 1;
            },
            None => {
                let mut piece: Vec<char> = Vec::new();
                let mut k = lo;
                while k < n
                    invariant
                        lo <= k <= n == v.len(),
                        piece@ == v@.subrange(lo as int, k as int),
                    decreases n - k,
                {
                    piece.push(v[k]);
                    assert(piece@ =~= v@.subrange(lo as int, k + 1));
                    k = k + 1;
                }
                let ghost old_r = r@;
                r.push(piece);
                assert(char_views(r@) =~= char_views(old_r).push(rest));
                assert(v@.subrange(n as int, n as int) =~= Seq::<char>::empty());
                proof {
                    lemma_lines_empty();
                }
                assert(char_views(r@) + lines(v@.subrange(n as int, n as int)) =~= char_views(
                    old_r,
                ) + lines(rest));
                lo = n;
            },
        }
    }
    assert(v@.subrange(n as int, n as int) =~= Seq::<char>::empty());
    proof {
        lemma_lines_empty();
    }
    assert(char_views(r@) + lines(Seq::<char>::empty()) =~= char_views(r@));
    r
}

} // verus!
