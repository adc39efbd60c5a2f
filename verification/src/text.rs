//! Character classes and string operations on `Seq<char>` models.
//!
//! Strings are handled as sequences of Unicode scalar values: `s@` for a
//! `&str` or a `String`, and `v@` for a `Vec<char>`.
use vstd::prelude::*;

verus! {

// ---------------------------------------------------------------------------
// Character classes
// ---------------------------------------------------------------------------

/// The Unicode `White_Space` property, which is what `char::is_whitespace`
/// tests: U+0009..=U+000D, U+0020, U+0085, U+00A0, U+1680, U+2000..=U+200A,
/// U+2028, U+2029, U+202F, U+205F and U+3000.
pub open spec fn is_whitespace_spec(c: char) -> bool {
    let u = c as u32;
    ||| 0x9 <= u <= 0xd
    ||| u == 0x20
    ||| u == 0x85
    ||| u == 0xa0
    ||| u == 0x1680
    ||| 0x2000 <= u <= 0x200a
    ||| u == 0x2028
    ||| u == 0x2029
    ||| u == 0x202f
    ||| u == 0x205f
    ||| u == 0x3000
}

/// Control characters (general category `Cc`), which is what
/// `char::is_control` tests: U+0000..=U+001F and U+007F..=U+009F.
pub open spec fn is_control_spec(c: char) -> bool {
    let u = c as u32;
    u <= 0x1f || (0x7f <= u <= 0x9f)
}

/// ASCII upper-case letters map to their lower-case letter; every other
/// character is unchanged.
pub open spec fn ascii_lower_spec(c: char) -> char {
    if 'A' <= c <= 'Z' {
        (((c as u32) + 32) as u32) as char
    } else {
        c
    }
}

/// A string with every ASCII letter lowered.
pub open spec fn ascii_lower_seq(s: Seq<char>) -> Seq<char> {
    s.map_values(|c: char| ascii_lower_spec(c))
}

/// Equality up to ASCII case.
pub open spec fn eq_ignore_ascii_case_spec(a: Seq<char>, b: Seq<char>) -> bool {
    ascii_lower_seq(a) == ascii_lower_seq(b)
}

/// `needle` occurs as a contiguous block in `hay`.
pub open spec fn contains_seq(hay: Seq<char>, needle: Seq<char>) -> bool {
    exists|i: int|
        0 <= i && i + needle.len() <= hay.len() && #[trigger] hay.subrange(i, i + needle.len())
            == needle
}

pub fn is_whitespace(c: char) -> (b: bool)
    ensures
        b == is_whitespace_spec(c),
{
    let u = c as u32;
    (0x9 <= u && u <= 0xd) || u == 0x20 || u == 0x85 || u == 0xa0 || u == 0x1680 || (0x2000 <= u
        && u <= 0x200a) || u == 0x2028 || u == 0x2029 || u == 0x202f || u == 0x205f || u == 0x3000
}

pub fn is_control(c: char) -> (b: bool)
    ensures
        b == is_control_spec(c),
{
    let u = c as u32;
    u <= 0x1f || (0x7f <= u && u <= 0x9f)
}

pub fn ascii_lower(c: char) -> (r: char)
    ensures
        r == ascii_lower_spec(c),
{
    if 'A' <= c && c <= 'Z' {
        let u = (c as u32) + 32;
        let r = char_from_u32(u).unwrap();
        proof {
            vstd::utf8::char_u32_cast(r, u);
        }
        r
    } else {
        c
    }
}

/// `char::from_u32`: the `char` with code point `u` when `u` is a Unicode
/// scalar value (at most U+10FFFF and not a surrogate), `None` otherwise, as
/// its documentation states.
#[verifier::external_body]
pub fn char_from_u32(u: u32) -> (r: Option<char>)
    ensures
        r is Some <==> (u <= 0x10ffff && !(0xd800 <= u <= 0xdfff)),
        r matches Some(c) ==> c as u32 == u,
{
    char::from_u32(u)
}


// ---------------------------------------------------------------------------
// Stripping and splitting
// ---------------------------------------------------------------------------

/// `s` without its leading characters for which `drop` holds.
pub open spec fn strip_start(s: Seq<char>, drop: spec_fn(char) -> bool) -> Seq<char>
    decreases s.len(),
{
    if s.len() > 0 && drop(s[0]) {
        strip_start(s.drop_first(), drop)
    } else {
        s
    }
}

/// `s` without its trailing characters for which `drop` holds.
pub open spec fn strip_end(s: Seq<char>, drop: spec_fn(char) -> bool) -> Seq<char>
    decreases s.len(),
{
    if s.len() > 0 && drop(s.last()) {
        strip_end(s.drop_last(), drop)
    } else {
        s
    }
}

/// `s` without its leading and trailing characters for which `drop` holds
/// (what `str::trim_matches` returns for that predicate).
pub open spec fn strip(s: Seq<char>, drop: spec_fn(char) -> bool) -> Seq<char> {
    strip_end(strip_start(s, drop), drop)
}

pub open spec fn whitespace() -> spec_fn(char) -> bool {
    |c: char| is_whitespace_spec(c)
}

/// What `str::trim` returns: `s` without leading and trailing whitespace.
pub open spec fn trim_spec(s: Seq<char>) -> Seq<char> {
    strip(s, whitespace())
}

/// Left-to-right scan of `s` into the words already closed and the word in
/// progress; a word is a maximal run of non-whitespace characters.
pub open spec fn scan_words(s: Seq<char>) -> (Seq<Seq<char>>, Seq<char>)
    decreases s.len(),
{
    if s.len() == 0 {
        (seq![], seq![])
    } else {
        let (done, cur) = scan_words(s.drop_last());
        let c = s.last();
        if is_whitespace_spec(c) {
            if cur.len() > 0 {
                (done.push(cur), seq![])
            } else {
                (done, cur)
            }
        } else {
            (done, cur.push(c))
        }
    }
}

/// What `str::split_whitespace` yields: the maximal runs of non-whitespace
/// characters of `s`, in order.
pub open spec fn words_spec(s: Seq<char>) -> Seq<Seq<char>> {
    let (done, cur) = scan_words(s);
    if cur.len() > 0 {
        done.push(cur)
    } else {
        done
    }
}

pub open spec fn views_of(v: Seq<Vec<char>>) -> Seq<Seq<char>> {
    v.map_values(|w: Vec<char>| w@)
}

/// The bounds `(i, j)` of `strip(v@, drop)` inside `v@`, where `flags[k]`
/// tells whether `drop` holds of `v[k]`.
pub(crate) fn strip_bounds(v: &Vec<char>, flags: &Vec<bool>, Ghost(drop): Ghost<spec_fn(char) -> bool>) -> (r: (
    usize,
    usize,
))
    requires
        flags.len() == v.len(),
        forall|k: int| 0 <= k < v.len() ==> flags[k] == drop(#[trigger] v[k]),
    ensures
        r.0 <= r.1 <= v.len(),
        v@.subrange(r.0 as int, r.1 as int) == strip(v@, drop),
        v@.subrange(r.0 as int, v.len() as int) == strip_start(v@, drop),
{
    let n = v.len();
    let mut i: usize = 0;
    assert(v@.subrange(0, n as int) == v@);
    while i < n && flags[i]
        invariant
            i <= n == v.len() == flags.len(),
            forall|k: int| 0 <= k < v.len() ==> flags[k] == drop(#[trigger] v[k]),
            strip_start(v@, drop) == strip_start(v@.subrange(i as int, n as int), drop),
        decreases n - i,
    {
        assert(v@.subrange(i as int, n as int).drop_first() == v@.subrange(i + 1, n as int));
        i = i + 1;
    }
    let mut j: usize = n;
    let ghost t = v@.subrange(i as int, n as int);
    assert(strip_start(v@, drop) == t);
    assert(t.subrange(0, (n - i) as int) == t);
    while j > i && flags[j - 1]
        invariant
            i <= j <= n == v.len() == flags.len(),
            t == v@.subrange(i as int, n as int),
            forall|k: int| 0 <= k < v.len() ==> flags[k] == drop(#[trigger] v[k]),
            strip_end(t, drop) == strip_end(v@.subrange(i as int, j as int), drop),
        decreases j,
    {
        assert(v@.subrange(i as int, j as int).drop_last() == v@.subrange(i as int, j - 1));
        j = j - 1;
    }
    (i, j)
}

/// The characters `v[i..j]`.
pub fn slice_chars(v: &Vec<char>, i: usize, j: usize) -> (r: Vec<char>)
    requires
        i <= j <= v.len(),
    ensures
        r@ == v@.subrange(i as int, j as int),
{
    let mut r: Vec<char> = Vec::new();
    let mut k = i;
    while k < j
        invariant
            i <= k <= j <= v.len(),
            r@ == v@.subrange(i as int, k as int),
        decreases j - k,
    {
        r.push(v[k]);
        k = k + 1;
    }
    r
}

/// `v` without leading and trailing whitespace.
pub fn trim_chars(v: &Vec<char>) -> (r: Vec<char>)
    ensures
        r@ == trim_spec(v@),
{
    let mut flags: Vec<bool> = Vec::new();
    let mut k: usize = 0;
    while k < v.len()
        invariant
            k <= v.len(),
            flags.len() == k,
            forall|m: int| 0 <= m < k ==> flags[m] == is_whitespace_spec(#[trigger] v[m]),
        decreases v.len() - k,
    {
        flags.push(is_whitespace(v[k]));
        k = k + 1;
    }
    let (i, j) = strip_bounds(v, &flags, Ghost(whitespace()));
    slice_chars(v, i, j)
}

/// `str::trim`.
pub fn trim(s: &str) -> (r: String)
    ensures
        r@ == trim_spec(s@),
{
    let v = chars_of(s);
    let t = trim_chars(&v);
    string_of(&t)
}

/// `v` without trailing copies of `c`.
pub fn strip_end_char(v: &Vec<char>, c: char) -> (r: Vec<char>)
    ensures
        r@ == strip_end(v@, |x: char| x == c),
{
    let ghost drop = |x: char| x == c;
    let mut j: usize = v.len();
    assert(v@.subrange(0, j as int) == v@);
    while j > 0 && v[j - 1] == c
        invariant
            j <= v.len(),
            drop == (|x: char| x == c),
            strip_end(v@, drop) == strip_end(v@.subrange(0, j as int), drop),
        decreases j,
    {
        assert(v@.subrange(0, j as int).drop_last() == v@.subrange(0, j - 1));
        assert(drop(v@.subrange(0, j as int).last()));
        j = j - 1;
    }
    slice_chars(v, 0, j)
}

/// `str::split_whitespace`, collected.
pub fn split_whitespace(v: &Vec<char>) -> (r: Vec<Vec<char>>)
    ensures
        views_of(r@) == words_spec(v@),
{
    let mut done: Vec<Vec<char>> = Vec::new();
    let mut cur: Vec<char> = Vec::new();
    let mut i: usize = 0;
    while i < v.len()
        invariant
            i <= v.len(),
            (views_of(done@), cur@) == scan_words(v@.take(i as int)),
        decreases v.len() - i,
    {
        let c = v[i];
        assert(v@.take(i + 1).drop_last() == v@.take(i as int));
        if is_whitespace(c) {
            if cur.len() > 0 {
                let w = cur;
                cur = Vec::new();
                done.push(w);
                assert(views_of(done@) == views_of(done@.drop_last()).push(w@));
            }
        } else {
            cur.push(c);
        }
        i = i + 1;
    }
    assert(v@.take(v.len() as int) == v@);
    if cur.len() > 0 {
        let ghost before = done@;
        done.push(cur);
        assert(views_of(done@) == views_of(before).push(done@.last()@));
    }
    done
}

/// Equality of two character sequences.
pub fn chars_eq(a: &Vec<char>, b: &Vec<char>) -> (r: bool)
    ensures
        r == (a@ == b@),
{
    if a.len() != b.len() {
        return false;
    }
    let mut i: usize = 0;
    while i < a.len()
        invariant
            i <= a.len() == b.len(),
            forall|k: int| 0 <= k < i ==> a[k] == b[k],
        decreases a.len() - i,
    {
        if a[i] != b[i] {
            return false;
        }
        i = i + 1;
    }
    assert(a@ == b@);
    true
}

/// `str::eq_ignore_ascii_case`.
pub fn eq_ignore_ascii_case(a: &Vec<char>, b: &Vec<char>) -> (r: bool)
    ensures
        r == eq_ignore_ascii_case_spec(a@, b@),
{
    if a.len() != b.len() {
        proof {
            if ascii_lower_seq(a@) == ascii_lower_seq(b@) {
                assert(ascii_lower_seq(a@).len() == a@.len());
            }
        }
        return false;
    }
    let mut i: usize = 0;
    while i < a.len()
        invariant
            i <= a.len() == b.len(),
            forall|k: int| 0 <= k < i ==> ascii_lower_spec(a[k]) == ascii_lower_spec(b[k]),
        decreases a.len() - i,
    {
        if ascii_lower(a[i]) != ascii_lower(b[i]) {
            assert(ascii_lower_seq(a@)[i as int] != ascii_lower_seq(b@)[i as int]);
            return false;
        }
        i = i + 1;
    }
    assert(ascii_lower_seq(a@) == ascii_lower_seq(b@));
    true
}

/// `str::to_ascii_lowercase`.
pub fn ascii_lowercase(v: &Vec<char>) -> (r: Vec<char>)
    ensures
        r@ == ascii_lower_seq(v@),
{
    let mut r: Vec<char> = Vec::new();
    let mut i: usize = 0;
    while i < v.len()
        invariant
            i <= v.len(),
            r@ == ascii_lower_seq(v@.take(i as int)),
        decreases v.len() - i,
    {
        r.push(ascii_lower(v[i]));
        i = i + 1;
        assert(ascii_lower_seq(v@.take(i as int)) == ascii_lower_seq(v@.take(i - 1)).push(
            ascii_lower_spec(v[i - 1]),
        ));
    }
    assert(v@.take(v.len() as int) == v@);
    r
}

/// Whether `needle` occurs in `hay` (`str::contains` with a `&str` pattern).
pub fn contains_chars(hay: &Vec<char>, needle: &Vec<char>) -> (r: bool)
    ensures
        r == contains_seq(hay@, needle@),
{
    if needle.len() > hay.len() {
        return false;
    }
    let last = hay.len() - needle.len();
    let mut i: usize = 0;
    while i <= last
        invariant
            last == hay.len() - needle.len(),
            needle.len() <= hay.len(),
            forall|k: int|
                0 <= k < i ==> #[trigger] hay@.subrange(k, k + needle.len()) != needle@,
        decreases last + 1 - i,
    {
        let mut j: usize = 0;
        let mut all = true;
        while j < needle.len()
            invariant
                i <= last,
                last == hay.len() - needle.len(),
                j <= needle.len(),
                all == (forall|m: int| 0 <= m < j ==> hay[i + m] == needle[m]),
            decreases needle.len() - j,
        {
            if hay[i + j] != needle[j] {
                all = false;
            }
            j = j + 1;
        }
        if all {
            assert(hay@.subrange(i as int, i + needle.len()) == needle@);
            return true;
        }
        proof {
            let m = choose|m: int| 0 <= m < needle.len() && hay[i + m] != needle[m];
            assert(hay@.subrange(i as int, i + needle.len())[m] != needle@[m]);
        }
        i = i + 1;
    }
    false
}

/// Characters with the same code point are equal.
pub proof fn lemma_char_code_injective(x: char, y: char)
    requires
        x as u32 == y as u32,
    ensures
        x == y,
{
    vstd::utf8::char_u32_cast(x, x as u32);
    vstd::utf8::char_u32_cast(y, y as u32);
}

/// Lowering ASCII letters twice is lowering them once.
pub proof fn lemma_ascii_lower_idempotent(s: Seq<char>)
    ensures
        ascii_lower_seq(ascii_lower_seq(s)) == ascii_lower_seq(s),
{
    assert forall|i: int| 0 <= i < s.len() implies #[trigger] ascii_lower_spec(ascii_lower_spec(s[i]))
        == ascii_lower_spec(s[i]) by {
        let c = s[i];
        if 'A' <= c <= 'Z' {
            let u = ((c as u32) + 32) as u32;
            assert(((u as int) as char) as u32 == u);
        }
    }
    assert(ascii_lower_seq(ascii_lower_seq(s)) =~= ascii_lower_seq(s));
}

// ---------------------------------------------------------------------------
// Conversions between `str`, `String` and `Vec<char>`
// ---------------------------------------------------------------------------

/// The characters of `s`, in order.
pub fn chars_of(s: &str) -> (v: Vec<char>)
    ensures
        v@ == s@,
{
    broadcast use vstd::string::group_string_axioms;

    let mut v: Vec<char> = Vec::new();
    for c in it: s.chars()
        invariant
            it.seq() == s@,
            v@ == it.seq().take(it.index() as int),
    {
        v.push(c);
    }
    assert(v@ == s@);
    v
}

/// `String::push`: appends `c` to the end of `s`, as its documentation
/// states.
#[verifier::external_body]
fn push_char(s: &mut String, c: char)
    ensures
        final(s)@ == old(s)@.push(c),
{
    s.push(c);
}

/// The string holding exactly the characters of `v`, in order.
pub fn string_of(v: &Vec<char>) -> (s: String)
    ensures
        s@ == v@,
{
    let mut s = String::new();
    let mut i: usize = 0;
    while i < v.len()
        invariant
            i <= v.len(),
            s@ == v@.take(i as int),
        decreases v.len() - i,
    {
        push_char(&mut s, v[i]);
        i = i + 1;
        assert(v@.take(i as int) == v@.take(i - 1).push(v@[i - 1]));
    }
    assert(v@.take(v.len() as int) == v@);
    s
}

/// Every character of `s` is ASCII.
pub open spec fn is_ascii_seq(s: Seq<char>) -> bool {
    forall|i: int| 0 <= i < s.len() ==> (s[i] as u32) < 128
}

/// An ASCII letter or digit.
pub open spec fn is_ascii_alphanumeric_spec(c: char) -> bool {
    ||| 'a' <= c <= 'z'
    ||| 'A' <= c <= 'Z'
    ||| '0' <= c <= '9'
}

/// What `char::is_alphanumeric` returns: on ASCII, whether `c` is a letter or
/// a digit; elsewhere, whether it is `Alphabetic` or `Numeric` in the Unicode
/// tables of the standard library.
pub open spec fn alphanumeric_spec(c: char) -> bool {
    if (c as u32) < 128 {
        is_ascii_alphanumeric_spec(c)
    } else {
        char_is_alphanumeric(c)
    }
}

/// What `str::to_lowercase` returns: on ASCII text, the ASCII lower-casing;
/// elsewhere, the Unicode lower-case mapping.
pub open spec fn lowercase_spec(s: Seq<char>) -> Seq<char> {
    if is_ascii_seq(s) {
        ascii_lower_seq(s)
    } else {
        str_to_lowercase(s)
    }
}

// ---------------------------------------------------------------------------
// Unicode case mapping and classes from std
// ---------------------------------------------------------------------------

/// What `str::to_lowercase` returns for a string: its lower-case mapping
/// under the Unicode `Lowercase` property, with the context-dependent rule
/// for final sigma.
pub uninterp spec fn str_to_lowercase(s: Seq<char>) -> Seq<char>;

/// What `char::is_alphanumeric` returns: the character is `Alphabetic` or
/// `Numeric` in the Unicode tables of the standard library.
pub uninterp spec fn char_is_alphanumeric(c: char) -> bool;

/// `str::to_lowercase`. Its result is named by `str_to_lowercase`. On ASCII
/// text it is the ASCII lower-casing: the `Lowercase` mapping of an ASCII
/// upper-case letter is its lower-case letter and every other ASCII character
/// maps to itself (the final-sigma rule only touches U+03A3). The Unicode
/// tables it consults for other characters are not restated here.
#[verifier::external_body]
pub(crate) fn to_lowercase(s: &str) -> (r: String)
    ensures
        r@ == str_to_lowercase(s@),
        is_ascii_seq(s@) ==> r@ == ascii_lower_seq(s@),
{
    s.to_lowercase()
}

/// `char::is_alphanumeric`. Its result is named by `char_is_alphanumeric`.
/// On ASCII it holds exactly of the letters and digits: those are the ASCII
/// characters that are `Alphabetic` or `Numeric`. The Unicode tables it
/// consults for other characters are not restated here.
#[verifier::external_body]
pub(crate) fn is_alphanumeric(c: char) -> (b: bool)
    ensures
        b == char_is_alphanumeric(c),
        (c as u32) < 128 ==> b == is_ascii_alphanumeric_spec(c),
{
    c.is_alphanumeric()
}

/// The lower-case form of the string `v` (through `str::to_lowercase`).
pub fn lowercase_chars(v: &Vec<char>) -> (r: Vec<char>)
    ensures
        r@ == lowercase_spec(v@),
{
    let s = string_of(v);
    let l = to_lowercase(s.as_str());
    chars_of(l.as_str())
}


/// What `strip_start` leaves is a suffix of `s`, and it does not start with a
/// dropped character.
pub proof fn lemma_strip_start_suffix(s: Seq<char>, drop: spec_fn(char) -> bool)
    ensures
        strip_start(s, drop).len() <= s.len(),
        strip_start(s, drop) == s.subrange(s.len() - strip_start(s, drop).len(), s.len() as int),
        strip_start(s, drop).len() > 0 ==> !drop(strip_start(s, drop)[0]),
    decreases s.len(),
{
    if s.len() > 0 && drop(s[0]) {
        lemma_strip_start_suffix(s.drop_first(), drop);
        let t = strip_start(s.drop_first(), drop);
        assert(s.drop_first().subrange(s.len() - 1 - t.len(), s.len() - 1) == s.subrange(
            s.len() - t.len(),
            s.len() as int,
        ));
    } else {
        assert(s.subrange(0, s.len() as int) == s);
    }
}

/// What `strip_end` leaves is a prefix of `s`, and it does not end with a
/// dropped character.
pub proof fn lemma_strip_end_prefix(s: Seq<char>, drop: spec_fn(char) -> bool)
    ensures
        strip_end(s, drop).len() <= s.len(),
        strip_end(s, drop) == s.take(strip_end(s, drop).len() as int),
        strip_end(s, drop).len() > 0 ==> !drop(strip_end(s, drop).last()),
    decreases s.len(),
{
    if s.len() > 0 && drop(s.last()) {
        lemma_strip_end_prefix(s.drop_last(), drop);
        let t = strip_end(s.drop_last(), drop);
        assert(s.drop_last().take(t.len() as int) == s.take(t.len() as int));
    } else {
        assert(s.take(s.len() as int) == s);
    }
}

/// Neither end of `strip(s, drop)` is a dropped character, and it is a
/// contiguous part of `s`.
pub proof fn lemma_strip_ends(s: Seq<char>, drop: spec_fn(char) -> bool)
    ensures
        strip(s, drop).len() > 0 ==> !drop(strip(s, drop)[0]) && !drop(strip(s, drop).last()),
        exists|i: int, j: int|
            0 <= i <= j <= s.len() && #[trigger] s.subrange(i, j) == strip(s, drop),
{
    let a = strip_start(s, drop);
    lemma_strip_start_suffix(s, drop);
    lemma_strip_end_prefix(a, drop);
    let b = strip_end(a, drop);
    if b.len() > 0 {
        assert(b[0] == a[0]);
    }
    let i = s.len() - a.len();
    assert(s.subrange(i, i + b.len()) == b);
}

/// A string whose ends are not dropped characters is left as it is.
pub proof fn lemma_strip_kept(s: Seq<char>, drop: spec_fn(char) -> bool)
    requires
        s.len() > 0 ==> !drop(s[0]) && !drop(s.last()),
    ensures
        strip(s, drop) == s,
{
}

/// A contiguous part of an ASCII string, and its ASCII lower-casing, are
/// ASCII.
pub proof fn lemma_ascii_closed(s: Seq<char>, i: int, j: int)
    requires
        is_ascii_seq(s),
        0 <= i <= j <= s.len(),
    ensures
        is_ascii_seq(s.subrange(i, j)),
        is_ascii_seq(ascii_lower_seq(s)),
{
    assert forall|k: int| 0 <= k < s.len() implies (#[trigger] ascii_lower_seq(s)[k] as u32) < 128 by {
        assert((s[k] as u32) < 128);
        if 'A' <= s[k] <= 'Z' {
            assert((((s[k] as u32) + 32) as u32) < 128);
        }
    }
    assert forall|k: int| 0 <= k < j - i implies (#[trigger] s.subrange(i, j)[k] as u32) < 128 by {
        assert(s.subrange(i, j)[k] == s[i + k]);
    }
}

} // verus!
