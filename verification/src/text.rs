//! Character-level text utilities shared by the routing, parsing and
//! formatting code. Strings are handled as sequences of `char`.

use vstd::prelude::*;

verus! {

broadcast use vstd::string::group_string_axioms;

/// The characters of `s`, in order.
pub fn chars_of(s: &str) -> (r: Vec<char>)
    ensures
        r@ == s@,
{
    let mut r: Vec<char> = Vec::new();
    for c in it: s.chars()
        invariant
            r@ == it.seq().take(it.index() as int),
            it.seq() == s@,
    {
        r.push(c);
    }
    r
}

/// Builds a `String` holding exactly the given characters
/// (std's `FromIterator<&char> for String`).
#[verifier::external_body]
pub(crate) fn string_from_chars(v: &[char]) -> (r: String)
    ensures
        r@ == v@,
{
    v.iter().collect()
}

/// Copies a string slice into an owned `String`.
pub fn owned(s: &str) -> (r: String)
    ensures
        r@ == s@,
{
    s.to_owned()
}

/// Name for what std's `str::to_lowercase` returns: the Unicode lower-case
/// mapping of a whole string (it depends on the string alone).
pub uninterp spec fn lowercase(s: Seq<char>) -> Seq<char>;

/// Every character is ASCII.
pub open spec fn all_ascii(s: Seq<char>) -> bool {
    forall|i: int| 0 <= i < s.len() ==> (s[i] as u32) < 128
}

/// std's `str::to_lowercase`: the Unicode lower-case mapping, which on ASCII
/// text maps `A`–`Z` to `a`–`z` and keeps every other character. For other
/// text the contract only ties the result to its name.
#[verifier::external_body]
pub(crate) fn to_lowercase(s: &str) -> (r: String)
    ensures
        r@ == lowercase(s@),
        all_ascii(s@) ==> r@ == s@.map_values(|c: char| crate::types::ascii_lower(c)),
{
    s.to_lowercase()
}

/// `s` holds `p` starting at position `i`.
pub open spec fn occurs_at(s: Seq<char>, p: Seq<char>, i: int) -> bool {
    0 <= i && i + p.len() <= s.len() && s.subrange(i, i + p.len()) == p
}

/// `p` occurs somewhere in `s` (the empty pattern occurs everywhere).
pub open spec fn has_substring(s: Seq<char>, p: Seq<char>) -> bool {
    exists|i: int| occurs_at(s, p, i)
}

/// First position at or after `i` where `p` occurs in `s`.
pub open spec fn index_from(s: Seq<char>, p: Seq<char>, i: int) -> Option<int>
    decreases s.len() + 1 - i,
{
    if i < 0 || i > s.len() {
        None
    } else if occurs_at(s, p, i) {
        Some(i)
    } else {
        index_from(s, p, i + 1)
    }
}

/// First position where `p` occurs in `s` (std's `str::find`, counted in chars).
pub open spec fn first_index(s: Seq<char>, p: Seq<char>) -> Option<int> {
    index_from(s, p, 0)
}

proof fn lemma_index_from(s: Seq<char>, p: Seq<char>, i: int, k: Option<int>)
    requires
        0 <= i,
        forall|j: int| i <= j && j < (match k { Some(x) => x, None => s.len() + 1int })
            ==> !occurs_at(s, p, j),
        match k {
            Some(x) => i <= x && occurs_at(s, p, x),
            None => true,
        },
    ensures
        index_from(s, p, i) == k,
    decreases s.len() + 1 - i,
{
    if i > s.len() {
        if let Some(x) = k {
            assert(x + p.len() <= s.len());
        }
    } else if occurs_at(s, p, i) {
        if let Some(x) = k {
            assert(!(i < x));
        } else {
            assert(false);
        }
    } else {
        if let Some(x) = k {
            assert(i != x);
        }
        lemma_index_from(s, p, i + 1, k);
    }
}

/// A pattern that occurs nowhere has no first position.
pub proof fn lemma_absent_first_index(s: Seq<char>, p: Seq<char>)
    requires
        forall|i: int| !occurs_at(s, p, i),
    ensures
        first_index(s, p) is None,
{
    lemma_index_from(s, p, 0, None);
}

/// The first position of a one-character pattern is the first position
/// holding that character.
pub proof fn lemma_first_char_index(s: Seq<char>, c: char, i: int)
    requires
        0 <= i < s.len(),
        s[i] == c,
        forall|j: int| 0 <= j < i ==> s[j] != c,
    ensures
        first_index(s, seq![c]) == Some(i),
{
    assert forall|j: int| 0 <= j && j < i implies !occurs_at(s, seq![c], j) by {
        if occurs_at(s, seq![c], j) {
            assert(s.subrange(j, j + 1)[0] == s[j]);
        }
    }
    assert(s.subrange(i, i + 1) =~= seq![c]);
    lemma_index_from(s, seq![c], 0, Some(i));
}

/// Does `p` occur in `s` at position `i`?
fn matches_at(s: &[char], p: &[char], i: usize) -> (r: bool)
    requires
        i <= s@.len(),
    ensures
        r == occurs_at(s@, p@, i as int),
{
    if p.len() > s.len() - i {
        return false;
    }
    let mut k: usize = 0;
    while k < p.len()
        invariant
            i + p@.len() <= s@.len(),
            s@.len() == s.len(),
            k <= p@.len(),
            forall|j: int| 0 <= j < k ==> s@[i + j] == p@[j],
        decreases p@.len() - k,
    {
        if s[i + k] != p[k] {
            assert(s@.subrange(i as int, i + p@.len())[k as int] != p@[k as int]);
            return false;
        }
        k = k + 1;
    }
    assert(s@.subrange(i as int, i + p@.len()) =~= p@);
    true
}

/// Position of the first occurrence of `p` in `s`, if any.
pub fn find(s: &[char], p: &[char]) -> (r: Option<usize>)
    ensures
        match r {
            Some(i) => occurs_at(s@, p@, i as int) && forall|j: int|
                0 <= j < i ==> !occurs_at(s@, p@, j),
            None => !has_substring(s@, p@),
        },
        r matches Some(i) ==> first_index(s@, p@) == Some(i as int),
        r is None ==> first_index(s@, p@) is None,
{
    let mut i: usize = 0;
    loop
        invariant
            i <= s@.len(),
            forall|j: int| 0 <= j < i ==> !occurs_at(s@, p@, j),
        ensures
            forall|j: int| 0 <= j <= s@.len() ==> !occurs_at(s@, p@, j),
        decreases s@.len() - i,
    {
        if matches_at(s, p, i) {
            proof {
                lemma_index_from(s@, p@, 0, Some(i as int));
            }
            return Some(i);
        }
        if i == s.len() {
            break;
        }
        i = i + 1;
    }
    assert forall|j: int| !occurs_at(s@, p@, j) by {
        if 0 <= j && j + p@.len() <= s@.len() {
            assert(j <= s@.len());
        }
    }
    proof {
        lemma_index_from(s@, p@, 0, None);
    }
    None
}

/// Does `p` occur anywhere in `s`?
pub fn contains(s: &[char], p: &[char]) -> (r: bool)
    ensures
        r == has_substring(s@, p@),
{
    match find(s, p) {
        Some(_) => true,
        None => false,
    }
}

/// Does `p` occur anywhere in `s`? (string-slice form)
pub fn str_contains(s: &str, p: &str) -> (r: bool)
    ensures
        r == has_substring(s@, p@),
{
    let sc = chars_of(s);
    let pc = chars_of(p);
    contains(sc.as_slice(), pc.as_slice())
}

/// `s` begins with `p`.
pub open spec fn is_prefix(p: Seq<char>, s: Seq<char>) -> bool {
    p.len() <= s.len() && s.subrange(0, p.len() as int) == p
}

/// `s` ends with `p`.
pub open spec fn is_suffix(p: Seq<char>, s: Seq<char>) -> bool {
    p.len() <= s.len() && s.subrange(s.len() - p.len(), s.len() as int) == p
}

/// Does `s` begin with `p`?
pub fn starts_with(s: &[char], p: &[char]) -> (r: bool)
    ensures
        r == is_prefix(p@, s@),
{
    matches_at(s, p, 0)
}

/// Does `s` end with `p`?
pub fn ends_with(s: &[char], p: &[char]) -> (r: bool)
    ensures
        r == is_suffix(p@, s@),
{
    if p.len() > s.len() {
        return false;
    }
    matches_at(s, p, s.len() - p.len())
}

/// Unicode `White_Space` property, as std's `char::is_whitespace` tests it.
pub open spec fn is_ws(c: char) -> bool {
    let u = c as u32;
    ||| (0x9 <= u && u <= 0xD)
    ||| u == 0x20
    ||| u == 0x85
    ||| u == 0xA0
    ||| u == 0x1680
    ||| (0x2000 <= u && u <= 0x200A)
    ||| u == 0x2028
    ||| u == 0x2029
    ||| u == 0x202F
    ||| u == 0x205F
    ||| u == 0x3000
}

/// Is `c` a white-space character?
pub fn is_whitespace(c: char) -> (r: bool)
    ensures
        r == is_ws(c),
{
    let u = c as u32;
    (0x9 <= u && u <= 0xD) || u == 0x20 || u == 0x85 || u == 0xA0 || u == 0x1680 || (0x2000 <= u
        && u <= 0x200A) || u == 0x2028 || u == 0x2029 || u == 0x202F || u == 0x205F || u == 0x3000
}

/// Character classes that trimming can strip.
#[derive(Clone, Copy)]
pub enum CharClass {
    /// White space (std's `char::is_whitespace`).
    Whitespace,
    /// Backticks, quotes and commas around a word.
    QuoteOrComma,
}

/// Membership of `c` in a class.
pub open spec fn in_class(cls: CharClass, c: char) -> bool {
    match cls {
        CharClass::Whitespace => is_ws(c),
        CharClass::QuoteOrComma => c == '`' || c == '\'' || c == '"' || c == ',',
    }
}

/// Is `c` in the class?
pub fn is_in_class(cls: CharClass, c: char) -> (r: bool)
    ensures
        r == in_class(cls, c),
{
    match cls {
        CharClass::Whitespace => is_whitespace(c),
        CharClass::QuoteOrComma => c == '`' || c == '\'' || c == '"' || c == ',',
    }
}

/// `s` with leading characters of the class removed.
pub open spec fn strip_start(s: Seq<char>, cls: CharClass) -> Seq<char>
    decreases s.len(),
{
    if s.len() > 0 && in_class(cls, s[0]) {
        strip_start(s.drop_first(), cls)
    } else {
        s
    }
}

/// `s` with trailing characters of the class removed.
pub open spec fn strip_end(s: Seq<char>, cls: CharClass) -> Seq<char>
    decreases s.len(),
{
    if s.len() > 0 && in_class(cls, s.last()) {
        strip_end(s.drop_last(), cls)
    } else {
        s
    }
}

/// `s` with characters of the class removed at both ends (std's `trim_matches`).
pub open spec fn strip(s: Seq<char>, cls: CharClass) -> Seq<char> {
    strip_end(strip_start(s, cls), cls)
}

/// `s` with white space removed at both ends (std's `str::trim`).
pub open spec fn trim(s: Seq<char>) -> Seq<char> {
    strip(s, CharClass::Whitespace)
}

proof fn lemma_strip_start_skip(s: Seq<char>, i: int, cls: CharClass)
    requires
        0 <= i <= s.len(),
        forall|j: int| 0 <= j < i ==> in_class(cls, s[j]),
    ensures
        strip_start(s, cls) == strip_start(s.skip(i), cls),
    decreases i,
{
    if i > 0 {
        assert(s.drop_first().skip(i - 1) =~= s.skip(i));
        lemma_strip_start_skip(s.drop_first(), i - 1, cls);
    } else {
        assert(s.skip(0) =~= s);
    }
}

proof fn lemma_strip_end_take(s: Seq<char>, k: int, cls: CharClass)
    requires
        0 <= k <= s.len(),
        forall|j: int| k <= j < s.len() ==> in_class(cls, s[j]),
    ensures
        strip_end(s, cls) == strip_end(s.take(k), cls),
    decreases s.len() - k,
{
    if k < s.len() {
        assert(s.drop_last().take(k) =~= s.take(k));
        lemma_strip_end_take(s.drop_last(), k, cls);
    } else {
        assert(s.take(k) =~= s);
    }
}

/// Bounds `[a, b)` such that `s[a..b]` is `strip(s, cls)`.
pub fn strip_bounds(s: &[char], cls: CharClass) -> (r: (usize, usize))
    ensures
        r.0 <= r.1 <= s@.len(),
        s@.subrange(r.0 as int, r.1 as int) == strip(s@, cls),
{
    let mut a: usize = 0;
    while a < s.len() && is_in_class(cls, s[a])
        invariant
            a <= s@.len(),
            forall|j: int| 0 <= j < a ==> in_class(cls, s@[j]),
        decreases s@.len() - a,
    {
        a = a + 1;
    }
    proof {
        lemma_strip_start_skip(s@, a as int, cls);
    }
    let ghost t = s@.skip(a as int);
    assert(strip_start(t, cls) == t);
    let mut b: usize = s.len();
    while b > a && is_in_class(cls, s[b - 1])
        invariant
            a <= b <= s@.len(),
            forall|j: int| b <= j < s@.len() ==> in_class(cls, s@[j]),
        decreases b,
    {
        b = b - 1;
    }
    proof {
        assert forall|j: int| b - a <= j < t.len() implies in_class(cls, t[j]) by {
            assert(t[j] == s@[a + j]);
        }
        lemma_strip_end_take(t, b - a, cls);
        let u = t.take(b - a);
        assert(u =~= s@.subrange(a as int, b as int));
        if u.len() > 0 {
            assert(u.last() == s@[b - 1]);
        }
        assert(strip_end(u, cls) == u);
    }
    (a, b)
}

/// `trim` of a character slice, as a new vector.
pub fn trim_chars(s: &[char]) -> (r: Vec<char>)
    ensures
        r@ == trim(s@),
{
    let (a, b) = strip_bounds(s, CharClass::Whitespace);
    slice_chars(s, a, b)
}

/// Trimmed copy of a string.
pub fn trim_str(s: &str) -> (r: String)
    ensures
        r@ == trim(s@),
{
    let c = chars_of(s);
    let t = trim_chars(c.as_slice());
    string_from_chars(t.as_slice())
}

/// Copy of `s[a..b]`.
pub fn slice_chars(s: &[char], a: usize, b: usize) -> (r: Vec<char>)
    requires
        a <= b <= s@.len(),
    ensures
        r@ == s@.subrange(a as int, b as int),
{
    let mut r: Vec<char> = Vec::new();
    let mut i = a;
    while i < b
        invariant
            a <= i <= b <= s@.len(),
            r@ == s@.subrange(a as int, i as int),
        decreases b - i,
    {
        r.push(s[i]);
        i = i + 1;
        assert(r@ =~= s@.subrange(a as int, i as int));
    }
    r
}

/// Appends all of `t` to `v`.
pub fn push_all(v: &mut Vec<char>, t: &[char])
    ensures
        final(v)@ == old(v)@ + t@,
{
    let ghost v0 = v@;
    let mut i: usize = 0;
    while i < t.len()
        invariant
            i <= t@.len(),
            v@ == v0 + t@.take(i as int),
        decreases t@.len() - i,
    {
        v.push(t[i]);
        i = i + 1;
        assert(v@ =~= v0 + t@.take(i as int));
    }
    assert(t@.take(t@.len() as int) =~= t@);
}

/// Appends the characters of `s` to `v`.
pub fn push_str(v: &mut Vec<char>, s: &str)
    ensures
        final(v)@ == old(v)@ + s@,
{
    let c = chars_of(s);
    push_all(v, c.as_slice());
}

/// Concatenation of two strings.
pub fn concat(a: &str, b: &str) -> (r: String)
    ensures
        r@ == a@ + b@,
{
    let mut v = chars_of(a);
    push_str(&mut v, b);
    string_from_chars(v.as_slice())
}

/// Name for what std's `String::from_utf8_lossy` yields for a byte string:
/// the text it decodes, with U+FFFD in place of each invalid sequence.
pub uninterp spec fn utf8_lossy(bytes: Seq<u8>) -> Seq<char>;

/// std's `String::from_utf8_lossy`. Its documentation states that valid
/// UTF-8 is decoded as it is; for invalid input the contract only names the
/// result.
#[verifier::external_body]
pub(crate) fn from_utf8_lossy(bytes: &[u8]) -> (r: String)
    ensures
        r@ == utf8_lossy(bytes@),
        vstd::utf8::valid_utf8(bytes@) ==> r@ == vstd::utf8::decode_utf8(bytes@),
{
    String::from_utf8_lossy(bytes).into_owned()
}

/// Copy of the bytes `b[a..e]`.
pub fn byte_slice(b: &[u8], a: usize, e: usize) -> (r: Vec<u8>)
    requires
        a <= e <= b@.len(),
    ensures
        r@ == b@.subrange(a as int, e as int),
{
    let mut r: Vec<u8> = Vec::new();
    let mut i = a;
    while i < e
        invariant
            a <= i <= e <= b@.len(),
            r@ == b@.subrange(a as int, i as int),
        decreases e - i,
    {
        r.push(b[i]);
        i = i + 1;
        assert(r@ =~= b@.subrange(a as int, i as int));
    }
    r
}

} // verus!
