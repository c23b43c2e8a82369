use vstd::prelude::*;
use vstd::string::StrSliceExecFns;

verus! {

/// The lowercase form of a string, as Rust's `str::to_lowercase` computes it
/// (Unicode lowercase mapping, character by character).
pub uninterp spec fn lowercase(s: Seq<char>) -> Seq<char>;

/// The uppercase form of a string, as Rust's `str::to_uppercase` computes it
/// (Unicode uppercase mapping, character by character).
pub uninterp spec fn uppercase(s: Seq<char>) -> Seq<char>;

/// The ASCII uppercase form of a character: `a`..`z` become `A`..`Z`,
/// everything else stays.
pub open spec fn ascii_upper_char(c: char) -> char {
    if 'a' <= c && c <= 'z' {
        ((c as u32) - 32) as char
    } else {
        c
    }
}

/// The ASCII uppercase form of a string.
pub open spec fn ascii_upper(s: Seq<char>) -> Seq<char> {
    s.map_values(|c: char| ascii_upper_char(c))
}

/// `s` with every occurrence of the non-empty `from`, found left to right
/// without overlap, replaced by `to`, as `str::replace` does it.
pub open spec fn replaced(s: Seq<char>, from: Seq<char>, to: Seq<char>) -> Seq<char>
    decreases s.len(),
{
    if s.len() == 0 || from.len() == 0 {
        s
    } else if from.len() <= s.len() && s.take(from.len() as int) == from {
        to + replaced(s.skip(from.len() as int), from, to)
    } else {
        seq![s[0]] + replaced(s.drop_first(), from, to)
    }
}

/// Whether every character of `s` is ASCII.
pub open spec fn is_ascii_chars(s: Seq<char>) -> bool {
    forall|i: int| 0 <= i < s.len() ==> (#[trigger] s[i] as u32) < 128
}

/// The ASCII lowercase form of a character: `A`..`Z` become `a`..`z`,
/// everything else stays.
pub open spec fn ascii_lower_char(c: char) -> char {
    if 'A' <= c && c <= 'Z' {
        ((c as u32) + 32) as char
    } else {
        c
    }
}

/// The ASCII lowercase form of a string.
pub open spec fn ascii_lower(s: Seq<char>) -> Seq<char> {
    s.map_values(|c: char| ascii_lower_char(c))
}

/// Whether a character has the Unicode `White_Space` property, the
/// whitespace of `char::is_whitespace` and `str::trim`.
pub open spec fn is_white_space(c: char) -> bool {
    let n = c as u32;
    ||| 0x09 <= n && n <= 0x0D
    ||| n == 0x20
    ||| n == 0x85
    ||| n == 0xA0
    ||| n == 0x1680
    ||| 0x2000 <= n && n <= 0x200A
    ||| n == 0x2028
    ||| n == 0x2029
    ||| n == 0x202F
    ||| n == 0x205F
    ||| n == 0x3000
}

/// The string without its leading whitespace.
pub open spec fn trim_start_ws(s: Seq<char>) -> Seq<char>
    decreases s.len(),
{
    if s.len() > 0 && is_white_space(s[0]) {
        trim_start_ws(s.drop_first())
    } else {
        s
    }
}

/// The string without its trailing whitespace.
pub open spec fn trim_end_ws(s: Seq<char>) -> Seq<char>
    decreases s.len(),
{
    if s.len() > 0 && is_white_space(s.last()) {
        trim_end_ws(s.drop_last())
    } else {
        s
    }
}

/// The string without leading and trailing whitespace, as `str::trim` has it.
pub open spec fn trimmed(s: Seq<char>) -> Seq<char> {
    trim_end_ws(trim_start_ws(s))
}

/// `base` joined with `rel` as `Path::join` does it on Unix: an absolute
/// `rel` replaces the base, an empty base gives `rel`, and otherwise a `/`
/// goes between them unless the base already ends with one.
pub open spec fn path_join(base: Seq<char>, rel: Seq<char>) -> Seq<char> {
    if rel.len() > 0 && rel[0] == '/' {
        rel
    } else if base.len() == 0 {
        rel
    } else if base.last() == '/' {
        base + rel
    } else {
        base + seq!['/'] + rel
    }
}

/// Calls `str::to_lowercase`; the result is named `lowercase`. Its
/// documentation gives each character a lowercase mapping of one or more
/// characters, so the result is empty exactly when the string is; on ASCII
/// text that mapping turns `A`..`Z` into `a`..`z` and keeps the rest.
#[verifier::external_body]
pub fn to_lowercase(s: &str) -> (r: String)
    ensures
        r@ == lowercase(s@),
        r@.len() == 0 <==> s@.len() == 0,
        is_ascii_chars(s@) ==> r@ == ascii_lower(s@),
{
    s.to_lowercase()
}

/// Calls `str::to_uppercase`; the result is named `uppercase`. On ASCII
/// text its documented mapping turns `a`..`z` into `A`..`Z` and keeps the
/// rest.
#[verifier::external_body]
pub fn to_uppercase(s: &str) -> (r: String)
    ensures
        r@ == uppercase(s@),
        is_ascii_chars(s@) ==> r@ == ascii_upper(s@),
{
    s.to_uppercase()
}

/// Calls `str::replace` with a non-empty pattern: every occurrence of
/// `from`, left to right and without overlap, becomes `to`.
#[verifier::external_body]
pub fn replace_str(s: &str, from: &str, to: &str) -> (r: String)
    requires
        from@.len() > 0,
    ensures
        r@ == replaced(s@, from@, to@),
{
    s.replace(from, to)
}

/// Calls `str::trim`: strips the characters with the Unicode `White_Space`
/// property from both ends.
#[verifier::external_body]
pub fn trim(s: &str) -> (r: &str)
    ensures
        r@ == trimmed(s@),
{
    s.trim()
}

/// Calls `Path::join` on valid UTF-8 paths and converts the result back to a
/// `String` (which the lossy conversion leaves as it is). The contract is
/// that of Unix paths, where the library runs: see `path_join`.
#[verifier::external_body]
pub fn join_path(base: &str, rel: &str) -> (r: String)
    ensures
        r@ == path_join(base@, rel@),
{
    std::path::Path::new(base).join(rel).to_string_lossy().into_owned()
}

/// Calls `String::push`: appends one character.
#[verifier::external_body]
pub fn push_char(s: &mut String, c: char)
    ensures
        final(s)@ == old(s)@.push(c),
{
    s.push(c)
}

/// Calls `String::pop`: removes and returns the last character, if any.
#[verifier::external_body]
pub fn pop_char(s: &mut String) -> (r: Option<char>)
    ensures
        old(s)@.len() == 0 ==> r is None && final(s)@ == old(s)@,
        old(s)@.len() > 0 ==> r == Some(old(s)@.last()) && final(s)@ == old(s)@.drop_last(),
{
    s.pop()
}

/// Calls `String::clear`: empties the string.
#[verifier::external_body]
pub fn clear_string(s: &mut String)
    ensures
        final(s)@ == Seq::<char>::empty(),
{
    s.clear()
}

/// Whether `needle` occurs in `hay` as a contiguous run of characters.
pub open spec fn is_substring(needle: Seq<char>, hay: Seq<char>) -> bool {
    exists|i: int|
        0 <= i && i + needle.len() <= hay.len() && #[trigger] hay.subrange(i, i + needle.len())
            == needle
}

/// Whether the characters of `needle` match those of `hay` from position `at`.
fn matches_at(hay: &str, hay_len: usize, needle: &str, needle_len: usize, at: usize) -> (b: bool)
    requires
        hay_len == hay@.len(),
        needle_len == needle@.len(),
        at + needle_len <= hay_len,
    ensures
        b == (hay@.subrange(at as int, at + needle_len) == needle@),
{
    let mut k: usize = 0;
    while k < needle_len
        invariant
            hay_len == hay@.len(),
            needle_len == needle@.len(),
            at + needle_len <= hay_len,
            k <= needle_len,
            forall|j: int| 0 <= j < k ==> hay@[at + j] == needle@[j],
        decreases needle_len - k,
    {
        if hay.get_char(at + k) != needle.get_char(k) {
            assert(hay@.subrange(at as int, at + needle_len)[k as int] != needle@[k as int]);
            return false;
        }
        k += 1;
    }
    assert(hay@.subrange(at as int, at + needle_len) =~= needle@);
    true
}

/// Whether `needle` occurs in `hay`, as `str::contains` with a string
/// pattern answers it.
pub fn contains_str(hay: &str, needle: &str) -> (b: bool)
    ensures
        b == is_substring(needle@, hay@),
{
    let hay_len = hay.unicode_len();
    let needle_len = needle.unicode_len();
    if needle_len > hay_len {
        return false;
    }
    let last = hay_len - needle_len;
    let mut at: usize = 0;
    loop
        invariant
            hay_len == hay@.len(),
            needle_len == needle@.len(),
            last == hay_len - needle_len,
            at <= last,
            forall|i: int| 0 <= i < at ==> #[trigger] hay@.subrange(i, i + needle_len) != needle@,
        ensures
            forall|i: int| 0 <= i <= last ==> #[trigger] hay@.subrange(i, i + needle_len) != needle@,
        decreases last - at,
    {
        if matches_at(hay, hay_len, needle, needle_len, at) {
            return true;
        }
        if at == last {
            break;
        }
        at += 1;
    }
    false
}

/// The first position, from `i` on, at which `needle` occurs in `hay`.
pub open spec fn first_occurrence_from(hay: Seq<char>, needle: Seq<char>, i: int) -> Option<int>
    decreases hay.len() + 1 - i,
{
    if i < 0 || i + needle.len() > hay.len() {
        None
    } else if hay.subrange(i, i + needle.len()) == needle {
        Some(i)
    } else {
        first_occurrence_from(hay, needle, i + 1)
    }
}

/// A first occurrence lies inside `hay`, at or after where the search began.
pub proof fn lemma_first_occurrence_in_range(hay: Seq<char>, needle: Seq<char>, i: int)
    ensures
        first_occurrence_from(hay, needle, i) matches Some(k) ==> i <= k && k + needle.len() <= hay.len()
            && hay.subrange(k, k + needle.len()) == needle,
    decreases hay.len() + 1 - i,
{
    if !(i < 0 || i + needle.len() > hay.len()) && hay.subrange(i, i + needle.len()) != needle {
        lemma_first_occurrence_in_range(hay, needle, i + 1);
    }
}

/// The first position, in characters, at which `needle` occurs in `hay`.
pub fn find_str(hay: &str, needle: &str) -> (r: Option<usize>)
    ensures
        match r {
            Some(i) => first_occurrence_from(hay@, needle@, 0) == Some(i as int),
            None => first_occurrence_from(hay@, needle@, 0) is None,
        },
{
    let hay_len = hay.unicode_len();
    let needle_len = needle.unicode_len();
    if needle_len > hay_len {
        return None;
    }
    let last = hay_len - needle_len;
    let mut at: usize = 0;
    loop
        invariant
            hay_len == hay@.len(),
            needle_len == needle@.len(),
            last == hay_len - needle_len,
            at <= last,
            first_occurrence_from(hay@, needle@, 0) == first_occurrence_from(hay@, needle@, at as int),
        decreases last - at,
    {
        if matches_at(hay, hay_len, needle, needle_len, at) {
            return Some(at);
        }
        if at == last {
            return None;
        }
        at += 1;
    }
}

/// `a` comes before or equals `b` in the order of Rust's `String` comparison
/// (lexicographic by character, a proper prefix first).
pub open spec fn chars_le(a: Seq<char>, b: Seq<char>) -> bool
    decreases a.len(),
{
    if a.len() == 0 {
        true
    } else if b.len() == 0 {
        false
    } else if a[0] != b[0] {
        a[0] < b[0]
    } else {
        chars_le(a.drop_first(), b.drop_first())
    }
}

/// Whether two strings hold the same characters.
pub fn str_eq(a: &str, b: &str) -> (r: bool)
    ensures
        r == (a@ == b@),
{
    let n = a.unicode_len();
    if n != b.unicode_len() {
        return false;
    }
    let mut i: usize = 0;
    while i < n
        invariant
            n == a@.len(),
            n == b@.len(),
            i <= n,
            forall|j: int| 0 <= j < i ==> a@[j] == b@[j],
        decreases n - i,
    {
        if a.get_char(i) != b.get_char(i) {
            return false;
        }
        i += 1;
    }
    assert(a@ =~= b@);
    true
}

proof fn lemma_chars_le_step(a: Seq<char>, b: Seq<char>, i: int)
    requires
        0 <= i < a.len(),
        i < b.len(),
        a[i] == b[i],
    ensures
        chars_le(a.skip(i), b.skip(i)) == chars_le(a.skip(i + 1), b.skip(i + 1)),
{
    assert(a.skip(i).drop_first() =~= a.skip(i + 1));
    assert(b.skip(i).drop_first() =~= b.skip(i + 1));
}

/// Whether `a` sorts before or equal to `b` as Rust's `String` ordering has it.
pub fn str_le(a: &str, b: &str) -> (r: bool)
    ensures
        r == chars_le(a@, b@),
{
    let n = a.unicode_len();
    let m = b.unicode_len();
    let mut i: usize = 0;
    assert(a@.skip(0) =~= a@);
    assert(b@.skip(0) =~= b@);
    while i < n && i < m
        invariant
            n == a@.len(),
            m == b@.len(),
            i <= n,
            i <= m,
            chars_le(a@, b@) == chars_le(a@.skip(i as int), b@.skip(i as int)),
        decreases n - i,
    {
        let x = a.get_char(i);
        let y = b.get_char(i);
        if x != y {
            assert(a@.skip(i as int)[0] == x);
            assert(b@.skip(i as int)[0] == y);
            return x < y;
        }
        proof {
            lemma_chars_le_step(a@, b@, i as int);
        }
        i += 1;
    }
    i == n
}

/// `chars_le` is total.
pub proof fn lemma_chars_le_total(a: Seq<char>, b: Seq<char>)
    ensures
        chars_le(a, b) || chars_le(b, a),
    decreases a.len(),
{
    if a.len() > 0 && b.len() > 0 && a[0] == b[0] {
        lemma_chars_le_total(a.drop_first(), b.drop_first());
    }
}

/// `chars_le` is transitive.
pub proof fn lemma_chars_le_trans(a: Seq<char>, b: Seq<char>, c: Seq<char>)
    requires
        chars_le(a, b),
        chars_le(b, c),
    ensures
        chars_le(a, c),
    decreases a.len(),
{
    if a.len() > 0 && b.len() > 0 && c.len() > 0 && a[0] == b[0] && b[0] == c[0] {
        lemma_chars_le_trans(a.drop_first(), b.drop_first(), c.drop_first());
    }
}

} // verus!
