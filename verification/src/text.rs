//! Character and string helpers shared by the rest of the library.
use vstd::prelude::*;

verus! {

/// Whether a character carries the Unicode `White_Space` property: U+0009
/// through U+000D, the space, U+0085, U+00A0, U+1680, U+2000 through U+200A,
/// U+2028, U+2029, U+202F, U+205F and U+3000. This is the set
/// `char::is_whitespace` recognises.
pub open spec fn white_space(c: char) -> bool {
    let u = c as u32;
    ||| 0x09 <= u <= 0x0D
    ||| u == 0x20
    ||| u == 0x85
    ||| u == 0xA0
    ||| u == 0x1680
    ||| 0x2000 <= u <= 0x200A
    ||| u == 0x2028
    ||| u == 0x2029
    ||| u == 0x202F
    ||| u == 0x205F
    ||| u == 0x3000
}

/// The ASCII characters with the `White_Space` property: space, and
/// horizontal tab through carriage return.
pub open spec fn ascii_white_space(c: char) -> bool {
    c == ' ' || (9 <= (c as u32) && (c as u32) <= 13)
}

/// Whether `c` has the Unicode `White_Space` property.
pub fn is_whitespace(c: char) -> (r: bool)
    ensures
        r == white_space(c),
        (c as u32) < 128 ==> (r <==> ascii_white_space(c)),
{
    let u = c as u32;
    (0x09 <= u && u <= 0x0D) || u == 0x20 || u == 0x85 || u == 0xA0 || u == 0x1680 || (0x2000
        <= u && u <= 0x200A) || u == 0x2028 || u == 0x2029 || u == 0x202F || u == 0x205F || u
        == 0x3000
}

/// `String::push`: appends one character at the end of the string.
#[verifier::external_body]
pub(crate) fn push_char(s: &mut String, c: char)
    ensures
        final(s)@ == old(s)@.push(c),
{
    s.push(c)
}

/// `s` without its leading white space.
pub open spec fn trim_start(s: Seq<char>) -> Seq<char>
    decreases s.len(),
{
    if s.len() > 0 && white_space(s[0]) {
        trim_start(s.drop_first())
    } else {
        s
    }
}

/// `s` without its trailing white space.
pub open spec fn trim_end(s: Seq<char>) -> Seq<char>
    decreases s.len(),
{
    if s.len() > 0 && white_space(s.last()) {
        trim_end(s.drop_last())
    } else {
        s
    }
}

/// `s` without leading and trailing white space.
pub open spec fn trim(s: Seq<char>) -> Seq<char> {
    trim_end(trim_start(s))
}

/// Whether `s` begins with `p`.
pub open spec fn has_prefix(s: Seq<char>, p: Seq<char>) -> bool {
    p.len() <= s.len() && s.subrange(0, p.len() as int) == p
}

/// The number of leading white-space characters of `s`, as a position.
pub fn trim_start_index(s: &str) -> (i: usize)
    ensures
        i <= s@.len(),
        trim_start(s@) == s@.subrange(i as int, s@.len() as int),
{
    let n = s.unicode_len();
    let mut i: usize = 0;
    assert(s@.subrange(0, n as int) =~= s@);
    while i < n
        invariant
            n == s@.len(),
            i <= n,
            trim_start(s@) == trim_start(s@.subrange(i as int, n as int)),
        decreases n - i,
    {
        let c = s.get_char(i);
        if !is_whitespace(c) {
            return i;
        }
        assert(s@.subrange(i as int, n as int).drop_first() =~= s@.subrange(i + 1, n as int));
        i = i + 1;
    }
    assert(s@.subrange(n as int, n as int).len() == 0);
    i
}

/// One past the last non-white-space character of `s`.
pub fn trim_end_index(s: &str) -> (j: usize)
    ensures
        j <= s@.len(),
        trim_end(s@) == s@.subrange(0, j as int),
{
    let n = s.unicode_len();
    let mut j: usize = n;
    assert(s@.subrange(0, n as int) =~= s@);
    while j > 0
        invariant
            n == s@.len(),
            j <= n,
            trim_end(s@) == trim_end(s@.subrange(0, j as int)),
        decreases j,
    {
        let c = s.get_char(j - 1);
        if !is_whitespace(c) {
            return j;
        }
        assert(s@.subrange(0, j as int).drop_last() =~= s@.subrange(0, j - 1));
        j = j - 1;
    }
    j
}

/// `str::trim`: the slice of `s` without leading and trailing white space.
pub fn trim_str(s: &str) -> (r: &str)
    ensures
        r@ == trim(s@),
{
    let i = trim_start_index(s);
    let rest = s.substring_char(i, s.unicode_len());
    let j = trim_end_index(rest);
    rest.substring_char(0, j)
}

/// `str::trim_end`: the slice of `s` without trailing white space.
pub fn trim_end_str(s: &str) -> (r: &str)
    ensures
        r@ == trim_end(s@),
{
    let j = trim_end_index(s);
    s.substring_char(0, j)
}

/// `str::starts_with` for a string pattern.
pub fn starts_with(s: &str, p: &str) -> (r: bool)
    ensures
        r == has_prefix(s@, p@),
{
    let n = s.unicode_len();
    let m = p.unicode_len();
    if m > n {
        return false;
    }
    let mut i: usize = 0;
    while i < m
        invariant
            n == s@.len(),
            m == p@.len(),
            m <= n,
            i <= m,
            forall|k: int| 0 <= k < i ==> s@[k] == p@[k],
        decreases m - i,
    {
        if s.get_char(i) != p.get_char(i) {
            assert(s@.subrange(0, m as int)[i as int] != p@[i as int]);
            return false;
        }
        i = i + 1;
    }
    assert(s@.subrange(0, m as int) =~= p@);
    true
}

} // verus!

verus! {

/// Character-wise equality of two strings.
pub fn str_eq(a: &str, b: &str) -> (r: bool)
    ensures
        r == (a@ == b@),
{
    let n = a.unicode_len();
    if n != b.unicode_len() {
        return false;
    }
    let mut i: usize = 0;
    while i < n
        invariant
            n == a@.len(),
            n == b@.len(),
            i <= n,
            forall|k: int| 0 <= k < i ==> a@[k] == b@[k],
        decreases n - i,
    {
        if a.get_char(i) != b.get_char(i) {
            return false;
        }
        i = i + 1;
    }
    assert(a@ =~= b@);
    true
}

/// Whether every character of `s` is ASCII.
pub open spec fn ascii_text(s: Seq<char>) -> bool {
    forall|i: int| 0 <= i < s.len() ==> (#[trigger] s[i] as u32) < 128
}

/// ASCII lower-casing of one character.
pub open spec fn ascii_lower_char(c: char) -> char {
    if 65 <= (c as u32) && (c as u32) <= 90 {
        ((c as u32) + 32) as char
    } else {
        c
    }
}

/// ASCII upper-casing of one character.
pub open spec fn ascii_upper_char(c: char) -> char {
    if 97 <= (c as u32) && (c as u32) <= 122 {
        ((c as u32) - 32) as char
    } else {
        c
    }
}

/// ASCII lower-casing of a string.
pub open spec fn ascii_lower(s: Seq<char>) -> Seq<char> {
    s.map_values(|c: char| ascii_lower_char(c))
}

/// ASCII upper-casing of a string.
pub open spec fn ascii_upper(s: Seq<char>) -> Seq<char> {
    s.map_values(|c: char| ascii_upper_char(c))
}

/// The lower-case form of a string as `str::to_lowercase` computes it
/// (Unicode `Lowercase` mapping).
pub uninterp spec fn lowercased(s: Seq<char>) -> Seq<char>;

/// `str::to_lowercase`: the Unicode lower-case mapping of `s`, named
/// `lowercased(s)`. On ASCII text that mapping is ASCII lower-casing, which the
/// contract also states; nothing more is stated of other characters.
#[verifier::external_body]
pub(crate) fn to_lowercase(s: &str) -> (r: String)
    ensures
        r@ == lowercased(s@),
        ascii_text(s@) ==> r@ == ascii_lower(s@),
{
    s.to_lowercase()
}

/// `str::to_ascii_uppercase`: ASCII letters upper-cased, everything else kept.
pub fn to_ascii_uppercase(s: &str) -> (r: String)
    ensures
        r@ == ascii_upper(s@),
{
    let n = s.unicode_len();
    let mut out = String::new();
    let mut i: usize = 0;
    while i < n
        invariant
            n == s@.len(),
            i <= n,
            out@ == ascii_upper(s@.subrange(0, i as int)),
        decreases n - i,
    {
        let c = s.get_char(i);
        let u: char = if 'a' <= c && c <= 'z' {
            let code: u32 = (c as u32) - 32;
            assert(ascii_upper_char(c) == code as char);
            char_from_ascii(code)
        } else {
            c
        };
        push_char(&mut out, u);
        assert(ascii_upper(s@.subrange(0, i + 1)) =~= ascii_upper(s@.subrange(0, i as int)).push(
            ascii_upper_char(s@[i as int]),
        ));
        i = i + 1;
    }
    assert(s@.subrange(0, n as int) =~= s@);
    out
}

/// The character with an ASCII code point.
pub fn char_from_ascii(code: u32) -> (c: char)
    requires
        code < 128,
    ensures
        c == code as char,
{
    let b: u8 = code as u8;
    b as char
}

/// `s` with every occurrence of `from` replaced by `to`.
pub open spec fn replace_char(s: Seq<char>, from: char, to: char) -> Seq<char> {
    s.map_values(|c: char| if c == from { to } else { c })
}

/// `s` with every occurrence of `gone` removed.
pub open spec fn remove_char(s: Seq<char>, gone: char) -> Seq<char>
    decreases s.len(),
{
    if s.len() == 0 {
        s
    } else if s.last() == gone {
        remove_char(s.drop_last(), gone)
    } else {
        remove_char(s.drop_last(), gone).push(s.last())
    }
}

/// `str::replace` of one character by another one.
pub fn replace_chars(s: &str, from: char, to: char) -> (r: String)
    ensures
        r@ == replace_char(s@, from, to),
{
    let n = s.unicode_len();
    let mut out = String::new();
    let mut i: usize = 0;
    while i < n
        invariant
            n == s@.len(),
            i <= n,
            out@ == replace_char(s@.subrange(0, i as int), from, to),
        decreases n - i,
    {
        let c = s.get_char(i);
        if c == from {
            push_char(&mut out, to);
        } else {
            push_char(&mut out, c);
        }
        assert(replace_char(s@.subrange(0, i + 1), from, to) =~= replace_char(
            s@.subrange(0, i as int),
            from,
            to,
        ).push(if s@[i as int] == from { to } else { s@[i as int] }));
        i = i + 1;
    }
    assert(s@.subrange(0, n as int) =~= s@);
    out
}

/// `str::replace` of one character by the empty string.
pub fn remove_chars(s: &str, gone: char) -> (r: String)
    ensures
        r@ == remove_char(s@, gone),
{
    let n = s.unicode_len();
    let mut out = String::new();
    let mut i: usize = 0;
    assert(s@.subrange(0, 0).len() == 0);
    while i < n
        invariant
            n == s@.len(),
            i <= n,
            out@ == remove_char(s@.subrange(0, i as int), gone),
        decreases n - i,
    {
        let c = s.get_char(i);
        assert(s@.subrange(0, i + 1).drop_last() =~= s@.subrange(0, i as int));
        if c != gone {
            push_char(&mut out, c);
        }
        i = i + 1;
    }
    assert(s@.subrange(0, n as int) =~= s@);
    out
}

} // verus!

verus! {

/// Text with its trailing white space removed does not end in white space.
pub proof fn lemma_trim_end_ends_clean(s: Seq<char>)
    ensures
        trim_end(s).len() > 0 ==> !white_space(trim_end(s).last()),
        trim_end(s).len() <= s.len(),
    decreases s.len(),
{
    if s.len() > 0 && white_space(s.last()) {
        lemma_trim_end_ends_clean(s.drop_last());
    }
}

proof fn lemma_trim_start_starts_clean(s: Seq<char>)
    ensures
        trim_start(s).len() > 0 ==> !white_space(trim_start(s)[0]),
    decreases s.len(),
{
    if s.len() > 0 && white_space(s[0]) {
        lemma_trim_start_starts_clean(s.drop_first());
    }
}

proof fn lemma_trim_end_is_prefix(s: Seq<char>)
    ensures
        trim_end(s).len() <= s.len(),
        trim_end(s) == s.subrange(0, trim_end(s).len() as int),
    decreases s.len(),
{
    if s.len() > 0 && white_space(s.last()) {
        lemma_trim_end_is_prefix(s.drop_last());
    } else {
        assert(s.subrange(0, s.len() as int) =~= s);
    }
}

/// Trimmed text neither begins nor ends with white space.
pub proof fn lemma_trim_is_clean(s: Seq<char>)
    ensures
        trim(s).len() > 0 ==> !white_space(trim(s)[0]) && !white_space(trim(s).last()),
{
    lemma_trim_start_starts_clean(s);
    lemma_trim_end_is_prefix(trim_start(s));
    lemma_trim_end_ends_clean(trim_start(s));
    if trim(s).len() > 0 {
        assert(trim(s)[0] == trim_start(s)[0]);
    }
}

/// Text that neither begins nor ends with white space trims to itself.
pub proof fn lemma_clean_text_trims_to_itself(s: Seq<char>)
    requires
        s.len() > 0,
        !white_space(s[0]),
        !white_space(s.last()),
    ensures
        trim(s) == s,
{
}

} // verus!
