//! Text: lossy UTF-8 decoding, the trimming of padding and of white space,
//! and the comparison of texts.

use vstd::prelude::*;
use vstd::utf8::{decode_utf8, valid_utf8};

verus! {

/// What `String::from_utf8_lossy` makes of a byte sequence that is not valid
/// UTF-8: the text with a replacement character for each invalid part.
pub uninterp spec fn utf8_lossy(bytes: Seq<u8>) -> Seq<char>;

/// The text that a byte sequence stands for: its characters where it is valid
/// UTF-8, and the lossy reading otherwise.
pub open spec fn decoded(bytes: Seq<u8>) -> Seq<char> {
    if valid_utf8(bytes) {
        decode_utf8(bytes)
    } else {
        utf8_lossy(bytes)
    }
}

/// Decodes bytes as UTF-8, replacing what is not valid.
///
/// Calls `String::from_utf8_lossy`. Trusted: valid input is decoded as it
/// stands, as the function's documentation says; of invalid input the contract
/// only names the result.
#[verifier::external_body]
pub(crate) fn lossy_text(bytes: &[u8]) -> (s: String)
    ensures
        s@ == decoded(bytes@),
        !valid_utf8(bytes@) ==> s@ == utf8_lossy(bytes@),
{
    String::from_utf8_lossy(bytes).into_owned()
}

/// The Unicode white space characters.
pub open spec fn is_space(c: char) -> bool {
    let n = c as u32;
    ||| 0x09 <= n <= 0x0d
    ||| n == 0x20
    ||| n == 0x85
    ||| n == 0xa0
    ||| n == 0x1680
    ||| 0x2000 <= n <= 0x200a
    ||| n == 0x2028
    ||| n == 0x2029
    ||| n == 0x202f
    ||| n == 0x205f
    ||| n == 0x3000
}

/// Padding at the end of a text field: NUL or white space.
pub open spec fn is_padding(c: char) -> bool {
    c == '\0' || is_space(c)
}

/// The length of `s` without its trailing padding.
pub open spec fn trimmed_len(s: Seq<char>) -> nat
    decreases s.len(),
{
    if s.len() > 0 && is_padding(s.last()) {
        trimmed_len(s.drop_last())
    } else {
        s.len()
    }
}

/// `s` without its trailing padding.
pub open spec fn trim_end(s: Seq<char>) -> Seq<char> {
    s.subrange(0, trimmed_len(s) as int)
}

/// Trimming takes nothing but a tail off.
pub proof fn lemma_trimmed_len_bound(s: Seq<char>)
    ensures
        trimmed_len(s) <= s.len(),
    decreases s.len(),
{
    if s.len() > 0 && is_padding(s.last()) {
        lemma_trimmed_len_bound(s.drop_last());
    }
}

/// Tells whether `c` is white space.
pub fn space_char(c: char) -> (b: bool)
    ensures
        b == is_space(c),
{
    let n: u32 = c as u32;
    (0x09 <= n && n <= 0x0d) || n == 0x20 || n == 0x85 || n == 0xa0 || n == 0x1680 || (0x2000
        <= n && n <= 0x200a) || n == 0x2028 || n == 0x2029 || n == 0x202f || n == 0x205f || n
        == 0x3000
}

/// Tells whether `c` is padding.
pub fn padding_char(c: char) -> (b: bool)
    ensures
        b == is_padding(c),
{
    c == '\0' || space_char(c)
}

/// The number of white space characters that `s` begins with.
pub open spec fn leading_spaces(s: Seq<char>) -> nat
    decreases s.len(),
{
    if s.len() > 0 && is_space(s[0]) {
        1 + leading_spaces(s.drop_first())
    } else {
        0
    }
}

/// The number of white space characters that `s` ends with.
pub open spec fn trailing_spaces(s: Seq<char>) -> nat
    decreases s.len(),
{
    if s.len() > 0 && is_space(s.last()) {
        1 + trailing_spaces(s.drop_last())
    } else {
        0
    }
}

/// `s` without the white space at its two ends.
pub open spec fn trimmed(s: Seq<char>) -> Seq<char> {
    let rest = s.subrange(leading_spaces(s) as int, s.len() as int);
    rest.subrange(0, rest.len() - trailing_spaces(rest))
}

/// Cuts the white space off the two ends of `s`.
pub fn trim(s: &str) -> (t: &str)
    ensures
        t@ == trimmed(s@),
{
    let n: usize = s.unicode_len();
    let mut a: usize = 0;
    assert(s@.subrange(0, n as int) == s@);
    while a < n && space_char(s.get_char(a))
        invariant
            a <= n == s@.len(),
            leading_spaces(s@) == a + leading_spaces(s@.subrange(a as int, n as int)),
        decreases n - a,
    {
        assert(s@.subrange(a as int, n as int).drop_first() == s@.subrange(a + 1, n as int));
        a = a + 1;
    }
    let ghost rest = s@.subrange(a as int, n as int);
    assert(leading_spaces(rest) == 0);
    let mut b: usize = n;
    assert(rest.subrange(0, b - a) == rest);
    while b > a && space_char(s.get_char(b - 1))
        invariant
            a <= b <= n == s@.len(),
            rest == s@.subrange(a as int, n as int),
            trailing_spaces(rest) == (n - b) + trailing_spaces(rest.subrange(0, b - a)),
        decreases b,
    {
        assert(rest.subrange(0, b - a).drop_last() == rest.subrange(0, b - a - 1));
        b = b - 1;
    }
    assert(trailing_spaces(rest.subrange(0, b - a)) == 0);
    assert(s@.subrange(a as int, b as int) =~= rest.subrange(0, rest.len() - trailing_spaces(rest)));
    s.substring_char(a, b)
}

/// A letter of ASCII in lower case; any other character as it is.
pub open spec fn ascii_lower(c: char) -> char {
    if 'A' <= c <= 'Z' {
        ((c as u32) + 32) as char
    } else {
        c
    }
}

/// `s` with its ASCII letters in lower case.
pub open spec fn lowered(s: Seq<char>) -> Seq<char> {
    s.map_values(|c: char| ascii_lower(c))
}

/// A copy of `s` with its ASCII letters in lower case.
///
/// Calls `str::to_ascii_lowercase`. Trusted: the letters `A` to `Z` become
/// `a` to `z` and every other character stays, as its documentation says.
#[verifier::external_body]
pub(crate) fn lower(s: &str) -> (t: String)
    ensures
        t@ == lowered(s@),
{
    s.to_ascii_lowercase()
}

/// Tells whether two texts are the same.
pub fn same_text(a: &str, b: &str) -> (same: bool)
    ensures
        same == (a@ == b@),
{
    let n: usize = a.unicode_len();
    if n != b.unicode_len() {
        return false;
    }
    let mut i: usize = 0;
    while i < n
        invariant
            i <= n,
            n == a@.len() == b@.len(),
            forall|j: int| 0 <= j < i ==> a@[j] == b@[j],
        decreases n - i,
    {
        if a.get_char(i) != b.get_char(i) {
            return false;
        }
        i += 1;
    }
    assert(a@ =~= b@);
    true
}

/// Cuts the trailing padding off `s`.
pub fn trim_padding(s: &str) -> (t: String)
    ensures
        t@ == trim_end(s@),
{
    let mut n: usize = s.unicode_len();
    assert(s@.subrange(0, n as int) == s@);
    while n > 0 && padding_char(s.get_char(n - 1))
        invariant
            n <= s@.len(),
            trimmed_len(s@) == trimmed_len(s@.subrange(0, n as int)),
        decreases n,
    {
        proof {
            assert(s@.subrange(0, n as int).drop_last() == s@.subrange(0, n as int - 1));
        }
        n = n - 1;
    }
    s.substring_char(0, n).to_owned()
}

} // verus!
