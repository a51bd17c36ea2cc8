//! Characters and strings: the character classes of the wasp grammar, and
//! the few conversions between `str`, `String` and `Vec<char>` it needs.
use vstd::prelude::*;

verus! {

/// Whether `c` has the Unicode `Alphabetic` property, as std's tables say.
pub uninterp spec fn unicode_alphabetic(c: char) -> bool;

/// Whether `c` is in one of Unicode's numeric general categories
/// (`Nd`, `Nl`, `No`), as std's tables say.
pub uninterp spec fn unicode_numeric(c: char) -> bool;

/// A Latin letter, `a` to `z` or `A` to `Z`.
pub open spec fn is_ascii_letter(c: char) -> bool {
    ('a' <= c <= 'z') || ('A' <= c <= 'Z')
}

/// A letter: among the ASCII characters exactly the Latin letters, beyond
/// them what std's Unicode tables call alphabetic.
pub open spec fn is_letter(c: char) -> bool {
    if c <= '\u{7f}' {
        is_ascii_letter(c)
    } else {
        unicode_alphabetic(c)
    }
}

/// A numeric character: among the ASCII characters exactly the digits,
/// beyond them what std's Unicode tables call numeric.
pub open spec fn is_numeral(c: char) -> bool {
    if c <= '\u{7f}' {
        '0' <= c <= '9'
    } else {
        unicode_numeric(c)
    }
}

/// Calls std's `char::is_alphabetic`; its result is named
/// `unicode_alphabetic(c)`, a property of `c` alone read from std's Unicode
/// tables. Of those tables only the ASCII part is restated: an ASCII
/// character is alphabetic exactly when it is a Latin letter.
#[verifier::external_body]
fn char_is_alphabetic(c: char) -> (r: bool)
    ensures
        r == unicode_alphabetic(c),
        c <= '\u{7f}' ==> (r <==> is_ascii_letter(c)),
{
    c.is_alphabetic()
}

/// Calls std's `char::is_numeric`; its result is named
/// `unicode_numeric(c)`, like `char_is_alphabetic`. Of std's tables only
/// the ASCII part is restated: an ASCII character is numeric exactly when
/// it is a digit `0` to `9` (category `Nd`).
#[verifier::external_body]
fn char_is_numeric(c: char) -> (r: bool)
    ensures
        r == unicode_numeric(c),
        c <= '\u{7f}' ==> (r <==> '0' <= c <= '9'),
{
    c.is_numeric()
}

pub open spec fn is_whitespace_spec(c: char) -> bool {
    c == ' ' || c == '\t' || c == '\r' || c == '\n'
}

pub open spec fn is_start_identifier_spec(c: char) -> bool {
    c == '_' || c == '$' || is_letter(c)
}

/// std documents `char::is_alphanumeric` as `is_alphabetic() || is_numeric()`.
pub open spec fn is_identifier_spec(c: char) -> bool {
    c == '_' || c == '!' || c == '-' || c == '$' || is_letter(c) || is_numeral(c)
}

pub open spec fn is_text_spec(c: char) -> bool {
    c != '"'
}

/// `char::is_digit(10)`: the ASCII digits.
pub open spec fn is_digit_spec(c: char) -> bool {
    '0' <= c && c <= '9'
}

pub open spec fn is_comment_spec(c: char) -> bool {
    c != '\r' && c != '\n'
}

/// A character that may begin an identifier: `_`, `$` or a letter; never
/// a digit.
pub fn is_start_identifier_char(c: char) -> (r: bool)
    ensures
        r == is_start_identifier_spec(c),
        c <= '\u{7f}' ==> (r <==> (c == '_' || c == '$' || is_ascii_letter(c))),
{
    c == '_' || c == '$' || char_is_alphabetic(c)
}

/// A character that may continue an identifier: `_ ! - $`, a letter or a
/// numeric character.
pub fn is_identifier_char(c: char) -> (r: bool)
    ensures
        r == is_identifier_spec(c),
        c <= '\u{7f}' ==> (r <==> (c == '_' || c == '!' || c == '-' || c == '$' || is_ascii_letter(c)
            || ('0' <= c <= '9'))),
{
    c == '_' || c == '!' || c == '-' || c == '$' || char_is_alphabetic(c) || char_is_numeric(c)
}

/// A character that may stand inside a text literal: anything but `"`.
pub fn is_text_char(c: char) -> (r: bool)
    ensures
        r == is_text_spec(c),
{
    c != '"'
}

/// A decimal digit.
pub fn is_digit(c: char) -> (r: bool)
    ensures
        r == is_digit_spec(c),
{
    '0' <= c && c <= '9'
}

/// A character that may stand inside a line comment: anything but a line
/// break.
pub fn is_comment_char(c: char) -> (r: bool)
    ensures
        r == is_comment_spec(c),
{
    c != '\r' && c != '\n'
}

/// The characters of `s`, in order.
pub fn chars_of(s: &str) -> (v: Vec<char>)
    ensures
        v@ == s@,
{
    let mut v: Vec<char> = Vec::new();
    for c in it: s.chars()
        invariant
            v@ == it.seq().take(it.index() as int),
    {
        v.push(c);
    }
    v
}

/// Collects characters into a `String` with std's `FromIterator<char>`.
#[verifier::external_body]
pub(crate) fn string_from_vec(v: Vec<char>) -> (s: String)
    ensures
        s@ == v@,
{
    v.into_iter().collect()
}

/// The `String` made of `s[from..to]`.
pub fn string_of_range(s: &Vec<char>, from: usize, to: usize) -> (r: String)
    requires
        from <= to <= s@.len(),
    ensures
        r@ == s@.subrange(from as int, to as int),
{
    let mut v: Vec<char> = Vec::new();
    let mut i = from;
    while i < to
        invariant
            from <= i <= to <= s@.len(),
            v@ == s@.subrange(from as int, i as int),
        decreases to - i,
    {
        v.push(s[i]);
        i = i + 1;
        assert(v@ =~= s@.subrange(from as int, i as int));
    }
    string_from_vec(v)
}

/// Whether the string `a` is the literal `b`.
pub fn str_is(a: &String, b: &str) -> (r: bool)
    ensures
        r == (a@ == b@),
{
    let x: &str = a.as_str();
    let n = x.unicode_len();
    let m = b.unicode_len();
    if n != m {
        return false;
    }
    let mut i: usize = 0;
    while i < n
        invariant
            n == x@.len(),
            n == b@.len(),
            x@ == a@,
            i <= n,
            forall|j: int| 0 <= j < i ==> x@[j] == b@[j],
        decreases n - i,
    {
        if x.get_char(i) != b.get_char(i) {
            return false;
        }
        i = i + 1;
    }
    assert(x@ =~= b@);
    true
}

} // verus!
