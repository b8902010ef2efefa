//! Character classes used by the token transforms, together with the
//! conversions between `str`/`String` and `Vec<char>` that the rest of the
//! crate works on.
use vstd::prelude::*;
use vstd::std_specs::iter::IteratorSpec;

verus! {

broadcast use vstd::string::group_string_axioms;

/// An ASCII character: code point below 128.
pub open spec fn is_ascii_char(c: char) -> bool {
    (c as u32) < 128
}

/// An ASCII decimal digit, `0` through `9`.
pub open spec fn is_digit_char(c: char) -> bool {
    48 <= (c as u32) && (c as u32) <= 57
}

/// An ASCII punctuation mark, as `char::is_ascii_punctuation` defines them:
/// `!..=/`, `:..=@`, `[..=`` ` ``, `{..=~`.
pub open spec fn is_punct_char(c: char) -> bool {
    ||| 33 <= (c as u32) && (c as u32) <= 47
    ||| 58 <= (c as u32) && (c as u32) <= 64
    ||| 91 <= (c as u32) && (c as u32) <= 96
    ||| 123 <= (c as u32) && (c as u32) <= 126
}

/// An ASCII whitespace character: space, tab, newline, form feed or
/// carriage return.
pub open spec fn is_space_char(c: char) -> bool {
    ||| (c as u32) == 32
    ||| (c as u32) == 9
    ||| (c as u32) == 10
    ||| (c as u32) == 12
    ||| (c as u32) == 13
}

/// An ASCII uppercase letter, `A` through `Z`.
pub open spec fn is_upper_char(c: char) -> bool {
    65 <= (c as u32) && (c as u32) <= 90
}

/// A strong punctuation mark, one that ends a main title: `.`, `:`, `?`, `!`.
pub open spec fn is_strong_punct_char(c: char) -> bool {
    c == '.' || c == ':' || c == '?' || c == '!'
}

/// The ASCII lowercase form of a character: uppercase letters move down by
/// 32 code points, everything else is unchanged.
pub open spec fn to_lower_char(c: char) -> char {
    if is_upper_char(c) {
        (((c as u32) + 32) as u8) as char
    } else {
        c
    }
}

pub fn char_is_ascii(c: char) -> (r: bool)
    ensures
        r == is_ascii_char(c),
{
    (c as u32) < 128
}

pub fn char_is_digit(c: char) -> (r: bool)
    ensures
        r == is_digit_char(c),
{
    let u = c as u32;
    48 <= u && u <= 57
}

pub fn char_is_punct(c: char) -> (r: bool)
    ensures
        r == is_punct_char(c),
{
    let u = c as u32;
    (33 <= u && u <= 47) || (58 <= u && u <= 64) || (91 <= u && u <= 96) || (123 <= u && u <= 126)
}

pub fn char_is_space(c: char) -> (r: bool)
    ensures
        r == is_space_char(c),
{
    let u = c as u32;
    u == 32 || u == 9 || u == 10 || u == 12 || u == 13
}

pub fn char_is_upper(c: char) -> (r: bool)
    ensures
        r == is_upper_char(c),
{
    let u = c as u32;
    65 <= u && u <= 90
}

pub fn char_is_strong_punct(c: char) -> (r: bool)
    ensures
        r == is_strong_punct_char(c),
{
    c == '.' || c == ':' || c == '?' || c == '!'
}

pub fn char_to_lower(c: char) -> (r: char)
    ensures
        r == to_lower_char(c),
{
    let u = c as u32;
    if 65 <= u && u <= 90 {
        ((u + 32) as u8) as char
    } else {
        c
    }
}

/// Lowercasing changes a character exactly when it is an ASCII uppercase
/// letter.
pub proof fn lemma_to_lower_changes(c: char)
    ensures
        to_lower_char(c) == c <==> !is_upper_char(c),
{
    if is_upper_char(c) {
        assert((to_lower_char(c) as u32) != (c as u32));
    }
}

/// The characters of a string slice, in order, as a vector.
pub fn chars_of(s: &str) -> (r: Vec<char>)
    ensures
        r@ == s@,
{
    let n = s.unicode_len();
    let mut r: Vec<char> = Vec::new();
    let mut i: usize = 0;
    while i < n
        invariant
            n == s@.len(),
            i <= n,
            r@ == s@.take(i as int),
        decreases n - i,
    {
        r.push(s.get_char(i));
        i = i + 1;
        proof {
            assert(r@ =~= s@.take(i as int));
        }
    }
    proof {
        assert(r@ =~= s@);
    }
    r
}

/// Whether two character vectors hold the same characters.
pub fn chars_eq(a: &Vec<char>, b: &Vec<char>) -> (r: bool)
    ensures
        r == (a@ == b@),
{
    if a.len() != b.len() {
        return false;
    }
    let n = a.len();
    let mut i: usize = 0;
    while i < n
        invariant
            n == a@.len() == b@.len(),
            i <= n,
            forall|j: int| 0 <= j < i ==> a@[j] == b@[j],
        decreases n - i,
    {
        if a[i] != b[i] {
            return false;
        }
        i = i + 1;
    }
    proof {
        assert(a@ =~= b@);
    }
    true
}

/// Relies on `String`'s `FromIterator` impl: collecting characters yields the
/// string made of exactly those characters, in order.
#[verifier::external_body]
pub(crate) fn string_of(cs: &Vec<char>) -> (r: String)
    ensures
        r@ == cs@,
{
    cs.iter().collect()
}

} // verus!
