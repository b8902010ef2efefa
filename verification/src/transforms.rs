//! Per-token transforms: lowercase fold, digit/punctuation strip, non-ASCII
//! strip, and whitespace trim.
//!
//! Each transform either leaves its token untouched or replaces it with an
//! owned value, exactly when the output differs from the input (the
//! allocation-avoidance invariant, stated as the `owned` clause of each
//! contract).
use crate::chars::{
    char_is_ascii, char_is_digit, char_is_punct, char_is_space, char_is_upper, char_to_lower,
    is_ascii_char, is_digit_char, is_punct_char, is_space_char, is_upper_char,
    lemma_to_lower_changes, to_lower_char,
};
use crate::subseq::{kept, kept_from, lemma_kept_from_all, lemma_kept_from_drop};
use crate::token::{Token, TokenModel};
use vstd::prelude::*;

verus! {

// ---------------------------------------------------------------------------
// Lowercase fold
// ---------------------------------------------------------------------------
/// `s` with every ASCII uppercase letter folded to lowercase.
pub open spec fn lower_seq(s: Seq<char>) -> Seq<char> {
    s.map_values(|c: char| to_lower_char(c))
}

/// Whether `s` holds any ASCII uppercase letter.
pub open spec fn has_upper(s: Seq<char>) -> bool {
    exists|i: int| 0 <= i < s.len() && is_upper_char(#[trigger] s[i])
}

/// What the lowercase fold makes of a token: folded and owned when some
/// letter was uppercase, untouched otherwise.
pub open spec fn lower_tok(t: TokenModel) -> TokenModel {
    if has_upper(t.text) {
        TokenModel { text: lower_seq(t.text), owned: true }
    } else {
        t
    }
}

/// The lowercase fold changes a string exactly when it holds an uppercase
/// letter.
pub proof fn lemma_lower_seq_changes(s: Seq<char>)
    ensures
        lower_seq(s) == s <==> !has_upper(s),
{
    if !has_upper(s) {
        assert forall|i: int| 0 <= i < s.len() implies lower_seq(s)[i] == s[i] by {
            lemma_to_lower_changes(s[i]);
        }
        assert(lower_seq(s) =~= s);
    } else {
        let i = choose|i: int| 0 <= i < s.len() && is_upper_char(#[trigger] s[i]);
        lemma_to_lower_changes(s[i]);
        assert(lower_seq(s)[i] != s[i]);
    }
}

/// Fold the token's ASCII uppercase letters to lowercase, if it has any.
pub fn token_to_lowercase(token: &mut Token)
    ensures
        final(token)@ == lower_tok(old(token)@),
        final(token)@.owned == (old(token)@.owned || final(token)@.text != old(token)@.text),
{
    let ghost s = token@.text;
    let n = token.len();
    let mut any_upper = false;
    let mut i: usize = 0;
    while i < n
        invariant
            *token == *old(token),
            s == token@.text,
            n == s.len(),
            i <= n,
            any_upper == exists|j: int| 0 <= j < i && is_upper_char(#[trigger] s[j]),
        decreases n - i,
    {
        if char_is_upper(token.char_at(i)) {
            any_upper = true;
        }
        i = i + 1;
    }
    assert(any_upper == has_upper(s));
    if any_upper {
        let mut out: Vec<char> = Vec::new();
        let mut i: usize = 0;
        while i < n
            invariant
                *token == *old(token),
                s == token@.text,
                n == s.len(),
                i <= n,
                out@.len() == i,
                forall|j: int| 0 <= j < i ==> out@[j] == to_lower_char(#[trigger] s[j]),
            decreases n - i,
        {
            out.push(char_to_lower(token.char_at(i)));
            i = i + 1;
        }
        assert(out@ =~= lower_seq(s));
        token.replace(out);
        proof {
            lemma_lower_seq_changes(s);
        }
    } else {
        proof {
            lemma_lower_seq_changes(s);
        }
    }
}

// ---------------------------------------------------------------------------
// Character strips: digits, punctuation, both, non-ASCII
// ---------------------------------------------------------------------------
/// Which class of characters a strip removes.
#[derive(Clone, Copy)]
pub enum StripClass {
    /// ASCII digits.
    Digits,
    /// ASCII punctuation, sparing an interior hyphen.
    Puncts,
    /// ASCII digits and punctuation, sparing an interior hyphen.
    DigitsPuncts,
    /// Everything outside ASCII.
    NonAscii,
}

/// Whether `c` belongs to the class that `cls` removes.
pub open spec fn strip_member(cls: StripClass, c: char) -> bool {
    match cls {
        StripClass::Digits => is_digit_char(c),
        StripClass::Puncts => is_punct_char(c),
        StripClass::DigitsPuncts => is_digit_char(c) || is_punct_char(c),
        StripClass::NonAscii => !is_ascii_char(c),
    }
}

/// Whether position `i` of `s` survives the strip: its character is outside
/// the removed class, or is a hyphen strictly between two other characters
/// (which joins compound words and is spared).
pub open spec fn strip_keep(cls: StripClass, s: Seq<char>, i: int) -> bool {
    !strip_member(cls, s[i]) || (s[i] == '-' && 0 < i && i < s.len() - 1)
}

/// `strip_keep` as a position predicate for `kept`.
pub open spec fn strip_keep_f(cls: StripClass) -> spec_fn(Seq<char>, int) -> bool {
    |s: Seq<char>, i: int| strip_keep(cls, s, i)
}

/// `s` with the removed class stripped out.
pub open spec fn stripped(cls: StripClass, s: Seq<char>) -> Seq<char> {
    kept(s, strip_keep_f(cls))
}

/// Whether the strip drops any position of `s`.
pub open spec fn strip_trigger(cls: StripClass, s: Seq<char>) -> bool {
    exists|i: int| 0 <= i < s.len() && !(#[trigger] strip_keep(cls, s, i))
}

/// What the strip makes of a token: stripped and owned when some character
/// is dropped, untouched otherwise.
pub open spec fn strip_tok(cls: StripClass, t: TokenModel) -> TokenModel {
    if strip_trigger(cls, t.text) {
        TokenModel { text: stripped(cls, t.text), owned: true }
    } else {
        t
    }
}

/// A strip changes a string exactly when some position is dropped.
pub proof fn lemma_stripped_changes(cls: StripClass, s: Seq<char>)
    ensures
        stripped(cls, s) == s <==> !strip_trigger(cls, s),
{
    if !strip_trigger(cls, s) {
        assert forall|j: int| 0 <= j < s.len() implies #[trigger] strip_keep_f(cls)(s, j) by {
            assert(strip_keep(cls, s, j));
        }
        lemma_kept_from_all(s, strip_keep_f(cls), 0);
        assert(s.subrange(0, s.len() as int) =~= s);
    } else {
        let j = choose|i: int| 0 <= i < s.len() && !(#[trigger] strip_keep(cls, s, i));
        assert(!strip_keep_f(cls)(s, j));
        lemma_kept_from_drop(s, strip_keep_f(cls), 0, j);
    }
}

fn strip_member_exec(cls: StripClass, c: char) -> (r: bool)
    ensures
        r == strip_member(cls, c),
{
    match cls {
        StripClass::Digits => char_is_digit(c),
        StripClass::Puncts => char_is_punct(c),
        StripClass::DigitsPuncts => char_is_digit(c) || char_is_punct(c),
        StripClass::NonAscii => !char_is_ascii(c),
    }
}

/// Strip the characters of class `cls` out of the token, if it has any to
/// drop.
pub(crate) fn strip_token(token: &mut Token, cls: StripClass)
    ensures
        final(token)@ == strip_tok(cls, old(token)@),
        final(token)@.owned == (old(token)@.owned || final(token)@.text != old(token)@.text),
{
    let ghost s = token@.text;
    let n = token.len();
    let mut drop_found = false;
    let mut i: usize = 0;
    while i < n
        invariant
            *token == *old(token),
            s == token@.text,
            n == s.len(),
            i <= n,
            drop_found == exists|j: int| 0 <= j < i && !(#[trigger] strip_keep(cls, s, j)),
        decreases n - i,
    {
        let c = token.char_at(i);
        let keep_it = !strip_member_exec(cls, c) || (c == '-' && i > 0 && i + 1 < n);
        proof {
            assert(keep_it == strip_keep(cls, s, i as int));
        }
        if !keep_it {
            drop_found = true;
        }
        i = i + 1;
    }
    assert(drop_found == strip_trigger(cls, s));
    proof {
        lemma_stripped_changes(cls, s);
    }
    if drop_found {
        let ghost f = strip_keep_f(cls);
        let mut out: Vec<char> = Vec::new();
        let mut i: usize = 0;
        while i < n
            invariant
                *token == *old(token),
                s == token@.text,
                n == s.len(),
                i <= n,
                stripped(cls, s) == out@ + kept_from(s, f, i as int),
                f == strip_keep_f(cls),
            decreases n - i,
        {
            let c = token.char_at(i);
            let keep_it = !strip_member_exec(cls, c) || (c == '-' && i > 0 && i + 1 < n);
            proof {
                assert(f(s, i as int) == strip_keep(cls, s, i as int));
                assert(keep_it == f(s, i as int));
            }
            if keep_it {
                let ghost out0 = out@;
                out.push(c);
                proof {
                    assert(kept_from(s, f, i as int) =~= seq![s[i as int]] + kept_from(
                        s,
                        f,
                        i + 1 as int,
                    ));
                    assert(out0 + kept_from(s, f, i as int) =~= out@ + kept_from(
                        s,
                        f,
                        i + 1 as int,
                    ));
                }
            }
            i = i + 1;
        }
        proof {
            assert(stripped(cls, s) =~= out@);
        }
        token.replace(out);
    }
}

/// Remove every ASCII digit of the token.
pub fn remove_token_digit(token: &mut Token)
    ensures
        final(token)@ == strip_tok(StripClass::Digits, old(token)@),
        final(token)@.owned == (old(token)@.owned || final(token)@.text != old(token)@.text),
{
    strip_token(token, StripClass::Digits);
}

/// Remove every ASCII punctuation mark of the token, except a hyphen that
/// stands strictly between two other characters.
pub fn remove_token_punctuation(token: &mut Token)
    ensures
        final(token)@ == strip_tok(StripClass::Puncts, old(token)@),
        final(token)@.owned == (old(token)@.owned || final(token)@.text != old(token)@.text),
{
    strip_token(token, StripClass::Puncts);
}

/// Remove every ASCII digit and punctuation mark of the token, except a
/// hyphen that stands strictly between two other characters.
pub fn remove_token_digit_and_punctuation(token: &mut Token)
    ensures
        final(token)@ == strip_tok(StripClass::DigitsPuncts, old(token)@),
        final(token)@.owned == (old(token)@.owned || final(token)@.text != old(token)@.text),
{
    strip_token(token, StripClass::DigitsPuncts);
}

/// Remove every non-ASCII character of the token.
pub fn remove_token_non_ascii_chars(token: &mut Token)
    ensures
        final(token)@ == strip_tok(StripClass::NonAscii, old(token)@),
        final(token)@.owned == (old(token)@.owned || final(token)@.text != old(token)@.text),
{
    strip_token(token, StripClass::NonAscii);
}

// ---------------------------------------------------------------------------
// Trim
// ---------------------------------------------------------------------------
/// The first position at or after `i` holding a non-whitespace character, or
/// the length of `s`.
pub open spec fn first_non_space(s: Seq<char>, i: int) -> int
    decreases s.len() - i,
{
    if i < 0 || i >= s.len() {
        s.len() as int
    } else if !is_space_char(s[i]) {
        i
    } else {
        first_non_space(s, i + 1)
    }
}

/// The end (exclusive) of the last non-whitespace character strictly before
/// `i`, or 0.
pub open spec fn last_non_space_end(s: Seq<char>, i: int) -> int
    decreases i,
{
    if i <= 0 || i > s.len() {
        0
    } else if !is_space_char(s[i - 1]) {
        i
    } else {
        last_non_space_end(s, i - 1)
    }
}

/// `s` without its leading and trailing ASCII whitespace.
pub open spec fn trim_spec(s: Seq<char>) -> Seq<char> {
    let a = first_non_space(s, 0);
    let b = last_non_space_end(s, s.len() as int);
    if a < b {
        s.subrange(a, b)
    } else {
        Seq::empty()
    }
}

/// Whether `s` has boundary ASCII whitespace to remove.
pub open spec fn trim_trigger(s: Seq<char>) -> bool {
    s.len() > 0 && (is_space_char(s[0]) || is_space_char(s[s.len() - 1]))
}

/// What the trim makes of a token: trimmed and owned when boundary
/// whitespace was present, untouched otherwise.
pub open spec fn trim_tok(t: TokenModel) -> TokenModel {
    if trim_trigger(t.text) {
        TokenModel { text: trim_spec(t.text), owned: true }
    } else {
        t
    }
}

pub proof fn lemma_first_non_space_bounds(s: Seq<char>, i: int)
    requires
        0 <= i <= s.len(),
    ensures
        i <= first_non_space(s, i) <= s.len(),
        first_non_space(s, i) < s.len() ==> !is_space_char(s[first_non_space(s, i)]),
        forall|j: int| i <= j < first_non_space(s, i) ==> is_space_char(#[trigger] s[j]),
    decreases s.len() - i,
{
    if i < s.len() && is_space_char(s[i]) {
        lemma_first_non_space_bounds(s, i + 1);
    }
}

pub proof fn lemma_last_non_space_bounds(s: Seq<char>, i: int)
    requires
        0 <= i <= s.len(),
    ensures
        0 <= last_non_space_end(s, i) <= i,
        last_non_space_end(s, i) > 0 ==> !is_space_char(s[last_non_space_end(s, i) - 1]),
        forall|j: int| last_non_space_end(s, i) <= j < i ==> is_space_char(#[trigger] s[j]),
    decreases i,
{
    if i > 0 && is_space_char(s[i - 1]) {
        lemma_last_non_space_bounds(s, i - 1);
    }
}

/// Trimming changes a string exactly when it has boundary whitespace.
pub proof fn lemma_trim_changes(s: Seq<char>)
    ensures
        trim_spec(s) == s <==> !trim_trigger(s),
        trim_spec(s).len() <= s.len(),
{
    lemma_first_non_space_bounds(s, 0);
    lemma_last_non_space_bounds(s, s.len() as int);
    let a = first_non_space(s, 0);
    let b = last_non_space_end(s, s.len() as int);
    if !trim_trigger(s) {
        if s.len() == 0 {
            assert(trim_spec(s) =~= s);
        } else {
            assert(a == 0);
            assert(b == s.len() as int);
            assert(trim_spec(s) =~= s);
        }
    } else {
        if is_space_char(s[0]) {
            assert(a >= 1);
        } else {
            assert(b <= s.len() - 1);
        }
        assert(trim_spec(s).len() < s.len());
    }
}

/// A trimmed string has no boundary whitespace left: trimming is a fixed
/// point after one pass.
pub proof fn lemma_trim_fixed(s: Seq<char>)
    ensures
        !trim_trigger(trim_spec(s)),
{
    lemma_first_non_space_bounds(s, 0);
    lemma_last_non_space_bounds(s, s.len() as int);
}

/// Remove the token's leading and trailing ASCII whitespace, if any is
/// present.
pub fn token_trim(token: &mut Token)
    ensures
        final(token)@ == trim_tok(old(token)@),
        final(token)@.owned == (old(token)@.owned || final(token)@.text != old(token)@.text),
{
    let ghost s = token@.text;
    let n = token.len();
    proof {
        lemma_trim_changes(s);
    }
    if n == 0 {
        return ;
    }
    if !char_is_space(token.char_at(0)) && !char_is_space(token.char_at(n - 1)) {
        return ;
    }
    let mut a: usize = 0;
    while a < n && char_is_space(token.char_at(a))
        invariant
            *token == *old(token),
            s == token@.text,
            n == s.len(),
            a <= n,
            first_non_space(s, 0) == first_non_space(s, a as int),
        decreases n - a,
    {
        a = a + 1;
    }
    assert(first_non_space(s, 0) == a as int);
    let mut b: usize = n;
    while b > 0 && char_is_space(token.char_at(b - 1))
        invariant
            *token == *old(token),
            s == token@.text,
            n == s.len(),
            b <= n,
            last_non_space_end(s, n as int) == last_non_space_end(s, b as int),
        decreases b,
    {
        b = b - 1;
    }
    assert(last_non_space_end(s, n as int) == b as int);
    let mut out: Vec<char> = Vec::new();
    if a < b {
        let mut i: usize = a;
        while i < b
            invariant
                *token == *old(token),
                s == token@.text,
                n == s.len(),
                a <= i <= b <= n,
                out@ == s.subrange(a as int, i as int),
            decreases b - i,
        {
            out.push(token.char_at(i));
            i = i + 1;
            proof {
                assert(out@ =~= s.subrange(a as int, i as int));
            }
        }
    }
    proof {
        assert(out@ =~= trim_spec(s));
    }
    token.replace(out);
}

} // verus!
