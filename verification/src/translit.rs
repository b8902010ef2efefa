//! ASCII transliteration of accented and other non-ASCII characters, done by
//! the `unidecode` crate.
use crate::chars::{chars_eq, is_ascii_char};
use crate::token::{Token, TokenModel};
use vstd::prelude::*;

verus! {

/// Whether `s` holds any non-ASCII character.
pub open spec fn has_non_ascii(s: Seq<char>) -> bool {
    exists|i: int| 0 <= i < s.len() && !is_ascii_char(#[trigger] s[i])
}

/// The ASCII transliteration of `s`, as the `unidecode` crate computes it.
pub uninterp spec fn transliterated(s: Seq<char>) -> Seq<char>;

/// Relies on `unidecode::unidecode`: the transliteration of a string is a
/// function of its characters alone.
#[verifier::external_body]
fn transliterate(cs: &Vec<char>) -> (r: Vec<char>)
    ensures
        r@ == transliterated(cs@),
{
    let s: String = cs.iter().collect();
    unidecode::unidecode(&s).chars().collect()
}

/// What the transliteration pass makes of a token: transliterated and owned
/// when it held a non-ASCII character and the transliteration differs,
/// untouched otherwise.
pub open spec fn unidecode_tok(t: TokenModel) -> TokenModel {
    if has_non_ascii(t.text) && transliterated(t.text) != t.text {
        TokenModel { text: transliterated(t.text), owned: true }
    } else {
        t
    }
}

/// Replace the token's accented characters by their ASCII transliteration,
/// if it holds any non-ASCII character.
pub fn unidecode_token(token: &mut Token)
    ensures
        final(token)@ == unidecode_tok(old(token)@),
        final(token)@.owned == (old(token)@.owned || final(token)@.text != old(token)@.text),
{
    let ghost s = token@.text;
    let n = token.len();
    let mut found = false;
    let mut i: usize = 0;
    while i < n
        invariant
            *token == *old(token),
            s == token@.text,
            n == s.len(),
            i <= n,
            found == exists|j: int| 0 <= j < i && !is_ascii_char(#[trigger] s[j]),
        decreases n - i,
    {
        if !crate::chars::char_is_ascii(token.char_at(i)) {
            found = true;
        }
        i = i + 1;
    }
    assert(found == has_non_ascii(s));
    if found {
        let out = transliterate(token.chars_ref());
        if !chars_eq(&out, token.chars_ref()) {
            token.replace(out);
        }
    }
}

} // verus!
