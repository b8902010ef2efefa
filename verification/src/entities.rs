//! HTML entity decoding of tokens shaped like one encoded entity, done by
//! the `htmlescape` crate.
use crate::chars::chars_eq;
use crate::token::{Token, TokenModel};
use vstd::prelude::*;

verus! {

/// What decoding the HTML entities of `s` yields, as the `htmlescape` crate
/// computes it: the decoded string, or nothing when `s` is malformed.
pub uninterp spec fn entity_decoded(s: Seq<char>) -> Option<Seq<char>>;

/// Relies on `htmlescape::decode_html`: whether an entity-encoded string
/// decodes, and to what, is a function of its characters alone.
#[verifier::external_body]
fn decode_entities(cs: &Vec<char>) -> (r: Option<Vec<char>>)
    ensures
        r is Some <==> entity_decoded(cs@) is Some,
        r is Some ==> r.unwrap()@ == entity_decoded(cs@).unwrap(),
{
    let s: String = cs.iter().collect();
    match htmlescape::decode_html(&s) {
        Ok(d) => Some(d.chars().collect()),
        Err(_) => None,
    }
}

/// Whether `s` looks like one encoded entity: it starts with `&` and ends
/// with `;`.
pub open spec fn entity_trigger(s: Seq<char>) -> bool {
    s.len() > 0 && s[0] == '&' && s[s.len() - 1] == ';'
}

/// What the entity-decode pass makes of a token: decoded and owned when the
/// token looks like an entity, decodes, and the decoding differs; untouched
/// otherwise (a malformed entity is left alone).
pub open spec fn decode_tok(t: TokenModel) -> TokenModel {
    if entity_trigger(t.text) && entity_decoded(t.text) is Some && entity_decoded(
        t.text,
    ).unwrap() != t.text {
        TokenModel { text: entity_decoded(t.text).unwrap(), owned: true }
    } else {
        t
    }
}

/// `decode_tok` gated by the cleaner's entity-decoding capability: with the
/// capability off, the pass does not exist.
pub open spec fn decode_tok_opt(t: TokenModel, html: bool) -> TokenModel {
    if html {
        decode_tok(t)
    } else {
        t
    }
}

/// Replace an entity-shaped token by its decoded form, if it decodes and the
/// decoding differs; a malformed entity is left unchanged.
pub fn decode_token_html_entities(token: &mut Token)
    ensures
        final(token)@ == decode_tok(old(token)@),
        final(token)@.owned == (old(token)@.owned || final(token)@.text != old(token)@.text),
{
    let n = token.len();
    if n == 0 {
        return ;
    }
    if token.char_at(0) != '&' || token.char_at(n - 1) != ';' {
        return ;
    }
    match decode_entities(token.chars_ref()) {
        Some(d) => {
            if !chars_eq(&d, token.chars_ref()) {
                token.replace(d);
            }
        },
        None => {},
    }
}

} // verus!
