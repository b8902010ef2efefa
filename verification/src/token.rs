//! A token is one unit of a pre-tokenized string sequence, carrying an
//! ownership tag: it either still holds the caller-supplied value, or an
//! owned replacement that some transform produced.
use crate::chars::{chars_of, string_of};
use vstd::prelude::*;

verus! {

/// The mathematical model of a token: its text as a sequence of characters,
/// and whether a transform has replaced the original value.
pub struct TokenModel {
    pub text: Seq<char>,
    pub owned: bool,
}

/// One token of a sequence. `owned` is false as long as the token holds the
/// value the caller supplied, and becomes true exactly when a transform
/// replaces that value with a different one (the allocation-avoidance
/// invariant: a transform whose output equals its input never replaces).
pub struct Token {
    chars: Vec<char>,
    owned: bool,
}

impl View for Token {
    type V = TokenModel;

    closed spec fn view(&self) -> TokenModel {
        TokenModel { text: self.chars@, owned: self.owned }
    }
}

impl Token {
    /// A fresh token holding the caller's value.
    pub fn new(s: &str) -> (t: Token)
        ensures
            t@.text == s@,
            !t@.owned,
    {
        Token { chars: chars_of(s), owned: false }
    }

    /// The token's text.
    pub fn text(&self) -> (r: String)
        ensures
            r@ == self@.text,
    {
        string_of(&self.chars)
    }

    /// Whether a transform has replaced the caller's value.
    pub fn is_owned(&self) -> (r: bool)
        ensures
            r == self@.owned,
    {
        self.owned
    }

    /// The token's length in characters.
    pub fn len(&self) -> (n: usize)
        ensures
            n == self@.text.len(),
    {
        self.chars.len()
    }

    /// The character at position `i`.
    pub fn char_at(&self, i: usize) -> (c: char)
        requires
            i < self@.text.len(),
        ensures
            c == self@.text[i as int],
    {
        self.chars[i]
    }

    /// The token's characters.
    pub(crate) fn chars_ref(&self) -> (r: &Vec<char>)
        ensures
            r@ == self@.text,
    {
        &self.chars
    }

    /// Replace the token's value with a transform's output, marking it owned.
    pub(crate) fn replace(&mut self, cs: Vec<char>)
        ensures
            final(self)@.text == cs@,
            final(self)@.owned,
    {
        self.chars = cs;
        self.owned = true;
    }
}

/// The models of a sequence of tokens, in order.
pub open spec fn models(ts: Seq<Token>) -> Seq<TokenModel> {
    ts.map_values(|t: Token| t@)
}

/// The texts of a sequence of token models, in order.
pub open spec fn texts(ts: Seq<TokenModel>) -> Seq<Seq<char>> {
    ts.map_values(|t: TokenModel| t.text)
}

} // verus!
