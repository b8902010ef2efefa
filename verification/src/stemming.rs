//! Linguistic stemming of cleaned tokens, done by the `rust-stemmers` crate.
use crate::chars::chars_eq;
use crate::token::{Token, TokenModel};
use vstd::prelude::*;

verus! {

/// The closed set of supported stemming languages. Selecting a language
/// outside this set is impossible by construction.
#[derive(Clone, Copy, Debug)]
pub enum StemAlgorithm {
    English,
    French,
    German,
    Italian,
    Portuguese,
    Spanish,
}

impl StemAlgorithm {
    /// A distinct number for each language, used to index the stemming
    /// function.
    pub open spec fn id(self) -> int {
        match self {
            StemAlgorithm::English => 0,
            StemAlgorithm::French => 1,
            StemAlgorithm::German => 2,
            StemAlgorithm::Italian => 3,
            StemAlgorithm::Portuguese => 4,
            StemAlgorithm::Spanish => 5,
        }
    }
}

/// The stem of the word `s` under the algorithm numbered `alg`, as the
/// `rust-stemmers` crate computes it.
pub uninterp spec fn stemmed(alg: int, s: Seq<char>) -> Seq<char>;

/// Relies on `rust_stemmers::Stemmer`: `create` selects a snowball routine
/// by algorithm, and `stem` computes a function of the algorithm and the
/// word's characters alone.
#[verifier::external_body]
fn stem_chars(alg: StemAlgorithm, cs: &Vec<char>) -> (r: Vec<char>)
    ensures
        r@ == stemmed(alg.id(), cs@),
{
    let a = match alg {
        StemAlgorithm::English => rust_stemmers::Algorithm::English,
        StemAlgorithm::French => rust_stemmers::Algorithm::French,
        StemAlgorithm::German => rust_stemmers::Algorithm::German,
        StemAlgorithm::Italian => rust_stemmers::Algorithm::Italian,
        StemAlgorithm::Portuguese => rust_stemmers::Algorithm::Portuguese,
        StemAlgorithm::Spanish => rust_stemmers::Algorithm::Spanish,
    };
    let s: String = cs.iter().collect();
    rust_stemmers::Stemmer::create(a).stem(&s).chars().collect()
}

/// What the stemming pass makes of a token: its stem, owned, when the stem
/// differs from the token; untouched otherwise.
pub open spec fn stem_tok(alg: int, t: TokenModel) -> TokenModel {
    if stemmed(alg, t.text) != t.text {
        TokenModel { text: stemmed(alg, t.text), owned: true }
    } else {
        t
    }
}

/// What the stemming pass makes of a whole sequence.
pub open spec fn stem_seq(alg: int, ts: Seq<TokenModel>) -> Seq<TokenModel> {
    ts.map_values(|t: TokenModel| stem_tok(alg, t))
}

/// Replace the token by its stem under `alg`, if the stem differs.
pub(crate) fn stem_token(token: &mut Token, alg: StemAlgorithm)
    ensures
        final(token)@ == stem_tok(alg.id(), old(token)@),
        final(token)@.owned == (old(token)@.owned || final(token)@.text != old(token)@.text),
{
    let out = stem_chars(alg, token.chars_ref());
    if !chars_eq(&out, token.chars_ref()) {
        token.replace(out);
    }
}

} // verus!
