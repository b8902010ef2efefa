//! The three pipeline variants — text, title, author — and their uniform
//! construct / configure / clean / inspect interface.
use crate::entities::{decode_tok_opt, decode_token_html_entities};
use crate::sequence::{
    filter_short, purge_empty, remove_delims, remove_tokens_between_delimiters, retain_longer_than,
    tokens_split_at_strong_punctuation, truncate_subtitle,
};
use crate::stemming::{stem_seq, stem_token, StemAlgorithm};
use crate::token::{models, texts, Token, TokenModel};
use crate::transforms::{
    lower_tok, remove_token_digit_and_punctuation, remove_token_non_ascii_chars, strip_tok,
    token_to_lowercase, token_trim, trim_tok, StripClass,
};
use crate::translit::{unidecode_tok, unidecode_token};
use vstd::prelude::*;

verus! {

// ---------------------------------------------------------------------------
// The per-token chains and the pipeline specifications
// ---------------------------------------------------------------------------
/// The per-token chain of the text and title variants: entity decode (when
/// enabled), lowercase fold, transliteration, non-ASCII strip,
/// digit/punctuation strip, trim.
pub open spec fn chain_text(t: TokenModel, html: bool) -> TokenModel {
    trim_tok(
        strip_tok(
            StripClass::DigitsPuncts,
            strip_tok(StripClass::NonAscii, unidecode_tok(lower_tok(decode_tok_opt(t, html)))),
        ),
    )
}

/// The per-token chain of the author variant: entity decode (when enabled),
/// lowercase fold, digit/punctuation strip, transliteration, non-ASCII
/// strip, trim. The strip runs before transliteration so raw accented
/// letters are not treated as punctuation.
pub open spec fn chain_author(t: TokenModel, html: bool) -> TokenModel {
    trim_tok(
        strip_tok(
            StripClass::NonAscii,
            unidecode_tok(strip_tok(StripClass::DigitsPuncts, lower_tok(decode_tok_opt(t, html)))),
        ),
    )
}

/// The text/title chain applied to every token.
pub open spec fn map_chain_text(ts: Seq<TokenModel>, html: bool) -> Seq<TokenModel> {
    ts.map_values(|t: TokenModel| chain_text(t, html))
}

/// The author chain applied to every token.
pub open spec fn map_chain_author(ts: Seq<TokenModel>, html: bool) -> Seq<TokenModel> {
    ts.map_values(|t: TokenModel| chain_author(t, html))
}

/// What the text variant's `clean()` makes of a sequence: minimum-length
/// filter, per-token chain, empty purge.
pub open spec fn clean_text_spec(ts: Seq<TokenModel>, k: int, html: bool) -> Seq<TokenModel> {
    purge_empty(map_chain_text(filter_short(ts, k), html))
}

/// What the title variant's `clean()` makes of a sequence: subtitle
/// truncation, parenthesized and bracketed span removal, minimum-length
/// filter, per-token chain, empty purge.
pub open spec fn clean_title_spec(ts: Seq<TokenModel>, k: int, html: bool) -> Seq<TokenModel> {
    purge_empty(
        map_chain_text(
            filter_short(
                remove_delims(
                    remove_delims(truncate_subtitle(ts), ("(")@, (")")@),
                    ("[")@,
                    ("]")@,
                ),
                k,
            ),
            html,
        ),
    )
}

/// What the author variant's `clean()` makes of a sequence: parenthesized
/// and bracketed span removal, per-token chain, empty purge (no
/// minimum-length filter).
pub open spec fn clean_author_spec(ts: Seq<TokenModel>, html: bool) -> Seq<TokenModel> {
    purge_empty(
        map_chain_author(
            remove_delims(remove_delims(ts, ("(")@, (")")@), ("[")@, ("]")@),
            html,
        ),
    )
}

/// The models of freshly constructed tokens: the caller's texts, none owned.
pub open spec fn fresh_models(ss: Seq<String>) -> Seq<TokenModel> {
    ss.map_values(|s: String| TokenModel { text: s@, owned: false })
}

// ---------------------------------------------------------------------------
// Shared executable pieces
// ---------------------------------------------------------------------------
fn chain_token_text(t: &mut Token, html: bool)
    ensures
        final(t)@ == chain_text(old(t)@, html),
{
    if html {
        decode_token_html_entities(t);
    }
    token_to_lowercase(t);
    unidecode_token(t);
    remove_token_non_ascii_chars(t);
    remove_token_digit_and_punctuation(t);
    token_trim(t);
}

fn chain_token_author(t: &mut Token, html: bool)
    ensures
        final(t)@ == chain_author(old(t)@, html),
{
    if html {
        decode_token_html_entities(t);
    }
    token_to_lowercase(t);
    remove_token_digit_and_punctuation(t);
    unidecode_token(t);
    remove_token_non_ascii_chars(t);
    token_trim(t);
}

fn apply_chain_text(tokens: &mut Vec<Token>, html: bool)
    ensures
        models(final(tokens)@) == map_chain_text(models(old(tokens)@), html),
{
    let ghost ts = models(old(tokens)@);
    let ghost n = ts.len() as int;
    let mut out: Vec<Token> = Vec::new();
    let ghost mut i: int = 0;
    while tokens.len() > 0
        invariant
            0 <= i <= n,
            i + tokens@.len() == n,
            n == ts.len(),
            forall|j: int| 0 <= j < tokens@.len() ==> (#[trigger] tokens@[j])@ == ts[i + j],
            out@.len() == i,
            forall|j: int| 0 <= j < i ==> (#[trigger] out@[j])@ == chain_text(ts[j], html),
        decreases tokens@.len(),
    {
        let mut t = tokens.remove(0);
        proof {
            assert(t@ == ts[i]);
        }
        chain_token_text(&mut t, html);
        out.push(t);
        proof {
            i = i + 1;
        }
    }
    proof {
        assert(models(out@) =~= map_chain_text(ts, html));
    }
    *tokens = out;
}

fn apply_chain_author(tokens: &mut Vec<Token>, html: bool)
    ensures
        models(final(tokens)@) == map_chain_author(models(old(tokens)@), html),
{
    let ghost ts = models(old(tokens)@);
    let ghost n = ts.len() as int;
    let mut out: Vec<Token> = Vec::new();
    let ghost mut i: int = 0;
    while tokens.len() > 0
        invariant
            0 <= i <= n,
            i + tokens@.len() == n,
            n == ts.len(),
            forall|j: int| 0 <= j < tokens@.len() ==> (#[trigger] tokens@[j])@ == ts[i + j],
            out@.len() == i,
            forall|j: int| 0 <= j < i ==> (#[trigger] out@[j])@ == chain_author(ts[j], html),
        decreases tokens@.len(),
    {
        let mut t = tokens.remove(0);
        proof {
            assert(t@ == ts[i]);
        }
        chain_token_author(&mut t, html);
        out.push(t);
        proof {
            i = i + 1;
        }
    }
    proof {
        assert(models(out@) =~= map_chain_author(ts, html));
    }
    *tokens = out;
}

fn apply_stem(tokens: &mut Vec<Token>, lang: StemAlgorithm)
    ensures
        models(final(tokens)@) == stem_seq(lang.id(), models(old(tokens)@)),
{
    let ghost ts = models(old(tokens)@);
    let ghost n = ts.len() as int;
    let mut out: Vec<Token> = Vec::new();
    let ghost mut i: int = 0;
    while tokens.len() > 0
        invariant
            0 <= i <= n,
            i + tokens@.len() == n,
            n == ts.len(),
            forall|j: int| 0 <= j < tokens@.len() ==> (#[trigger] tokens@[j])@ == ts[i + j],
            out@.len() == i,
            forall|j: int| 0 <= j < i ==> (#[trigger] out@[j])@ == crate::stemming::stem_tok(
                lang.id(),
                ts[j],
            ),
        decreases tokens@.len(),
    {
        let mut t = tokens.remove(0);
        proof {
            assert(t@ == ts[i]);
        }
        stem_token(&mut t, lang);
        out.push(t);
        proof {
            i = i + 1;
        }
    }
    proof {
        assert(models(out@) =~= stem_seq(lang.id(), ts));
    }
    *tokens = out;
}

fn fresh_tokens(input: &Vec<String>) -> (r: Vec<Token>)
    ensures
        models(r@) == fresh_models(input@),
{
    let mut r: Vec<Token> = Vec::new();
    let n = input.len();
    let mut i: usize = 0;
    while i < n
        invariant
            n == input@.len(),
            i <= n,
            r@.len() == i,
            forall|j: int|
                0 <= j < i ==> (#[trigger] r@[j])@ == (TokenModel {
                    text: input@[j]@,
                    owned: false,
                }),
        decreases n - i,
    {
        r.push(Token::new(input[i].as_str()));
        i = i + 1;
    }
    proof {
        assert(models(r@) =~= fresh_models(input@));
    }
    r
}

fn token_texts(tokens: &Vec<Token>) -> (r: Vec<String>)
    ensures
        r@.map_values(|s: String| s@) == texts(models(tokens@)),
{
    let mut r: Vec<String> = Vec::new();
    let n = tokens.len();
    let mut i: usize = 0;
    while i < n
        invariant
            n == tokens@.len(),
            i <= n,
            r@.len() == i,
            forall|j: int| 0 <= j < i ==> (#[trigger] r@[j])@ == tokens@[j]@.text,
        decreases n - i,
    {
        r.push(tokens[i].text());
        i = i + 1;
    }
    proof {
        assert(r@.map_values(|s: String| s@) =~= texts(models(tokens@)));
    }
    r
}

// ---------------------------------------------------------------------------
// The uniform interface
// ---------------------------------------------------------------------------
/// The uniform contract of the three cleaning variants: construct over a
/// token sequence, configure, clean in place, read the result, and
/// optionally stem it afterward.
pub trait Clean {
    /// The models of the tokens the cleaner holds.
    spec fn model(&self) -> Seq<TokenModel>;

    /// The cleaner's configuration: the minimum-length threshold (0 where
    /// the variant has none) and whether entity decoding is enabled.
    spec fn config(&self) -> (int, bool);

    /// What one cleaning pass makes of the held sequence.
    spec fn cleaned(&self) -> Seq<TokenModel>;

    /// Run the variant's cleaning pipeline in place.
    fn clean(&mut self)
        ensures
            final(self).model() == old(self).cleaned(),
            final(self).config() == old(self).config(),
    ;

    /// Replace each token with its stem under `lang`, where the stem
    /// differs. Meant to run after `clean()`, on normalized tokens.
    fn stem(&mut self, lang: StemAlgorithm)
        ensures
            final(self).model() == stem_seq(lang.id(), old(self).model()),
            final(self).config() == old(self).config(),
    ;
}

// ---------------------------------------------------------------------------
// Text
// ---------------------------------------------------------------------------
/// A cleaner dedicated to general text: minimum-length filter, per-token
/// transforms, empty purge.
pub struct TextCleaner {
    pub tokens: Vec<Token>,
    pub token_min_lenght: usize,
    pub decode_entities: bool,
}

impl TextCleaner {
    /// A text cleaner over the caller's tokens, with the default
    /// minimum-length threshold of 3 and entity decoding off.
    pub fn new(input: &Vec<String>) -> (c: TextCleaner)
        ensures
            c.model() == fresh_models(input@),
            c.config() == (3 as int, false),
    {
        TextCleaner { tokens: fresh_tokens(input), token_min_lenght: 3, decode_entities: false }
    }

    /// The tokens the cleaner currently holds.
    pub fn tokens(&self) -> (r: &Vec<Token>)
        ensures
            models(r@) == self.model(),
    {
        &self.tokens
    }

    /// Set the minimum-length threshold (inclusive): `clean()` drops every
    /// token of that many characters or fewer.
    pub fn token_min_lenght(&mut self, thresold: usize)
        ensures
            final(self).model() == old(self).model(),
            final(self).config() == (thresold as int, old(self).config().1),
    {
        self.token_min_lenght = thresold;
    }

    /// Enable or disable HTML entity decoding as the first per-token step.
    pub fn decode_html(&mut self, enabled: bool)
        ensures
            final(self).model() == old(self).model(),
            final(self).config() == (old(self).config().0, enabled),
    {
        self.decode_entities = enabled;
    }
}

impl Clean for TextCleaner {
    open spec fn model(&self) -> Seq<TokenModel> {
        models(self.tokens@)
    }

    open spec fn config(&self) -> (int, bool) {
        (self.token_min_lenght as int, self.decode_entities)
    }

    open spec fn cleaned(&self) -> Seq<TokenModel> {
        clean_text_spec(self.model(), self.token_min_lenght as int, self.decode_entities)
    }

    fn clean(&mut self) {
        let k = self.token_min_lenght;
        let html = self.decode_entities;
        retain_longer_than(&mut self.tokens, k);
        apply_chain_text(&mut self.tokens, html);
        retain_longer_than(&mut self.tokens, 0);
    }

    fn stem(&mut self, lang: StemAlgorithm) {
        apply_stem(&mut self.tokens, lang);
    }
}

// ---------------------------------------------------------------------------
// Title
// ---------------------------------------------------------------------------
/// A cleaner dedicated to titles: subtitle truncation, delimiter span
/// removal, minimum-length filter, per-token transforms, empty purge.
pub struct TitleCleaner {
    pub tokens: Vec<Token>,
    pub token_min_lenght: usize,
    pub decode_entities: bool,
}

impl TitleCleaner {
    /// A title cleaner over the caller's tokens, with the default
    /// minimum-length threshold of 3 and entity decoding off.
    pub fn new(input: &Vec<String>) -> (c: TitleCleaner)
        ensures
            c.model() == fresh_models(input@),
            c.config() == (3 as int, false),
    {
        TitleCleaner { tokens: fresh_tokens(input), token_min_lenght: 3, decode_entities: false }
    }

    /// The tokens the cleaner currently holds.
    pub fn tokens(&self) -> (r: &Vec<Token>)
        ensures
            models(r@) == self.model(),
    {
        &self.tokens
    }

    /// Set the minimum-length threshold (inclusive): `clean()` drops every
    /// token of that many characters or fewer.
    pub fn token_min_lenght(&mut self, thresold: usize)
        ensures
            final(self).model() == old(self).model(),
            final(self).config() == (thresold as int, old(self).config().1),
    {
        self.token_min_lenght = thresold;
    }

    /// Enable or disable HTML entity decoding as the first per-token step.
    pub fn decode_html(&mut self, enabled: bool)
        ensures
            final(self).model() == old(self).model(),
            final(self).config() == (old(self).config().0, enabled),
    {
        self.decode_entities = enabled;
    }
}

impl Clean for TitleCleaner {
    open spec fn model(&self) -> Seq<TokenModel> {
        models(self.tokens@)
    }

    open spec fn config(&self) -> (int, bool) {
        (self.token_min_lenght as int, self.decode_entities)
    }

    open spec fn cleaned(&self) -> Seq<TokenModel> {
        clean_title_spec(self.model(), self.token_min_lenght as int, self.decode_entities)
    }

    fn clean(&mut self) {
        let k = self.token_min_lenght;
        let html = self.decode_entities;
        tokens_split_at_strong_punctuation(&mut self.tokens);
        remove_tokens_between_delimiters(&mut self.tokens, ("(", ")"));
        remove_tokens_between_delimiters(&mut self.tokens, ("[", "]"));
        retain_longer_than(&mut self.tokens, k);
        apply_chain_text(&mut self.tokens, html);
        retain_longer_than(&mut self.tokens, 0);
    }

    fn stem(&mut self, lang: StemAlgorithm) {
        apply_stem(&mut self.tokens, lang);
    }
}

// ---------------------------------------------------------------------------
// Author
// ---------------------------------------------------------------------------
/// A cleaner dedicated to author names: delimiter span removal, per-token
/// transforms in the author order, empty purge; no minimum-length filter.
pub struct AuthorCleaner {
    pub tokens: Vec<Token>,
    pub decode_entities: bool,
}

impl AuthorCleaner {
    /// An author cleaner over the caller's tokens, with entity decoding off.
    pub fn new(input: &Vec<String>) -> (c: AuthorCleaner)
        ensures
            c.model() == fresh_models(input@),
            c.config() == (0 as int, false),
    {
        AuthorCleaner { tokens: fresh_tokens(input), decode_entities: false }
    }

    /// The tokens the cleaner currently holds.
    pub fn tokens(&self) -> (r: &Vec<Token>)
        ensures
            models(r@) == self.model(),
    {
        &self.tokens
    }

    /// Enable or disable HTML entity decoding as the first per-token step.
    pub fn decode_html(&mut self, enabled: bool)
        ensures
            final(self).model() == old(self).model(),
            final(self).config() == (0 as int, enabled),
    {
        self.decode_entities = enabled;
    }
}

impl Clean for AuthorCleaner {
    open spec fn model(&self) -> Seq<TokenModel> {
        models(self.tokens@)
    }

    open spec fn config(&self) -> (int, bool) {
        (0 as int, self.decode_entities)
    }

    open spec fn cleaned(&self) -> Seq<TokenModel> {
        clean_author_spec(self.model(), self.decode_entities)
    }

    fn clean(&mut self) {
        let html = self.decode_entities;
        remove_tokens_between_delimiters(&mut self.tokens, ("(", ")"));
        remove_tokens_between_delimiters(&mut self.tokens, ("[", "]"));
        apply_chain_author(&mut self.tokens, html);
        retain_longer_than(&mut self.tokens, 0);
    }

    fn stem(&mut self, lang: StemAlgorithm) {
        apply_stem(&mut self.tokens, lang);
    }
}

// ---------------------------------------------------------------------------
// Entry points
// ---------------------------------------------------------------------------
/// Clean a title's tokens with the default configuration and return the
/// resulting texts. Total: any sequence of strings, empty included, yields a
/// (possibly shorter, possibly empty) sequence of reduced strings.
pub fn clean_title(input: &Vec<String>) -> (r: Vec<String>)
    ensures
        r@.map_values(|s: String| s@) == texts(clean_title_spec(fresh_models(input@), 3, false)),
{
    let mut cleaner = TitleCleaner::new(input);
    cleaner.clean();
    token_texts(cleaner.tokens())
}

/// Clean an author-name list's tokens with the default configuration and
/// return the resulting texts. Total, as `clean_title` is.
pub fn clean_author(input: &Vec<String>) -> (r: Vec<String>)
    ensures
        r@.map_values(|s: String| s@) == texts(clean_author_spec(fresh_models(input@), false)),
{
    let mut cleaner = AuthorCleaner::new(input);
    cleaner.clean();
    token_texts(cleaner.tokens())
}

} // verus!
