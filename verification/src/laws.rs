//! The cleaning pipelines are idempotent on their own output.
//!
//! A second `clean()` pass does not alter already-cleaned tokens, provided
//! each output token is in canonical form (`canonical_token`): longer than
//! the threshold, free of uppercase letters, and a fixed point of the
//! digit/punctuation strip. The first pass does not guarantee canonical form
//! for every input — a token can shrink to the threshold or below, and a
//! transliteration can introduce uppercase letters, digits or punctuation —
//! so those inputs are excluded by hypothesis.
use crate::chars::{
    is_ascii_char, is_digit_char, is_punct_char, is_strong_punct_char,
};
use crate::cleaners::{
    chain_author, chain_text, clean_author_spec, clean_text_spec, clean_title_spec,
    map_chain_author, map_chain_text,
};
use crate::entities::{decode_tok_opt, entity_trigger};
use crate::sequence::{
    ends_strong, filter_short, find_pre, find_strong, is_prefix, longer_keep_f, purge_empty,
    remove_delims, truncate_subtitle,
};
use crate::subseq::{appears_kept, kept_from, lemma_kept_from_all, lemma_kept_from_membership};
use crate::token::TokenModel;
use crate::transforms::{
    first_non_space, has_upper, lemma_first_non_space_bounds, lemma_last_non_space_bounds,
    lemma_trim_fixed, lower_tok, strip_keep, strip_keep_f, strip_tok, strip_trigger, stripped,
    trim_spec, trim_tok, trim_trigger, StripClass,
};
use crate::translit::{has_non_ascii, unidecode_tok};
use vstd::prelude::*;

verus! {

/// A token in canonical form for threshold `k`: longer than `k`, without
/// uppercase letters, and a fixed point of the digit/punctuation strip.
pub open spec fn canonical_token(t: TokenModel, k: int) -> bool {
    t.text.len() > k && !has_upper(t.text) && !strip_trigger(StripClass::DigitsPuncts, t.text)
}

/// What every token of a pipeline's output satisfies by construction:
/// non-empty, all-ASCII, and without boundary whitespace.
pub open spec fn settled_token(t: TokenModel) -> bool {
    t.text.len() > 0 && !has_non_ascii(t.text) && !trim_trigger(t.text)
}

// ---------------------------------------------------------------------------
// Stage outputs are all-ASCII and trim-fixed
// ---------------------------------------------------------------------------
proof fn lemma_stripped_ascii(cls: StripClass, s: Seq<char>)
    requires
        cls is NonAscii || !has_non_ascii(s),
    ensures
        !has_non_ascii(stripped(cls, s)),
{
    lemma_kept_from_membership(s, strip_keep_f(cls), 0);
    assert forall|i: int| 0 <= i < stripped(cls, s).len() implies is_ascii_char(
        #[trigger] stripped(cls, s)[i],
    ) by {
        assert(stripped(cls, s)[i] == kept_from(s, strip_keep_f(cls), 0)[i]);
        assert(appears_kept(s, strip_keep_f(cls), 0, kept_from(s, strip_keep_f(cls), 0)[i]));
        let j = choose|j: int|
            0 <= j < s.len() && #[trigger] strip_keep_f(cls)(s, j) && kept_from(
                s,
                strip_keep_f(cls),
                0,
            )[i] == s[j];
        assert(strip_keep(cls, s, j));
        if cls is NonAscii {
            assert(is_ascii_char(s[j]));
        }
    }
}

proof fn lemma_strip_tok_ascii(cls: StripClass, x: TokenModel)
    requires
        cls is NonAscii || !has_non_ascii(x.text),
    ensures
        !has_non_ascii(strip_tok(cls, x).text),
{
    if strip_trigger(cls, x.text) {
        lemma_stripped_ascii(cls, x.text);
    } else {
        if cls is NonAscii {
            assert forall|i: int| 0 <= i < x.text.len() implies is_ascii_char(
                #[trigger] x.text[i],
            ) by {
                assert(strip_keep(cls, x.text, i));
            }
        }
    }
}

proof fn lemma_trim_tok_ascii(x: TokenModel)
    requires
        !has_non_ascii(x.text),
    ensures
        !has_non_ascii(trim_tok(x).text),
{
    if trim_trigger(x.text) {
        lemma_first_non_space_bounds(x.text, 0);
        lemma_last_non_space_bounds(x.text, x.text.len() as int);
        assert forall|i: int| 0 <= i < trim_spec(x.text).len() implies is_ascii_char(
            #[trigger] trim_spec(x.text)[i],
        ) by {
            let a = first_non_space(x.text, 0);
            assert(trim_spec(x.text)[i] == x.text[a + i]);
        }
    }
}

proof fn lemma_trim_tok_fixed(x: TokenModel)
    ensures
        !trim_trigger(trim_tok(x).text),
{
    if trim_trigger(x.text) {
        lemma_trim_fixed(x.text);
    }
}

/// Both per-token chains end in the non-ASCII strip and the trim, so their
/// output is all-ASCII and has no boundary whitespace.
proof fn lemma_chain_props(t: TokenModel, html: bool)
    ensures
        !has_non_ascii(chain_text(t, html).text),
        !trim_trigger(chain_text(t, html).text),
        !has_non_ascii(chain_author(t, html).text),
        !trim_trigger(chain_author(t, html).text),
{
    let a = lower_tok(decode_tok_opt(t, html));
    let b = unidecode_tok(a);
    let c = strip_tok(StripClass::NonAscii, b);
    lemma_strip_tok_ascii(StripClass::NonAscii, b);
    let d = strip_tok(StripClass::DigitsPuncts, c);
    lemma_strip_tok_ascii(StripClass::DigitsPuncts, c);
    lemma_trim_tok_ascii(d);
    lemma_trim_tok_fixed(d);
    assert(chain_text(t, html) == trim_tok(d));
    let a2 = strip_tok(StripClass::DigitsPuncts, lower_tok(decode_tok_opt(t, html)));
    let b2 = unidecode_tok(a2);
    let c2 = strip_tok(StripClass::NonAscii, b2);
    lemma_strip_tok_ascii(StripClass::NonAscii, b2);
    lemma_trim_tok_ascii(c2);
    lemma_trim_tok_fixed(c2);
    assert(chain_author(t, html) == trim_tok(c2));
}

// ---------------------------------------------------------------------------
// A canonical, settled token is a fixed point of both chains
// ---------------------------------------------------------------------------
proof fn lemma_strong_is_punct(c: char)
    requires
        is_strong_punct_char(c),
    ensures
        is_punct_char(c),
{
}

/// The boundary characters of a strip-fixed, non-empty token are neither
/// digits nor punctuation (an interior hyphen cannot stand at a boundary).
proof fn lemma_canonical_boundary(t: TokenModel, k: int)
    requires
        canonical_token(t, k),
        t.text.len() > 0,
    ensures
        !is_punct_char(t.text[0]) && !is_digit_char(t.text[0]),
        !is_punct_char(t.text[t.text.len() - 1]) && !is_digit_char(t.text[t.text.len() - 1]),
{
    assert(strip_keep(StripClass::DigitsPuncts, t.text, 0));
    assert(strip_keep(StripClass::DigitsPuncts, t.text, t.text.len() - 1));
}

/// A canonical, settled token passes through either per-token chain
/// unchanged.
proof fn lemma_chain_fixed(t: TokenModel, k: int, html: bool)
    requires
        canonical_token(t, k),
        settled_token(t),
    ensures
        chain_text(t, html) == t,
        chain_author(t, html) == t,
{
    lemma_canonical_boundary(t, k);
    if html {
        assert(is_punct_char('&'));
        assert(!entity_trigger(t.text));
    }
    assert forall|i: int| 0 <= i < t.text.len() implies #[trigger] strip_keep(
        StripClass::NonAscii,
        t.text,
        i,
    ) by {
        assert(is_ascii_char(t.text[i]));
    }
    assert(!strip_trigger(StripClass::NonAscii, t.text));
}

// ---------------------------------------------------------------------------
// Sequence transforms fix a canonical, settled sequence
// ---------------------------------------------------------------------------
proof fn lemma_find_strong_none(ts: Seq<TokenModel>, i: int)
    requires
        0 <= i <= ts.len(),
        forall|j: int| i <= j < ts.len() ==> !ends_strong((#[trigger] ts[j]).text),
    ensures
        find_strong(ts, i) == ts.len(),
    decreases ts.len() - i,
{
    if i < ts.len() {
        lemma_find_strong_none(ts, i + 1);
    }
}

proof fn lemma_find_pre_none(ts: Seq<TokenModel>, p: Seq<char>, i: int)
    requires
        0 <= i <= ts.len(),
        forall|j: int| i <= j < ts.len() ==> !is_prefix(p, (#[trigger] ts[j]).text),
    ensures
        find_pre(ts, p, i) == ts.len(),
    decreases ts.len() - i,
{
    if i < ts.len() {
        lemma_find_pre_none(ts, p, i + 1);
    }
}

proof fn lemma_filter_short_all(ts: Seq<TokenModel>, k: int)
    requires
        forall|i: int| 0 <= i < ts.len() ==> (#[trigger] ts[i]).text.len() > k,
    ensures
        filter_short(ts, k) == ts,
{
    assert forall|j: int| 0 <= j < ts.len() implies #[trigger] longer_keep_f(k)(ts, j) by {
        assert(ts[j].text.len() > k);
    }
    lemma_kept_from_all(ts, longer_keep_f(k), 0);
    assert(ts.subrange(0, ts.len() as int) =~= ts);
}

/// Every sequence transform and both chains fix a sequence of canonical,
/// settled tokens.
proof fn lemma_settled_seq_fixed(out: Seq<TokenModel>, k: int, html: bool)
    requires
        forall|i: int| 0 <= i < out.len() ==> canonical_token(#[trigger] out[i], k),
        forall|i: int| 0 <= i < out.len() ==> settled_token(#[trigger] out[i]),
    ensures
        truncate_subtitle(out) == out,
        remove_delims(out, ("(")@, (")")@) == out,
        remove_delims(out, ("[")@, ("]")@) == out,
        filter_short(out, k) == out,
        purge_empty(out) == out,
        map_chain_text(out, html) == out,
        map_chain_author(out, html) == out,
{
    // no token ends with a strong punctuation mark
    assert forall|j: int| 0 <= j < out.len() implies !ends_strong((#[trigger] out[j]).text) by {
        lemma_canonical_boundary(out[j], k);
        if ends_strong(out[j].text) {
            lemma_strong_is_punct(out[j].text[out[j].text.len() - 1]);
        }
    }
    lemma_find_strong_none(out, 0);
    assert(truncate_subtitle(out) =~= out);
    // no token starts with a delimiter marker
    reveal_strlit("(");
    reveal_strlit("[");
    assert(is_punct_char('('));
    assert(is_punct_char('['));
    assert forall|j: int| 0 <= j < out.len() implies !is_prefix(
        ("(")@,
        (#[trigger] out[j]).text,
    ) && !is_prefix(("[")@, out[j].text) by {
        lemma_canonical_boundary(out[j], k);
        if is_prefix(("(")@, out[j].text) {
            assert(out[j].text.subrange(0, 1)[0] == '(');
        }
        if is_prefix(("[")@, out[j].text) {
            assert(out[j].text.subrange(0, 1)[0] == '[');
        }
    }
    lemma_find_pre_none(out, ("(")@, 0);
    lemma_find_pre_none(out, ("[")@, 0);
    // length filter and purge keep everything
    lemma_filter_short_all(out, k);
    lemma_filter_short_all(out, 0);
    // both chains fix every token
    assert forall|j: int| 0 <= j < out.len() implies chain_text(#[trigger] out[j], html) == out[j]
        && chain_author(out[j], html) == out[j] by {
        lemma_chain_fixed(out[j], k, html);
    }
    assert(map_chain_text(out, html) =~= out);
    assert(map_chain_author(out, html) =~= out);
}

// ---------------------------------------------------------------------------
// The output tokens of a pass are settled
// ---------------------------------------------------------------------------
proof fn lemma_pass_settled_text(mid: Seq<TokenModel>, html: bool)
    ensures
        forall|i: int|
            0 <= i < purge_empty(map_chain_text(mid, html)).len() ==> settled_token(
                #[trigger] purge_empty(map_chain_text(mid, html))[i],
            ),
{
    let mapped = map_chain_text(mid, html);
    let out = purge_empty(mapped);
    lemma_kept_from_membership(mapped, longer_keep_f(0), 0);
    assert forall|i: int| 0 <= i < out.len() implies settled_token(#[trigger] out[i]) by {
        assert(out[i] == kept_from(mapped, longer_keep_f(0), 0)[i]);
        assert(appears_kept(mapped, longer_keep_f(0), 0, kept_from(mapped, longer_keep_f(0), 0)[i]));
        let j = choose|j: int|
            0 <= j < mapped.len() && #[trigger] longer_keep_f(0)(mapped, j) && kept_from(
                mapped,
                longer_keep_f(0),
                0,
            )[i] == mapped[j];
        assert(mapped[j] == chain_text(mid[j], html));
        lemma_chain_props(mid[j], html);
        assert(mapped[j].text.len() > 0);
    }
}

proof fn lemma_pass_settled_author(mid: Seq<TokenModel>, html: bool)
    ensures
        forall|i: int|
            0 <= i < purge_empty(map_chain_author(mid, html)).len() ==> settled_token(
                #[trigger] purge_empty(map_chain_author(mid, html))[i],
            ),
{
    let mapped = map_chain_author(mid, html);
    let out = purge_empty(mapped);
    lemma_kept_from_membership(mapped, longer_keep_f(0), 0);
    assert forall|i: int| 0 <= i < out.len() implies settled_token(#[trigger] out[i]) by {
        assert(out[i] == kept_from(mapped, longer_keep_f(0), 0)[i]);
        assert(appears_kept(mapped, longer_keep_f(0), 0, kept_from(mapped, longer_keep_f(0), 0)[i]));
        let j = choose|j: int|
            0 <= j < mapped.len() && #[trigger] longer_keep_f(0)(mapped, j) && kept_from(
                mapped,
                longer_keep_f(0),
                0,
            )[i] == mapped[j];
        assert(mapped[j] == chain_author(mid[j], html));
        lemma_chain_props(mid[j], html);
        assert(mapped[j].text.len() > 0);
    }
}

// ---------------------------------------------------------------------------
// Idempotence
// ---------------------------------------------------------------------------
/// A second text-variant `clean()` pass over already-cleaned output does not
/// alter it, whenever every output token of the first pass is canonical.
pub proof fn lemma_clean_text_idempotent(ts: Seq<TokenModel>, k: int, html: bool)
    requires
        forall|i: int|
            0 <= i < clean_text_spec(ts, k, html).len() ==> canonical_token(
                #[trigger] clean_text_spec(ts, k, html)[i],
                k,
            ),
    ensures
        clean_text_spec(clean_text_spec(ts, k, html), k, html) == clean_text_spec(ts, k, html),
{
    let out = clean_text_spec(ts, k, html);
    let mid = filter_short(ts, k);
    assert(out == purge_empty(map_chain_text(mid, html)));
    lemma_pass_settled_text(mid, html);
    lemma_settled_seq_fixed(out, k, html);
    assert(clean_text_spec(out, k, html) == purge_empty(map_chain_text(filter_short(out, k), html)));
}

/// A second title-variant `clean()` pass over already-cleaned output does
/// not alter it, whenever every output token of the first pass is canonical.
pub proof fn lemma_clean_title_idempotent(ts: Seq<TokenModel>, k: int, html: bool)
    requires
        forall|i: int|
            0 <= i < clean_title_spec(ts, k, html).len() ==> canonical_token(
                #[trigger] clean_title_spec(ts, k, html)[i],
                k,
            ),
    ensures
        clean_title_spec(clean_title_spec(ts, k, html), k, html) == clean_title_spec(ts, k, html),
{
    let out = clean_title_spec(ts, k, html);
    let mid = filter_short(
        remove_delims(remove_delims(truncate_subtitle(ts), ("(")@, (")")@), ("[")@, ("]")@),
        k,
    );
    assert(out == purge_empty(map_chain_text(mid, html)));
    lemma_pass_settled_text(mid, html);
    lemma_settled_seq_fixed(out, k, html);
}

/// A second author-variant `clean()` pass over already-cleaned output does
/// not alter it, whenever every output token of the first pass is canonical.
pub proof fn lemma_clean_author_idempotent(ts: Seq<TokenModel>, html: bool)
    requires
        forall|i: int|
            0 <= i < clean_author_spec(ts, html).len() ==> canonical_token(
                #[trigger] clean_author_spec(ts, html)[i],
                0,
            ),
    ensures
        clean_author_spec(clean_author_spec(ts, html), html) == clean_author_spec(ts, html),
{
    let out = clean_author_spec(ts, html);
    let mid = remove_delims(remove_delims(ts, ("(")@, (")")@), ("[")@, ("]")@);
    assert(out == purge_empty(map_chain_author(mid, html)));
    lemma_pass_settled_author(mid, html);
    lemma_settled_seq_fixed(out, 0, html);
}

} // verus!
