//! Sequence transforms: operations over the whole ordered token sequence.
//!
//! These only drop whole tokens; the order-preservation lemmas state that the
//! survivors keep their order (they form a subsequence of the input).
use crate::chars::{char_is_strong_punct, chars_of, is_strong_punct_char};
use crate::subseq::{
    is_subsequence, kept, kept_from, lemma_kept_subseq, lemma_subseq_refl, lemma_subseq_trans,
    lemma_cut_span_subseq, lemma_take_subseq,
};
use crate::token::{models, Token, TokenModel};
use vstd::prelude::*;

verus! {

// ---------------------------------------------------------------------------
// Minimum-length filter and empty-token purge
// ---------------------------------------------------------------------------
/// Whether the token at position `i` is longer than `k` characters.
pub open spec fn longer_keep_f(k: int) -> spec_fn(Seq<TokenModel>, int) -> bool {
    |ts: Seq<TokenModel>, i: int| ts[i].text.len() > k
}

/// `ts` without the tokens of `k` characters or fewer (the comparison is
/// inclusive: a token of exactly `k` characters is dropped).
pub open spec fn filter_short(ts: Seq<TokenModel>, k: int) -> Seq<TokenModel> {
    kept(ts, longer_keep_f(k))
}

/// `ts` without its empty tokens.
pub open spec fn purge_empty(ts: Seq<TokenModel>) -> Seq<TokenModel> {
    filter_short(ts, 0)
}

/// Drop every token of `k` characters or fewer, keeping the rest in order.
pub(crate) fn retain_longer_than(tokens: &mut Vec<Token>, k: usize)
    ensures
        models(final(tokens)@) == filter_short(models(old(tokens)@), k as int),
{
    let ghost ts = models(old(tokens)@);
    let ghost f = longer_keep_f(k as int);
    let ghost n = ts.len() as int;
    let mut out: Vec<Token> = Vec::new();
    let ghost mut i: int = 0;
    proof {
        assert(models(tokens@) =~= ts.subrange(0, n));
    }
    while tokens.len() > 0
        invariant
            0 <= i <= n,
            i + tokens@.len() == n,
            models(tokens@) == ts.subrange(i, n),
            filter_short(ts, k as int) == models(out@) + kept_from(ts, f, i),
            f == longer_keep_f(k as int),
            n == ts.len(),
        decreases tokens@.len(),
    {
        let ghost out0 = out@;
        let ghost prev = tokens@;
        let t = tokens.remove(0);
        proof {
            assert(t == prev[0]);
            assert(models(prev)[0] == ts.subrange(i, n)[0]);
            assert(t@ == ts[i]);
        }
        if t.len() > k {
            proof {
                assert(f(ts, i));
            }
            out.push(t);
            proof {
                assert(models(out@) =~= models(out0) + seq![ts[i]]);
                assert(kept_from(ts, f, i) =~= seq![ts[i]] + kept_from(ts, f, i + 1));
                assert(models(out0) + kept_from(ts, f, i) =~= models(out@) + kept_from(
                    ts,
                    f,
                    i + 1,
                ));
            }
        } else {
            proof {
                assert(!f(ts, i));
            }
        }
        proof {
            i = i + 1;
            assert(tokens@ == prev.remove(0));
            assert forall|j: int| 0 <= j < tokens@.len() implies models(tokens@)[j] == ts.subrange(
                i,
                n,
            )[j] by {
                assert(tokens@[j] == prev[j + 1]);
                assert(models(prev)[j + 1] == ts.subrange(i - 1, n)[j + 1]);
            }
            assert(models(tokens@) =~= ts.subrange(i, n));
        }
    }
    proof {
        assert(filter_short(ts, k as int) =~= models(out@));
    }
    *tokens = out;
}

// ---------------------------------------------------------------------------
// Subtitle truncation
// ---------------------------------------------------------------------------
/// Whether the token text ends with a strong punctuation mark.
pub open spec fn ends_strong(s: Seq<char>) -> bool {
    s.len() > 0 && is_strong_punct_char(s[s.len() - 1])
}

/// The first position at or after `i` whose token ends with a strong
/// punctuation mark, or the length of `ts`.
pub open spec fn find_strong(ts: Seq<TokenModel>, i: int) -> int
    decreases ts.len() - i,
{
    if i < 0 || i >= ts.len() {
        ts.len() as int
    } else if ends_strong(ts[i].text) {
        i
    } else {
        find_strong(ts, i + 1)
    }
}

/// `ts` truncated strictly before its first token that ends with a strong
/// punctuation mark; unchanged when no token does.
pub open spec fn truncate_subtitle(ts: Seq<TokenModel>) -> Seq<TokenModel> {
    ts.take(find_strong(ts, 0))
}

fn token_ends_strong(t: &Token) -> (r: bool)
    ensures
        r == ends_strong(t@.text),
{
    let n = t.len();
    if n == 0 {
        false
    } else {
        char_is_strong_punct(t.char_at(n - 1))
    }
}

/// Drop the subtitle: truncate the sequence strictly before its first token
/// that ends with `.`, `:`, `?` or `!`; leave it unchanged when none does.
pub fn tokens_split_at_strong_punctuation(tokens: &mut Vec<Token>)
    ensures
        models(final(tokens)@) == truncate_subtitle(models(old(tokens)@)),
{
    let ghost ts = models(old(tokens)@);
    let n = tokens.len();
    let mut i: usize = 0;
    while i < n
        invariant
            *tokens == *old(tokens),
            ts == models(tokens@),
            n == ts.len(),
            i <= n,
            find_strong(ts, 0) == find_strong(ts, i as int),
        decreases n - i,
    {
        if token_ends_strong(&tokens[i]) {
            proof {
                assert(tokens@[i as int]@ == ts[i as int]);
                assert(find_strong(ts, i as int) == i);
            }
            tokens.truncate(i);
            proof {
                assert(models(tokens@) =~= ts.take(i as int));
            }
            return ;
        }
        proof {
            assert(tokens@[i as int]@ == ts[i as int]);
        }
        i = i + 1;
    }
    proof {
        assert(find_strong(ts, 0) == n);
        assert(models(tokens@) =~= ts.take(n as int));
    }
}

// ---------------------------------------------------------------------------
// Balanced-delimiter span removal
// ---------------------------------------------------------------------------
/// Whether `p` is a prefix of `s`.
pub open spec fn is_prefix(p: Seq<char>, s: Seq<char>) -> bool {
    p.len() <= s.len() && s.subrange(0, p.len() as int) == p
}

/// Whether `p` is a suffix of `s`.
pub open spec fn is_suffix(p: Seq<char>, s: Seq<char>) -> bool {
    p.len() <= s.len() && s.subrange(s.len() - p.len(), s.len() as int) == p
}

/// The first position at or after `i` whose token starts with `p`, or the
/// length of `ts`.
pub open spec fn find_pre(ts: Seq<TokenModel>, p: Seq<char>, i: int) -> int
    decreases ts.len() - i,
{
    if i < 0 || i >= ts.len() {
        ts.len() as int
    } else if is_prefix(p, ts[i].text) {
        i
    } else {
        find_pre(ts, p, i + 1)
    }
}

/// The first position at or after `i` whose token ends with `p`, or the
/// length of `ts`.
pub open spec fn find_suf(ts: Seq<TokenModel>, p: Seq<char>, i: int) -> int
    decreases ts.len() - i,
{
    if i < 0 || i >= ts.len() {
        ts.len() as int
    } else if is_suffix(p, ts[i].text) {
        i
    } else {
        find_suf(ts, p, i + 1)
    }
}

pub proof fn lemma_find_pre_bounds(ts: Seq<TokenModel>, p: Seq<char>, i: int)
    requires
        0 <= i <= ts.len(),
    ensures
        i <= find_pre(ts, p, i) <= ts.len(),
    decreases ts.len() - i,
{
    if i < ts.len() && !is_prefix(p, ts[i].text) {
        lemma_find_pre_bounds(ts, p, i + 1);
    }
}

pub proof fn lemma_find_suf_bounds(ts: Seq<TokenModel>, p: Seq<char>, i: int)
    requires
        0 <= i <= ts.len(),
    ensures
        i <= find_suf(ts, p, i) <= ts.len(),
    decreases ts.len() - i,
{
    if i < ts.len() && !is_suffix(p, ts[i].text) {
        lemma_find_suf_bounds(ts, p, i + 1);
    }
}

/// `ts` with every balanced-delimiter span removed: repeatedly, the first
/// token starting with `d0` opens a span, the first token from there on
/// (inclusive) ending with `d1` closes it, and the whole inclusive span is
/// dropped. An unterminated span stops the scan and is kept.
pub open spec fn remove_delims(ts: Seq<TokenModel>, d0: Seq<char>, d1: Seq<char>) -> Seq<TokenModel>
    decreases ts.len(),
        via remove_delims_decreases
{
    let s = find_pre(ts, d0, 0);
    if s >= ts.len() {
        ts
    } else {
        let e = find_suf(ts, d1, s);
        if e >= ts.len() {
            ts
        } else {
            remove_delims(ts.subrange(0, s) + ts.subrange(e + 1, ts.len() as int), d0, d1)
        }
    }
}

#[via_fn]
proof fn remove_delims_decreases(ts: Seq<TokenModel>, d0: Seq<char>, d1: Seq<char>) {
    let s = find_pre(ts, d0, 0);
    if s < ts.len() {
        lemma_find_pre_bounds(ts, d0, 0);
        let e = find_suf(ts, d1, s);
        if e < ts.len() {
            lemma_find_suf_bounds(ts, d1, s);
        }
    }
}

fn token_has_prefix(t: &Token, p: &Vec<char>) -> (r: bool)
    ensures
        r == is_prefix(p@, t@.text),
{
    let m = p.len();
    let n = t.len();
    if m > n {
        return false;
    }
    let mut i: usize = 0;
    while i < m
        invariant
            m == p@.len() <= n == t@.text.len(),
            i <= m,
            forall|j: int| 0 <= j < i ==> t@.text[j] == p@[j],
        decreases m - i,
    {
        if t.char_at(i) != p[i] {
            proof {
                assert(t@.text.subrange(0, m as int)[i as int] != p@[i as int]);
            }
            return false;
        }
        i = i + 1;
    }
    proof {
        assert(t@.text.subrange(0, m as int) =~= p@);
    }
    true
}

fn token_has_suffix(t: &Token, p: &Vec<char>) -> (r: bool)
    ensures
        r == is_suffix(p@, t@.text),
{
    let m = p.len();
    let n = t.len();
    if m > n {
        return false;
    }
    let off = n - m;
    let mut i: usize = 0;
    while i < m
        invariant
            m == p@.len() <= n == t@.text.len(),
            off == n - m,
            i <= m,
            forall|j: int| 0 <= j < i ==> t@.text[off + j] == p@[j],
        decreases m - i,
    {
        if t.char_at(off + i) != p[i] {
            proof {
                assert(t@.text.subrange(off as int, n as int)[i as int] != p@[i as int]);
            }
            return false;
        }
        i = i + 1;
    }
    proof {
        assert(t@.text.subrange(off as int, n as int) =~= p@);
    }
    true
}

fn find_prefix_index(tokens: &Vec<Token>, p: &Vec<char>, from: usize) -> (r: usize)
    requires
        from <= tokens@.len(),
    ensures
        r == find_pre(models(tokens@), p@, from as int),
        from <= r <= tokens@.len(),
{
    let ghost ts = models(tokens@);
    let n = tokens.len();
    let mut i: usize = from;
    while i < n
        invariant
            ts == models(tokens@),
            n == ts.len(),
            from <= i <= n,
            find_pre(ts, p@, from as int) == find_pre(ts, p@, i as int),
        decreases n - i,
    {
        proof {
            assert(tokens@[i as int]@ == ts[i as int]);
        }
        if token_has_prefix(&tokens[i], p) {
            proof {
                assert(find_pre(ts, p@, i as int) == i);
            }
            return i;
        }
        i = i + 1;
    }
    proof {
        assert(find_pre(ts, p@, n as int) == n);
    }
    n
}

fn find_suffix_index(tokens: &Vec<Token>, p: &Vec<char>, from: usize) -> (r: usize)
    requires
        from <= tokens@.len(),
    ensures
        r == find_suf(models(tokens@), p@, from as int),
        from <= r <= tokens@.len(),
{
    let ghost ts = models(tokens@);
    let n = tokens.len();
    let mut i: usize = from;
    while i < n
        invariant
            ts == models(tokens@),
            n == ts.len(),
            from <= i <= n,
            find_suf(ts, p@, from as int) == find_suf(ts, p@, i as int),
        decreases n - i,
    {
        proof {
            assert(tokens@[i as int]@ == ts[i as int]);
        }
        if token_has_suffix(&tokens[i], p) {
            proof {
                assert(find_suf(ts, p@, i as int) == i);
            }
            return i;
        }
        i = i + 1;
    }
    proof {
        assert(find_suf(ts, p@, n as int) == n);
    }
    n
}

/// Remove every balanced-delimiter span: from each first token starting with
/// the opening marker through the first token from there on ending with the
/// closing marker, inclusive. An unterminated span is left untouched.
pub fn remove_tokens_between_delimiters(tokens: &mut Vec<Token>, delimiters: (&str, &str))
    ensures
        models(final(tokens)@) == remove_delims(
            models(old(tokens)@),
            delimiters.0@,
            delimiters.1@,
        ),
{
    let d0 = chars_of(delimiters.0);
    let d1 = chars_of(delimiters.1);
    loop
        invariant
            d0@ == delimiters.0@,
            d1@ == delimiters.1@,
            remove_delims(models(tokens@), d0@, d1@) == remove_delims(
                models(old(tokens)@),
                delimiters.0@,
                delimiters.1@,
            ),
        ensures
            models(tokens@) == remove_delims(models(old(tokens)@), delimiters.0@, delimiters.1@),
        decreases tokens@.len(),
    {
        let ghost ts = models(tokens@);
        let n = tokens.len();
        let s_i = find_prefix_index(tokens, &d0, 0);
        if s_i == n {
            proof {
                assert(remove_delims(ts, d0@, d1@) == ts);
            }
            break ;
        }
        let e_i = find_suffix_index(tokens, &d1, s_i);
        if e_i == n {
            proof {
                assert(remove_delims(ts, d0@, d1@) == ts);
            }
            break ;
        }
        let ghost toks0 = tokens@;
        let count = e_i - s_i + 1;
        let mut c: usize = 0;
        proof {
            assert(tokens@ =~= toks0.subrange(0, s_i as int) + toks0.subrange(
                s_i + c as int,
                n as int,
            ));
        }
        while c < count
            invariant
                c <= count,
                count == e_i - s_i + 1,
                s_i <= e_i < n,
                n == toks0.len(),
                tokens@ == toks0.subrange(0, s_i as int) + toks0.subrange(
                    s_i + c as int,
                    n as int,
                ),
            decreases count - c,
        {
            let ghost before = tokens@;
            tokens.remove(s_i);
            c = c + 1;
            proof {
                assert(before.remove(s_i as int) =~= toks0.subrange(0, s_i as int)
                    + toks0.subrange(s_i + c as int, n as int));
            }
        }
        proof {
            assert(models(tokens@) =~= ts.subrange(0, s_i as int) + ts.subrange(
                e_i + 1 as int,
                n as int,
            ));
            assert(remove_delims(ts, d0@, d1@) == remove_delims(models(tokens@), d0@, d1@));
        }
    }
}

// ---------------------------------------------------------------------------
// Order preservation
// ---------------------------------------------------------------------------
/// The minimum-length filter never reorders surviving tokens.
pub proof fn lemma_filter_short_keeps_order(ts: Seq<TokenModel>, k: int)
    ensures
        is_subsequence(filter_short(ts, k), ts),
{
    lemma_kept_subseq(ts, longer_keep_f(k));
}

/// The empty-token purge never reorders surviving tokens.
pub proof fn lemma_purge_empty_keeps_order(ts: Seq<TokenModel>)
    ensures
        is_subsequence(purge_empty(ts), ts),
{
    lemma_filter_short_keeps_order(ts, 0);
}

/// Subtitle truncation never reorders surviving tokens.
pub proof fn lemma_truncate_subtitle_keeps_order(ts: Seq<TokenModel>)
    ensures
        is_subsequence(truncate_subtitle(ts), ts),
{
    if find_strong(ts, 0) == ts.len() {
        assert(ts.take(ts.len() as int) =~= ts);
        lemma_subseq_refl(ts);
    } else {
        lemma_find_strong_bounds(ts, 0);
        lemma_take_subseq(ts, find_strong(ts, 0));
    }
}

pub proof fn lemma_find_strong_bounds(ts: Seq<TokenModel>, i: int)
    requires
        0 <= i <= ts.len(),
    ensures
        i <= find_strong(ts, i) <= ts.len(),
    decreases ts.len() - i,
{
    if i < ts.len() && !ends_strong(ts[i].text) {
        lemma_find_strong_bounds(ts, i + 1);
    }
}

/// Balanced-delimiter span removal never reorders surviving tokens.
pub proof fn lemma_remove_delims_keeps_order(ts: Seq<TokenModel>, d0: Seq<char>, d1: Seq<char>)
    ensures
        is_subsequence(remove_delims(ts, d0, d1), ts),
    decreases ts.len(),
{
    let s = find_pre(ts, d0, 0);
    if s >= ts.len() {
        lemma_subseq_refl(ts);
    } else {
        lemma_find_pre_bounds(ts, d0, 0);
        let e = find_suf(ts, d1, s);
        if e >= ts.len() {
            lemma_subseq_refl(ts);
        } else {
            lemma_find_suf_bounds(ts, d1, s);
            let cut = ts.subrange(0, s) + ts.subrange(e + 1, ts.len() as int);
            lemma_remove_delims_keeps_order(cut, d0, d1);
            lemma_cut_span_subseq(ts, s, e + 1);
            lemma_subseq_trans(remove_delims(ts, d0, d1), cut, ts);
        }
    }
}

} // verus!
