//! Position-based filtering of sequences, and the subsequence relation.
//!
//! Every removing operation of this crate (character strips, length filter,
//! empty purge, delimiter spans, subtitle truncation) is described with these
//! tools: `kept_from` gives the surviving elements in order, and
//! `is_subsequence` states that survivors are never reordered.
use vstd::prelude::*;

verus! {

/// The elements of `s` at positions `i` and beyond whose position satisfies
/// `keep`, in their original order.
pub open spec fn kept_from<T>(s: Seq<T>, keep: spec_fn(Seq<T>, int) -> bool, i: int) -> Seq<T>
    decreases s.len() - i,
{
    if i < 0 || i >= s.len() {
        Seq::empty()
    } else if keep(s, i) {
        seq![s[i]] + kept_from(s, keep, i + 1)
    } else {
        kept_from(s, keep, i + 1)
    }
}

/// The elements of `s` whose position satisfies `keep`, in order.
pub open spec fn kept<T>(s: Seq<T>, keep: spec_fn(Seq<T>, int) -> bool) -> Seq<T> {
    kept_from(s, keep, 0)
}

/// Filtering keeps everything when every position satisfies `keep`.
pub proof fn lemma_kept_from_all<T>(s: Seq<T>, keep: spec_fn(Seq<T>, int) -> bool, i: int)
    requires
        0 <= i <= s.len(),
        forall|j: int| i <= j < s.len() ==> #[trigger] keep(s, j),
    ensures
        kept_from(s, keep, i) == s.subrange(i, s.len() as int),
    decreases s.len() - i,
{
    if i == s.len() {
        assert(kept_from(s, keep, i) =~= s.subrange(i, s.len() as int));
    } else {
        lemma_kept_from_all(s, keep, i + 1);
        assert(kept_from(s, keep, i) =~= s.subrange(i, s.len() as int));
    }
}

/// Filtering never lengthens a sequence.
pub proof fn lemma_kept_from_len<T>(s: Seq<T>, keep: spec_fn(Seq<T>, int) -> bool, i: int)
    requires
        0 <= i <= s.len(),
    ensures
        kept_from(s, keep, i).len() <= s.len() - i,
    decreases s.len() - i,
{
    if i < s.len() {
        lemma_kept_from_len(s, keep, i + 1);
    }
}

/// Filtering strictly shortens a sequence when some position is dropped.
pub proof fn lemma_kept_from_drop<T>(s: Seq<T>, keep: spec_fn(Seq<T>, int) -> bool, i: int, j: int)
    requires
        0 <= i <= j < s.len(),
        !keep(s, j),
    ensures
        kept_from(s, keep, i).len() < s.len() - i,
    decreases s.len() - i,
{
    if i == j {
        lemma_kept_from_len(s, keep, i + 1);
    } else {
        lemma_kept_from_drop(s, keep, i + 1, j);
    }
}

/// `v` stands at some kept position of `s` at or after `i`.
pub open spec fn appears_kept<T>(s: Seq<T>, keep: spec_fn(Seq<T>, int) -> bool, i: int, v: T) -> bool {
    exists|j: int| i <= j < s.len() && #[trigger] keep(s, j) && v == s[j]
}

/// Every surviving element stands at some kept position of the original.
pub proof fn lemma_kept_from_membership<T>(s: Seq<T>, keep: spec_fn(Seq<T>, int) -> bool, i: int)
    requires
        0 <= i <= s.len(),
    ensures
        forall|k: int|
            0 <= k < kept_from(s, keep, i).len() ==> appears_kept(
                s,
                keep,
                i,
                #[trigger] kept_from(s, keep, i)[k],
            ),
    decreases s.len() - i,
{
    if i < s.len() {
        lemma_kept_from_membership(s, keep, i + 1);
        assert forall|k: int| 0 <= k < kept_from(s, keep, i).len() implies appears_kept(
            s,
            keep,
            i,
            #[trigger] kept_from(s, keep, i)[k],
        ) by {
            if keep(s, i) {
                if k == 0 {
                    assert(keep(s, i) && kept_from(s, keep, i)[0] == s[i]);
                } else {
                    assert(kept_from(s, keep, i)[k] == kept_from(s, keep, i + 1)[k - 1]);
                    assert(appears_kept(s, keep, i + 1, kept_from(s, keep, i + 1)[k - 1]));
                }
            } else {
                assert(kept_from(s, keep, i)[k] == kept_from(s, keep, i + 1)[k]);
                assert(appears_kept(s, keep, i + 1, kept_from(s, keep, i + 1)[k]));
            }
        }
    }
}

/// `a` occurs inside `b` in order: `b` with zero or more elements dropped.
pub open spec fn is_subsequence<T>(a: Seq<T>, b: Seq<T>) -> bool
    decreases a.len() + b.len(),
{
    if a.len() == 0 {
        true
    } else if b.len() == 0 {
        false
    } else if a[0] == b[0] {
        is_subsequence(a.drop_first(), b.drop_first()) || is_subsequence(a, b.drop_first())
    } else {
        is_subsequence(a, b.drop_first())
    }
}

/// Every sequence is a subsequence of itself.
pub proof fn lemma_subseq_refl<T>(a: Seq<T>)
    ensures
        is_subsequence(a, a),
    decreases a.len(),
{
    if a.len() > 0 {
        lemma_subseq_refl(a.drop_first());
    }
}

/// A subsequence of `b` is also one of `b` with an element put in front.
pub proof fn lemma_subseq_cons<T>(a: Seq<T>, b: Seq<T>, x: T)
    requires
        is_subsequence(a, b),
    ensures
        is_subsequence(a, seq![x] + b),
{
    let xb = seq![x] + b;
    assert(xb.drop_first() =~= b);
    if a.len() > 0 {
        assert(is_subsequence(a, xb));
    }
}

/// The subsequence relation is transitive.
pub proof fn lemma_subseq_trans<T>(a: Seq<T>, b: Seq<T>, c: Seq<T>)
    requires
        is_subsequence(a, b),
        is_subsequence(b, c),
    ensures
        is_subsequence(a, c),
    decreases a.len() + b.len() + c.len(),
{
    if a.len() == 0 {
    } else if b.len() == 0 {
    } else if c.len() == 0 {
    } else {
        if b[0] == c[0] && is_subsequence(b.drop_first(), c.drop_first()) {
            if a[0] == b[0] && is_subsequence(a.drop_first(), b.drop_first()) {
                lemma_subseq_trans(a.drop_first(), b.drop_first(), c.drop_first());
                assert(is_subsequence(a, c));
            } else {
                assert(is_subsequence(a, b.drop_first()));
                lemma_subseq_trans(a, b.drop_first(), c.drop_first());
                lemma_subseq_cons(a, c.drop_first(), c[0]);
                assert(seq![c[0]] + c.drop_first() =~= c);
            }
        } else {
            assert(is_subsequence(b, c.drop_first()));
            lemma_subseq_trans(a, b, c.drop_first());
            lemma_subseq_cons(a, c.drop_first(), c[0]);
            assert(seq![c[0]] + c.drop_first() =~= c);
        }
    }
}

/// What filtering keeps is a subsequence of what it was given.
pub proof fn lemma_kept_from_subseq<T>(s: Seq<T>, keep: spec_fn(Seq<T>, int) -> bool, i: int)
    requires
        0 <= i <= s.len(),
    ensures
        is_subsequence(kept_from(s, keep, i), s.subrange(i, s.len() as int)),
    decreases s.len() - i,
{
    if i == s.len() {
    } else {
        lemma_kept_from_subseq(s, keep, i + 1);
        let tail = s.subrange(i + 1, s.len() as int);
        let whole = s.subrange(i, s.len() as int);
        assert(whole.drop_first() =~= tail);
        if keep(s, i) {
            let k = kept_from(s, keep, i);
            assert(k == seq![s[i]] + kept_from(s, keep, i + 1));
            assert(k[0] == whole[0]);
            assert(k.drop_first() =~= kept_from(s, keep, i + 1));
            assert(is_subsequence(k.drop_first(), whole.drop_first()));
        } else {
            lemma_subseq_cons(kept_from(s, keep, i), tail, s[i]);
            assert(seq![s[i]] + tail =~= whole);
        }
    }
}

/// What filtering keeps is a subsequence of the original sequence.
pub proof fn lemma_kept_subseq<T>(s: Seq<T>, keep: spec_fn(Seq<T>, int) -> bool)
    ensures
        is_subsequence(kept(s, keep), s),
{
    lemma_kept_from_subseq(s, keep, 0);
    assert(s.subrange(0, s.len() as int) =~= s);
}

/// A prefix of a sequence is a subsequence of it.
pub proof fn lemma_take_subseq<T>(s: Seq<T>, n: int)
    requires
        0 <= n <= s.len(),
    ensures
        is_subsequence(s.take(n), s),
    decreases s.len(),
{
    if n == 0 {
    } else {
        lemma_take_subseq(s.drop_first(), n - 1);
        assert(s.take(n).drop_first() =~= s.drop_first().take(n - 1));
        assert(is_subsequence(s.take(n), s));
    }
}

/// Cutting a contiguous span out of a sequence leaves a subsequence of it.
pub proof fn lemma_cut_span_subseq<T>(s: Seq<T>, x: int, y: int)
    requires
        0 <= x <= y <= s.len(),
    ensures
        is_subsequence(s.subrange(0, x) + s.subrange(y, s.len() as int), s),
    decreases s.len(),
{
    let r = s.subrange(0, x) + s.subrange(y, s.len() as int);
    if x == 0 {
        if y == 0 {
            lemma_subseq_refl(s);
            assert(r =~= s);
        } else {
            lemma_cut_span_subseq(s.drop_first(), 0, y - 1);
            let r2 = s.drop_first().subrange(0, 0) + s.drop_first().subrange(
                y - 1,
                s.drop_first().len() as int,
            );
            assert(r2 =~= r);
            lemma_subseq_cons(r, s.drop_first(), s[0]);
            assert(seq![s[0]] + s.drop_first() =~= s);
        }
    } else {
        lemma_cut_span_subseq(s.drop_first(), x - 1, y - 1);
        let r2 = s.drop_first().subrange(0, x - 1) + s.drop_first().subrange(
            y - 1,
            s.drop_first().len() as int,
        );
        if r.len() > 0 {
            assert(r[0] == s[0]);
            assert(r.drop_first() =~= r2);
            assert(is_subsequence(r.drop_first(), s.drop_first()));
        }
    }
}

} // verus!
