//! Small lemmas about `Seq::filter` over growing prefixes, used by the loops
//! that compute filtered projections of the store.

use vstd::prelude::*;

verus! {

/// Filtering a one-step-longer prefix extends the filtered sequence by the new
/// element exactly when the predicate holds of it.
pub proof fn lemma_filter_take_step<A>(s: Seq<A>, pred: spec_fn(A) -> bool, i: int)
    requires
        0 <= i < s.len(),
    ensures
        s.take(i + 1).filter(pred) == if pred(s[i]) {
            s.take(i).filter(pred).push(s[i])
        } else {
            s.take(i).filter(pred)
        },
{
    let a = s.take(i);
    let b = seq![s[i]];
    assert(s.take(i + 1) =~= a + b);
    Seq::<A>::filter_distributes_over_add(a, b, pred);
    reveal_with_fuel(Seq::filter, 2);
    assert(b.drop_last() =~= Seq::<A>::empty());
    if pred(s[i]) {
        assert(b.filter(pred) =~= seq![s[i]]);
        assert(a.filter(pred) + seq![s[i]] =~= a.filter(pred).push(s[i]));
    } else {
        assert(b.filter(pred) =~= Seq::<A>::empty());
        assert(a.filter(pred) + b.filter(pred) =~= a.filter(pred));
    }
}

/// Taking the whole sequence is the sequence itself, stated for `filter`
/// so that loop postconditions connect to contracts over `s.filter(pred)`.
pub proof fn lemma_filter_take_all<A>(s: Seq<A>, pred: spec_fn(A) -> bool)
    ensures
        s.take(s.len() as int).filter(pred) == s.filter(pred),
{
    assert(s.take(s.len() as int) =~= s);
}

/// Filtering keeps a duplicate-free sequence duplicate-free.
pub proof fn lemma_filter_no_duplicates<A>(s: Seq<A>, pred: spec_fn(A) -> bool)
    requires
        s.no_duplicates(),
    ensures
        s.filter(pred).no_duplicates(),
    decreases s.len(),
{
    reveal(Seq::filter);
    if s.len() > 0 {
        let rest = s.drop_last();
        let last = s.last();
        assert(rest.no_duplicates());
        lemma_filter_no_duplicates(rest, pred);
        if pred(last) {
            let fr = rest.filter(pred);
            assert(!fr.contains(last)) by {
                if fr.contains(last) {
                    rest.lemma_filter_contains_rev(pred, last);
                    let j = choose|j: int| 0 <= j < rest.len() && rest[j] == last;
                    assert(s[j] == s[s.len() - 1]);
                }
            }
            let out = fr.push(last);
            assert forall|i: int, j: int| 0 <= i < j < out.len() implies out[i] != out[j] by {
                if j == out.len() - 1 {
                    if out[i] == last {
                        assert(fr.contains(last));
                    }
                }
            }
        }
    }
}

/// If every element of a duplicate-free sequence that satisfies `pred` equals
/// `x`, and `x` occurs, the filtered sequence is exactly one element long.
pub proof fn lemma_distinct_filter_single<A>(s: Seq<A>, x: A, pred: spec_fn(A) -> bool)
    requires
        s.no_duplicates(),
        s.contains(x),
        forall|y: A| #[trigger] pred(y) <==> y == x,
    ensures
        s.filter(pred).len() == 1,
    decreases s.len(),
{
    reveal(Seq::filter);
    if s.len() > 0 {
        let rest = s.drop_last();
        assert(rest.no_duplicates());
        if s.last() == x {
            assert(!rest.contains(x)) by {
                if rest.contains(x) {
                    let j = choose|j: int| 0 <= j < rest.len() && rest[j] == x;
                    assert(s[j] == x && s[s.len() - 1] == x);
                }
            }
            lemma_distinct_filter_none(rest, x, pred);
            assert(pred(s.last()));
        } else {
            assert(rest.contains(x)) by {
                let j = choose|j: int| 0 <= j < s.len() && s[j] == x;
                assert(rest[j] == x);
            }
            lemma_distinct_filter_single(rest, x, pred);
            assert(!pred(s.last()));
        }
    }
}

/// If `x` does not occur and `pred` holds only of `x`, filtering yields
/// nothing.
pub proof fn lemma_distinct_filter_none<A>(s: Seq<A>, x: A, pred: spec_fn(A) -> bool)
    requires
        !s.contains(x),
        forall|y: A| #[trigger] pred(y) <==> y == x,
    ensures
        s.filter(pred).len() == 0,
    decreases s.len(),
{
    reveal(Seq::filter);
    if s.len() > 0 {
        let rest = s.drop_last();
        assert(!rest.contains(x)) by {
            if rest.contains(x) {
                let j = choose|j: int| 0 <= j < rest.len() && rest[j] == x;
                assert(s[j] == x);
            }
        }
        assert(s[s.len() - 1] != x);
        lemma_distinct_filter_none(rest, x, pred);
        assert(!pred(s.last()));
    }
}

/// Filtering preserves any pairwise relation that held between the elements
/// of the original sequence, in order.
pub proof fn lemma_filter_pairwise<A>(
    s: Seq<A>,
    pred: spec_fn(A) -> bool,
    rel: spec_fn(A, A) -> bool,
)
    requires
        forall|i: int, j: int| 0 <= i < j < s.len() ==> rel(#[trigger] s[i], #[trigger] s[j]),
    ensures
        forall|i: int, j: int|
            0 <= i < j < s.filter(pred).len() ==> rel(
                #[trigger] s.filter(pred)[i],
                #[trigger] s.filter(pred)[j],
            ),
    decreases s.len(),
{
    reveal(Seq::filter);
    if s.len() > 0 {
        let rest = s.drop_last();
        let last = s.last();
        assert(forall|i: int, j: int|
            0 <= i < j < rest.len() ==> rel(#[trigger] rest[i], #[trigger] rest[j])) by {
            assert(forall|i: int| 0 <= i < rest.len() ==> rest[i] == s[i]);
        }
        lemma_filter_pairwise(rest, pred, rel);
        let fr = rest.filter(pred);
        if pred(last) {
            let out = fr.push(last);
            assert forall|i: int, j: int| 0 <= i < j < out.len() implies rel(out[i], out[j]) by {
                if j == out.len() - 1 {
                    assert(fr.contains(out[i]));
                    rest.lemma_filter_contains_rev(pred, out[i]);
                    let k = choose|k: int| 0 <= k < rest.len() && rest[k] == out[i];
                    assert(rel(s[k], s[s.len() - 1]));
                }
            }
        }
    }
}

/// Every element of a filtered sequence occurs in the original.
pub proof fn lemma_filter_elements<A>(s: Seq<A>, pred: spec_fn(A) -> bool)
    ensures
        forall|i: int|
            0 <= i < s.filter(pred).len() ==> s.contains(#[trigger] s.filter(pred)[i]),
{
    assert forall|i: int|
        0 <= i < s.filter(pred).len() implies s.contains(#[trigger] s.filter(pred)[i]) by {
        assert(s.filter(pred).contains(s.filter(pred)[i]));
        s.lemma_filter_contains_rev(pred, s.filter(pred)[i]);
    }
}

} // verus!
