//! Searching and thinning sequences: the first element with a property, and
//! what a filter keeps.

use vstd::prelude::*;

verus! {

/// The index of the first element of `s` for which `pred` holds, or the
/// length of `s` where it holds for none.
pub open spec fn first_index<A>(s: Seq<A>, pred: spec_fn(A) -> bool) -> int
    decreases s.len(),
{
    if s.len() == 0 {
        0
    } else {
        let before = first_index(s.drop_last(), pred);
        if before < s.len() - 1 {
            before
        } else if pred(s.last()) {
            s.len() - 1
        } else {
            s.len() as int
        }
    }
}

/// `k` is the index of the first element of `s` for which `pred` holds, or
/// the length of `s` where it holds for none.
pub open spec fn is_first_index<A>(s: Seq<A>, pred: spec_fn(A) -> bool, k: int) -> bool {
    &&& 0 <= k <= s.len()
    &&& forall|j: int| 0 <= j < k ==> !pred(#[trigger] s[j])
    &&& k < s.len() ==> pred(s[k])
}

/// `first_index` is the first index.
pub proof fn lemma_first_index<A>(s: Seq<A>, pred: spec_fn(A) -> bool)
    ensures
        is_first_index(s, pred, first_index(s, pred)),
    decreases s.len(),
{
    if s.len() > 0 {
        lemma_first_index(s.drop_last(), pred);
        let before = first_index(s.drop_last(), pred);
        assert forall|j: int| 0 <= j < first_index(s, pred) implies !pred(#[trigger] s[j]) by {
            if j < s.len() - 1 {
                assert(s.drop_last()[j] == s[j]);
            }
        }
        if before < s.len() - 1 {
            assert(s.drop_last()[before] == s[before]);
        }
    }
}

/// Only one index is the first index.
pub proof fn lemma_first_index_is<A>(s: Seq<A>, pred: spec_fn(A) -> bool, k: int)
    requires
        is_first_index(s, pred, k),
    ensures
        first_index(s, pred) == k,
{
    lemma_first_index(s, pred);
    let f = first_index(s, pred);
    if f < k {
        assert(!pred(s[f]));
    } else if k < f {
        assert(!pred(s[k]));
    }
}

/// What a filter keeps: exactly the elements for which `pred` holds, each
/// as often as before and in the order in which they stood. Stated by the
/// places they came from: `origin(i)` is where the `i`-th kept element stood.
pub open spec fn is_kept_from<A>(
    s: Seq<A>,
    pred: spec_fn(A) -> bool,
    kept: Seq<A>,
    origin: Seq<int>,
) -> bool {
    &&& origin.len() == kept.len()
    &&& forall|i: int| 0 <= i < kept.len() ==> 0 <= #[trigger] origin[i] < s.len()
    &&& forall|i: int| 0 <= i < kept.len() ==> kept[i] == s[#[trigger] origin[i]]
    &&& forall|i: int, j: int| 0 <= i < j < kept.len() ==> #[trigger] origin[i] < #[trigger] origin[j]
    &&& forall|i: int| 0 <= i < kept.len() ==> pred(#[trigger] kept[i])
    &&& forall|m: int| 0 <= m < s.len() && pred(#[trigger] s[m]) ==> origin.contains(m)
}

/// The places in `s` that the elements of `s.filter(pred)` came from.
pub open spec fn origins<A>(s: Seq<A>, pred: spec_fn(A) -> bool) -> Seq<int>
    decreases s.len(),
{
    if s.len() == 0 {
        Seq::empty()
    } else if pred(s.last()) {
        origins(s.drop_last(), pred).push(s.len() - 1)
    } else {
        origins(s.drop_last(), pred)
    }
}

/// A filter keeps the elements for which `pred` holds, in their order.
pub proof fn lemma_filter_kept<A>(s: Seq<A>, pred: spec_fn(A) -> bool)
    ensures
        is_kept_from(s, pred, s.filter(pred), origins(s, pred)),
    decreases s.len(),
{
    reveal(Seq::filter);
    if s.len() > 0 {
        let rest = s.drop_last();
        lemma_filter_kept(rest, pred);
        let kept = s.filter(pred);
        let origin = origins(s, pred);
        let kept0 = rest.filter(pred);
        let origin0 = origins(rest, pred);
        assert forall|i: int| 0 <= i < kept.len() implies kept[i] == s[#[trigger] origin[i]] by {
            if i < kept0.len() {
                assert(kept0[i] == rest[origin0[i]]);
            }
        }
        assert forall|m: int| 0 <= m < s.len() && pred(#[trigger] s[m]) implies origin.contains(
            m,
        ) by {
            if m < s.len() - 1 {
                assert(rest[m] == s[m]);
                assert(origin0.contains(m));
                let i = choose|i: int| 0 <= i < origin0.len() && origin0[i] == m;
                assert(origin[i] == m);
            } else {
                assert(origin[origin.len() - 1] == m);
            }
        }
        assert forall|i: int| 0 <= i < kept.len() implies pred(#[trigger] kept[i]) by {
            if i < kept0.len() {
                assert(pred(kept0[i]));
            }
        }
    }
}

/// Filtering the first `i + 1` elements is filtering the first `i` and then
/// keeping or dropping the next one.
pub proof fn lemma_filter_next<A>(s: Seq<A>, pred: spec_fn(A) -> bool, i: int)
    requires
        0 <= i < s.len(),
    ensures
        s.take(i + 1).filter(pred) == if pred(s[i]) {
            s.take(i).filter(pred).push(s[i])
        } else {
            s.take(i).filter(pred)
        },
{
    reveal(Seq::filter);
    assert(s.take(i + 1).drop_last() =~= s.take(i));
}

/// The sequence with its first `k` elements thinned by a filter and the
/// elements behind them as they were.
pub open spec fn thinned_front<A>(s: Seq<A>, k: int, pred: spec_fn(A) -> bool) -> Seq<A> {
    s.take(k).filter(pred) + s.skip(k)
}

/// Thinning the front of a sequence brings nothing into it, and thinning
/// all of it is filtering it.
pub proof fn lemma_thinned_front<A>(s: Seq<A>, k: int, pred: spec_fn(A) -> bool)
    requires
        0 <= k <= s.len(),
    ensures
        forall|i: int|
            0 <= i < thinned_front(s, k, pred).len() ==> s.contains(
                #[trigger] thinned_front(s, k, pred)[i],
            ),
        k == s.len() ==> thinned_front(s, k, pred) == s.filter(pred),
{
    let front = s.take(k).filter(pred);
    let all = thinned_front(s, k, pred);
    lemma_filter_kept(s.take(k), pred);
    let origin = origins(s.take(k), pred);
    assert forall|i: int| 0 <= i < all.len() implies s.contains(#[trigger] all[i]) by {
        if i < front.len() {
            assert(front[i] == s.take(k)[origin[i]]);
            assert(s[origin[i]] == all[i]);
        } else {
            assert(s[k + (i - front.len())] == all[i]);
        }
    }
    if k == s.len() {
        assert(s.take(k) =~= s);
        assert(all =~= s.filter(pred));
    }
}

} // verus!
