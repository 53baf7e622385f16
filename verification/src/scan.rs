//! Two searches that the layout and the viewport both need: the first index with a
//! property, and the first index where a key is least.

use vstd::prelude::*;

verus! {

/// The least index below `n` at which `p` holds, or `n` if there is none.
pub open spec fn first_where(n: int, p: spec_fn(int) -> bool) -> int
    decreases n,
{
    if n <= 0 {
        0
    } else {
        let earlier = first_where(n - 1, p);
        if earlier < n - 1 {
            earlier
        } else if p(n - 1) {
            n - 1
        } else {
            n
        }
    }
}

/// What `first_where` finds: an index where `p` holds with none before it, or `n`
/// where `p` holds nowhere.
pub proof fn lemma_first_where(n: int, p: spec_fn(int) -> bool)
    requires
        0 <= n,
    ensures
        0 <= first_where(n, p) <= n,
        first_where(n, p) < n ==> p(first_where(n, p)),
        forall|k: int| 0 <= k < first_where(n, p) ==> !#[trigger] p(k),
    decreases n,
{
    if n > 0 {
        lemma_first_where(n - 1, p);
    }
}

/// An index where `p` holds with none before it is what `first_where` finds.
pub proof fn lemma_first_where_found(n: int, p: spec_fn(int) -> bool, k: int)
    requires
        0 <= k < n,
        p(k),
        forall|j: int| 0 <= j < k ==> !#[trigger] p(j),
    ensures
        first_where(n, p) == k,
{
    lemma_first_where(n, p);
}

/// Where `p` holds nowhere, `first_where` finds nothing.
pub proof fn lemma_first_where_none(n: int, p: spec_fn(int) -> bool)
    requires
        0 <= n,
        forall|j: int| 0 <= j < n ==> !#[trigger] p(j),
    ensures
        first_where(n, p) == n,
{
    lemma_first_where(n, p);
}

/// The least index below `n` whose key is the least of all keys below `n`; `None` where
/// no index below `n` has a key.
pub open spec fn first_least(n: int, key: spec_fn(int) -> Option<int>) -> Option<int>
    decreases n,
{
    if n <= 0 {
        None
    } else {
        match (first_least(n - 1, key), key(n - 1)) {
            (Some(b), Some(d)) => if d < key(b).unwrap() {
                Some(n - 1)
            } else {
                Some(b)
            },
            (Some(b), None) => Some(b),
            (None, Some(d)) => Some(n - 1),
            (None, None) => None,
        }
    }
}

/// What `first_least` finds: an index with a key, below which every key is greater and
/// after which none is smaller.
pub proof fn lemma_first_least(n: int, key: spec_fn(int) -> Option<int>)
    requires
        0 <= n,
    ensures
        match first_least(n, key) {
            Some(b) => {
                &&& 0 <= b < n
                &&& key(b).is_some()
                &&& forall|j: int|
                    0 <= j < n && key(j).is_some() ==> key(b).unwrap() <= (#[trigger] key(j)).unwrap()
                &&& forall|j: int|
                    0 <= j < b && key(j).is_some() ==> key(b).unwrap() < (#[trigger] key(j)).unwrap()
            },
            None => forall|j: int| 0 <= j < n ==> (#[trigger] key(j)).is_none(),
        },
    decreases n,
{
    if n > 0 {
        lemma_first_least(n - 1, key);
    }
}

/// What `filter_map` keeps: whatever an element is mapped to is in the result, and
/// whatever is in the result is what some element is mapped to.
pub proof fn lemma_filter_map_members<A, B>(s: Seq<A>, f: spec_fn(A) -> Option<B>)
    ensures
        forall|j: int|
            0 <= j < s.len() && f(#[trigger] s[j]).is_some() ==> s.filter_map(f).contains(
                f(s[j]).unwrap(),
            ),
        forall|k: int|
            0 <= k < s.filter_map(f).len() ==> exists|j: int|
                0 <= j < s.len() && f(s[j]) == Some(#[trigger] s.filter_map(f)[k]),
        s.filter_map(f).len() <= s.len(),
    decreases s.len(),
{
    if s.len() > 0 {
        let rest = s.drop_last();
        let last = s.last();
        lemma_filter_map_members(rest, f);
        let kept = rest.filter_map(f);
        let all = s.filter_map(f);
        assert(all == match f(last) {
            Some(b) => kept + seq![b],
            None => kept,
        });
        assert forall|j: int| 0 <= j < s.len() && f(#[trigger] s[j]).is_some() implies all.contains(
            f(s[j]).unwrap(),
        ) by {
            if j < rest.len() {
                assert(rest[j] == s[j]);
                assert(kept.contains(f(rest[j]).unwrap()));
                let k = choose|k: int| 0 <= k < kept.len() && kept[k] == f(rest[j]).unwrap();
                assert(all[k] == kept[k]);
            } else {
                assert(all[all.len() - 1] == f(last).unwrap());
            }
        }
        assert forall|k: int| 0 <= k < all.len() implies exists|j: int|
            0 <= j < s.len() && f(s[j]) == Some(#[trigger] all[k]) by {
            if k < kept.len() {
                let j = choose|j: int| 0 <= j < rest.len() && f(rest[j]) == Some(kept[k]);
                assert(rest[j] == s[j]);
                assert(f(s[j]) == Some(all[k]));
            } else {
                assert(f(s[s.len() - 1]) == Some(all[k]));
            }
        }
    }
}

/// Where `filter_map` drops nothing, it maps element by element.
pub proof fn lemma_filter_map_total<A, B>(s: Seq<A>, f: spec_fn(A) -> Option<B>)
    ensures
        s.filter_map(f).len() <= s.len(),
        s.filter_map(f).len() == s.len() <==> forall|j: int|
            0 <= j < s.len() ==> f(#[trigger] s[j]).is_some(),
        s.filter_map(f).len() == s.len() ==> forall|j: int|
            0 <= j < s.len() ==> f(s[j]) == Some(#[trigger] s.filter_map(f)[j]),
    decreases s.len(),
{
    if s.len() > 0 {
        let rest = s.drop_last();
        let last = s.last();
        lemma_filter_map_total(rest, f);
        let kept = rest.filter_map(f);
        let all = s.filter_map(f);
        assert(all == match f(last) {
            Some(b) => kept + seq![b],
            None => kept,
        });
        if all.len() == s.len() {
            assert(f(last).is_some());
            assert(kept.len() == rest.len());
            assert forall|j: int| 0 <= j < s.len() implies f(#[trigger] s[j]).is_some() && f(s[j])
                == Some(all[j]) by {
                if j < rest.len() {
                    assert(rest[j] == s[j]);
                    assert(f(rest[j]) == Some(kept[j]));
                }
            }
        }
        if forall|j: int| 0 <= j < s.len() ==> f(#[trigger] s[j]).is_some() {
            assert forall|j: int| 0 <= j < rest.len() implies f(#[trigger] rest[j]).is_some() by {
                assert(rest[j] == s[j]);
            }
            assert(f(s[s.len() - 1]).is_some());
        }
    }
}

} // verus!
