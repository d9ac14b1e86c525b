//! A bounded queue kept sorted by key, over `arrayvec::ArrayVec`: the chunks
//! waiting for generation, nearest first.
use vstd::prelude::*;

use arrayvec::ArrayVec;
use vstd::multiset::Multiset;

verus! {

#[verifier::external_type_specification]
#[verifier::external_body]
#[verifier::reject_recursive_types(T)]
pub struct ExArrayVec<T, const CAP: usize>(ArrayVec<T, CAP>);

/// How many chunks are generated per frame: the capacity of the queue of
/// generation candidates.
pub const MAX_CHUNK_GEN_PER_FRAME: usize = 2;

/// The elements of a queue of generation candidates (distance, entity bits),
/// front first.
pub uninterp spec fn queue_items(v: ArrayVec<(u32, u64), 2>) -> Seq<(u32, u64)>;

/// `ArrayVec::as_slice`: the elements, front first. The source keeps the
/// length at most the capacity.
#[verifier::external_body]
fn queue_as_slice(v: &ArrayVec<(u32, u64), 2>) -> (r: &[(u32, u64)])
    ensures
        r@ == queue_items(*v),
        r@.len() <= MAX_CHUNK_GEN_PER_FRAME,
{
    v.as_slice()
}

/// `ArrayVec::pop`: removes and returns the last element, or returns `None`
/// on an empty vector.
#[verifier::external_body]
fn queue_pop(v: &mut ArrayVec<(u32, u64), 2>) -> (r: Option<(u32, u64)>)
    ensures
        queue_items(*old(v)).len() == 0 ==> r is None && queue_items(*final(v)) == queue_items(*old(v)),
        queue_items(*old(v)).len() > 0 ==> r == Some(queue_items(*old(v)).last()) && queue_items(
            *final(v),
        ) == queue_items(*old(v)).drop_last(),
{
    v.pop()
}

/// `ArrayVec::insert`: shifts the elements from `index` on up by one and
/// writes `element` at `index`. It panics when the vector is full or
/// `index` exceeds the length; `requires` leaves those inputs out.
#[verifier::external_body]
fn queue_insert(v: &mut ArrayVec<(u32, u64), 2>, index: usize, element: (u32, u64))
    requires
        index <= queue_items(*old(v)).len(),
        queue_items(*old(v)).len() < MAX_CHUNK_GEN_PER_FRAME,
    ensures
        queue_items(*final(v)) == queue_items(*old(v)).insert(index as int, element),
{
    v.insert(index, element)
}

/// The key that a deterministic `key` gives `t`.
pub open spec fn key_of<T, F: Fn(&T) -> u32>(key: F, t: T) -> u32 {
    choose|k: u32| key.ensures((&t,), k)
}

/// Whether `key` gives one key per element.
pub open spec fn key_deterministic<T, F: Fn(&T) -> u32>(key: F) -> bool {
    forall|t: &T, k1: u32, k2: u32|
        #![trigger key.ensures((t,), k1), key.ensures((t,), k2)]
        key.ensures((t,), k1) && key.ensures((t,), k2) ==> k1 == k2
}

/// Whether the keys of `s` never decrease from front to back.
pub open spec fn sorted_by<T, F: Fn(&T) -> u32>(s: Seq<T>, key: F) -> bool {
    forall|i: int, j: int| 0 <= i <= j < s.len() ==> key_of(key, s[i]) <= key_of(key, s[j])
}

/// The number of elements of `s` whose key is below `k`: on a sorted `s`,
/// the position of the first element whose key is at least `k`.
pub open spec fn lower_bound<T, F: Fn(&T) -> u32>(s: Seq<T>, key: F, k: u32) -> int {
    s.filter(|t: T| key_of(key, t) < k).len() as int
}

/// What inserting `elem` at position `p` of a queue of capacity `N` leaves
/// in the queue and hands back: nothing changes and `elem` comes back when
/// `p` is the capacity; otherwise a full queue first drops and hands back its
/// last element.
pub open spec fn insert_outcome<T>(s: Seq<T>, elem: T, p: int, n: int) -> (Seq<T>, Option<T>) {
    if p == n {
        (s, Some(elem))
    } else if s.len() == n {
        (s.drop_last().insert(p, elem), Some(s.last()))
    } else {
        (s.insert(p, elem), None)
    }
}

/// Insertion that keeps a bounded vector ordered by key.
pub trait ArrayVecExt<T, const N: usize>: Sized {
    /// Inserts `elem` before the first element whose key is not below its
    /// own, dropping the last element when the vector is full; returns the
    /// element that no longer fits, if any.
    fn insert_by_key<F: Fn(&T) -> u32>(&mut self, elem: T, key: F) -> Option<T>
        requires
            forall|t: &T| key.requires((t,)),
            key_deterministic(key),
    ;
}

impl ArrayVecExt<(u32, u64), 2> for ArrayVec<(u32, u64), 2> {
    fn insert_by_key<F: Fn(&(u32, u64)) -> u32>(&mut self, elem: (u32, u64), key: F) -> (r: Option<
        (u32, u64),
    >)
        ensures
            queue_items(*old(self)).len() <= MAX_CHUNK_GEN_PER_FRAME,
            queue_items(*final(self)).len() <= MAX_CHUNK_GEN_PER_FRAME,
            queue_items(*old(self)).len() < MAX_CHUNK_GEN_PER_FRAME ==> r is None && queue_items(
                *final(self),
            ).len() == queue_items(*old(self)).len() + 1,
            queue_items(*old(self)).len() == MAX_CHUNK_GEN_PER_FRAME ==> r is Some && queue_items(
                *final(self),
            ).len() == MAX_CHUNK_GEN_PER_FRAME,
            queue_items(*final(self)).to_multiset().add(handed_back(r)) == queue_items(
                *old(self),
            ).to_multiset().insert(elem),
            exists|p: int|
                0 <= p <= queue_items(*old(self)).len() && (sorted_by(queue_items(*old(self)), key)
                    ==> p == lower_bound(queue_items(*old(self)), key, key_of(key, elem))) && (
                queue_items(*final(self)), r) == insert_outcome(
                    queue_items(*old(self)),
                    elem,
                    p,
                    MAX_CHUNK_GEN_PER_FRAME as int,
                ),
    {
        let ghost s = queue_items(*self);
        let target = key(&elem);
        proof {
            assert(target == key_of(key, elem));
        }
        let items = queue_as_slice(self);
        let len = items.len();
        let mut lo: usize = 0;
        let mut hi: usize = len;
        while lo < hi
            invariant
                0 <= lo <= hi <= len,
                len == s.len(),
                items@ == s,
                forall|t: &(u32, u64)| key.requires((t,)),
                key_deterministic(key),
                target == key_of(key, elem),
                sorted_by(s, key) ==> forall|i: int| 0 <= i < lo ==> #[trigger] key_of(key, s[i]) < target,
                sorted_by(s, key) ==> forall|i: int| hi <= i < len ==> #[trigger] key_of(key, s[i]) >= target,
            decreases hi - lo,
        {
            let mid = lo + (hi - lo) / 2;
            let k = key(&items[mid]);
            proof {
                assert(k == key_of(key, s[mid as int]));
            }
            if k < target {
                lo = mid + 1;
            } else {
                hi = mid;
            }
        }
        let index = lo;
        proof {
            if sorted_by(s, key) {
                lemma_lower_bound(s, key, target, index as int);
            }
        }
        let r = if index == MAX_CHUNK_GEN_PER_FRAME {
            Some(elem)
        } else {
            let popped = if len == MAX_CHUNK_GEN_PER_FRAME {
                queue_pop(self)
            } else {
                None
            };
            queue_insert(self, index, elem);
            popped
        };
        proof {
            let p = index as int;
            assert((queue_items(*self), r) == insert_outcome(s, elem, p, MAX_CHUNK_GEN_PER_FRAME as int));
            lemma_insert_outcome(s, elem, p, MAX_CHUNK_GEN_PER_FRAME as int);
        }
        r
    }
}

/// On a sorted sequence, a position with smaller keys before it and larger
/// or equal keys from it on is the lower bound.
proof fn lemma_lower_bound<T, F: Fn(&T) -> u32>(s: Seq<T>, key: F, k: u32, p: int)
    requires
        0 <= p <= s.len(),
        forall|i: int| 0 <= i < p ==> #[trigger] key_of(key, s[i]) < k,
        forall|i: int| p <= i < s.len() ==> #[trigger] key_of(key, s[i]) >= k,
    ensures
        p == lower_bound(s, key, k),
    decreases s.len(),
{
    let pred = |t: T| key_of(key, t) < k;
    if s.len() == 0 {
        assert(s.filter(pred) =~= Seq::<T>::empty());
    } else {
        let last = s.last();
        let init = s.drop_last();
        assert(s =~= init.push(last));
        if p == s.len() {
            lemma_lower_bound(init, key, k, p - 1);
            assert(init.filter(pred).len() == p - 1);
            init.lemma_filter_push(last, pred);
        } else {
            lemma_lower_bound(init, key, k, p);
            init.lemma_filter_push(last, pred);
        }
    }
}

/// The element handed back, as a multiset.
pub open spec fn handed_back<T>(r: Option<T>) -> Multiset<T> {
    match r {
        Some(x) => Multiset::singleton(x),
        None => Multiset::empty(),
    }
}

/// The first position from `q` on whose key is not below `k`, or the length.
proof fn first_not_below<T, F: Fn(&T) -> u32>(s: Seq<T>, key: F, k: u32, q: int) -> (r: int)
    requires
        0 <= q <= s.len(),
        forall|i: int| 0 <= i < q ==> #[trigger] key_of(key, s[i]) < k,
    ensures
        q <= r <= s.len(),
        forall|i: int| 0 <= i < r ==> #[trigger] key_of(key, s[i]) < k,
        r < s.len() ==> key_of(key, s[r]) >= k,
    decreases s.len() - q,
{
    if q < s.len() && key_of(key, s[q]) < k {
        first_not_below(s, key, k, q + 1)
    } else {
        q
    }
}

/// On a sorted sequence, the lower bound of a key splits it into the
/// elements with smaller keys and those with keys at least as large.
proof fn lemma_sorted_partition<T, F: Fn(&T) -> u32>(s: Seq<T>, key: F, k: u32)
    requires
        sorted_by(s, key),
    ensures
        0 <= lower_bound(s, key, k) <= s.len(),
        forall|i: int| 0 <= i < lower_bound(s, key, k) ==> #[trigger] key_of(key, s[i]) < k,
        forall|i: int| lower_bound(s, key, k) <= i < s.len() ==> #[trigger] key_of(key, s[i]) >= k,
{
    let q = first_not_below(s, key, k, 0);
    assert forall|i: int| q <= i < s.len() implies #[trigger] key_of(key, s[i]) >= k by {
        assert(key_of(key, s[q]) <= key_of(key, s[i]));
    }
    lemma_lower_bound(s, key, k, q);
}

/// Inserting at any position of a queue of capacity `n` loses no element:
/// what is kept plus what is handed back is what was there plus the new
/// element. A queue with room takes the element at that position, grows by
/// one and hands nothing back; a full queue stays full and hands one
/// element back.
pub proof fn lemma_insert_outcome<T>(s: Seq<T>, elem: T, p: int, n: int)
    requires
        1 <= n,
        0 <= p <= s.len() <= n,
    ensures
        ({
            let (kept, back) = insert_outcome(s, elem, p, n);
            &&& kept.to_multiset().add(handed_back(back)) == s.to_multiset().insert(elem)
            &&& s.len() < n ==> back is None && kept == s.insert(p, elem) && kept.len() == s.len() + 1
            &&& s.len() == n ==> back is Some && kept.len() == n
        }),
{
    broadcast use vstd::multiset::group_multiset_axioms;
    broadcast use vstd::seq_lib::to_multiset_insert;
    broadcast use vstd::seq_lib::to_multiset_build;

    let (kept, back) = insert_outcome(s, elem, p, n);
    if p == n {
        assert(kept.to_multiset().add(handed_back(back)) =~= s.to_multiset().insert(elem));
    } else if s.len() == n {
        let d = s.drop_last();
        assert(s =~= d.push(s.last()));
        assert(d.insert(p, elem).to_multiset() == d.to_multiset().insert(elem));
        assert(s.to_multiset() == d.to_multiset().insert(s.last()));
        assert(kept.to_multiset().add(handed_back(back)) =~= s.to_multiset().insert(elem));
    } else {
        assert(kept.to_multiset().add(handed_back(back)) =~= s.to_multiset().insert(elem));
    }
}

/// Inserting by key into a sorted queue of capacity `n`, at the lower bound
/// of the new element's key, keeps the queue sorted and within capacity,
/// loses no element (what is kept plus what is handed back is what was there
/// plus the new element), and hands back an element whose key is at least
/// that of every element kept: the queue keeps the `n` smallest keys.
pub proof fn lemma_insert_by_key_keeps_smallest<T, F: Fn(&T) -> u32>(
    s: Seq<T>,
    elem: T,
    key: F,
    n: int,
)
    requires
        sorted_by(s, key),
        1 <= n,
        s.len() <= n,
    ensures
        ({
            let (kept, back) = insert_outcome(s, elem, lower_bound(s, key, key_of(key, elem)), n);
            &&& sorted_by(kept, key)
            &&& kept.len() <= n
            &&& kept.to_multiset().add(handed_back(back)) == s.to_multiset().insert(elem)
            &&& back matches Some(x) ==> forall|i: int|
                0 <= i < kept.len() ==> key_of(key, #[trigger] kept[i]) <= key_of(key, x)
        }),
{
    broadcast use vstd::multiset::group_multiset_axioms;
    broadcast use vstd::seq_lib::to_multiset_insert;
    broadcast use vstd::seq_lib::to_multiset_build;

    let k = key_of(key, elem);
    let p = lower_bound(s, key, k);
    lemma_sorted_partition(s, key, k);
    let (kept, back) = insert_outcome(s, elem, p, n);
    if p == n {
        assert(kept.to_multiset().add(handed_back(back)) =~= s.to_multiset().insert(elem));
    } else if s.len() == n {
        let d = s.drop_last();
        assert(s =~= d.push(s.last()));
        assert(kept == d.insert(p, elem));
        assert forall|i: int, j: int| 0 <= i <= j < kept.len() implies key_of(key, kept[i]) <= key_of(
            key,
            kept[j],
        ) by {
            if i < p && j < p {
                assert(kept[i] == s[i] && kept[j] == s[j]);
            } else if i < p && j == p {
                assert(kept[i] == s[i]);
            } else if i < p {
                assert(kept[i] == s[i] && kept[j] == s[j - 1]);
            } else if i == p && j > p {
                assert(kept[j] == s[j - 1]);
            } else if i > p {
                assert(kept[i] == s[i - 1] && kept[j] == s[j - 1]);
            }
        }
        assert(d.insert(p, elem).to_multiset() == d.to_multiset().insert(elem));
        assert(s.to_multiset() == d.to_multiset().insert(s.last()));
        assert(kept.to_multiset().add(handed_back(back)) =~= s.to_multiset().insert(elem));
        assert forall|i: int| 0 <= i < kept.len() implies key_of(key, #[trigger] kept[i]) <= key_of(
            key,
            s.last(),
        ) by {
            if i < p {
                assert(kept[i] == s[i]);
            } else if i == p {
                assert(key_of(key, s[p]) <= key_of(key, s.last()));
            } else {
                assert(kept[i] == s[i - 1]);
            }
        }
    } else {
        assert(kept == s.insert(p, elem));
        assert forall|i: int, j: int| 0 <= i <= j < kept.len() implies key_of(key, kept[i]) <= key_of(
            key,
            kept[j],
        ) by {
            if i < p && j < p {
                assert(kept[i] == s[i] && kept[j] == s[j]);
            } else if i < p && j == p {
                assert(kept[i] == s[i]);
            } else if i < p {
                assert(kept[i] == s[i] && kept[j] == s[j - 1]);
            } else if i == p && j > p {
                assert(kept[j] == s[j - 1]);
            } else if i > p {
                assert(kept[i] == s[i - 1] && kept[j] == s[j - 1]);
            }
        }
        assert(kept.to_multiset().add(handed_back(back)) =~= s.to_multiset().insert(elem));
    }
}

} // verus!
