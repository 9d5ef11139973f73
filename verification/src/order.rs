//! Orders: positions sorted by a key, those with the same key as they came.

use vstd::prelude::*;
use crate::text;

verus! {

// ---------- by a number, the greatest first ----------

/// Where position `x` goes among ordered ones: behind all with a key as great.
pub open spec fn falling_place(keys: Seq<i128>, idx: Seq<int>, x: int, i: int) -> int
    decreases idx.len() - i,
{
    if 0 <= i < idx.len() && keys[idx[i]] >= keys[x] {
        falling_place(keys, idx, x, i + 1)
    } else {
        i
    }
}

/// The first `n` positions, the one with the greatest key first.
pub open spec fn falling(keys: Seq<i128>, n: int) -> Seq<int>
    decreases n,
{
    if n <= 0 {
        Seq::empty()
    } else {
        let t = falling(keys, n - 1);
        t.insert(falling_place(keys, t, n - 1, 0), n - 1)
    }
}

pub open spec fn keys_fall(keys: Seq<i128>, idx: Seq<int>) -> bool {
    forall|i: int, j: int|
        0 <= i < j < idx.len() ==> keys[#[trigger] idx[i]] >= keys[#[trigger] idx[j]]
}

/// Every position below `n` stands in the list once.
pub open spec fn is_order(idx: Seq<int>, n: int) -> bool {
    &&& idx.len() == n
    &&& idx.no_duplicates()
    &&& forall|k: int| 0 <= k < n ==> idx.contains(k)
    &&& forall|i: int| 0 <= i < idx.len() ==> 0 <= #[trigger] idx[i] < n
}

proof fn one_more_in_order(t: Seq<int>, n: int, p: int)
    requires
        0 <= n,
        is_order(t, n),
        0 <= p <= t.len(),
    ensures
        is_order(t.insert(p, n), n + 1),
{
    let r = t.insert(p, n);
    assert forall|k: int| 0 <= k < n + 1 implies r.contains(k) by {
        if k < n {
            assert(t.contains(k));
            let i = choose|i: int| 0 <= i < t.len() && t[i] == k;
            if i < p {
                assert(r[i] == k);
            } else {
                assert(r[i + 1] == k);
            }
        } else {
            assert(r[p] == n);
        }
    }
    assert forall|i: int, j: int| 0 <= i < r.len() && 0 <= j < r.len() && i != j implies r[i]
        != r[j] by {
        let a = if i < p {
            i
        } else {
            i - 1
        };
        let b = if j < p {
            j
        } else {
            j - 1
        };
        if i != p && j != p {
            assert(t[a] != t[b]);
        } else if i == p {
            assert(0 <= t[b] < n);
        } else {
            assert(0 <= t[a] < n);
        }
    }
    assert forall|i: int| 0 <= i < r.len() implies 0 <= #[trigger] r[i] < n + 1 by {
        if i < p {
            assert(0 <= t[i] < n);
        } else if i > p {
            assert(0 <= t[i - 1] < n);
        }
    }
}

proof fn falling_place_splits(keys: Seq<i128>, idx: Seq<int>, x: int, i: int)
    requires
        keys_fall(keys, idx),
        0 <= i <= idx.len(),
        forall|j: int| 0 <= j < i ==> keys[#[trigger] idx[j]] >= keys[x],
    ensures
        i <= falling_place(keys, idx, x, i) <= idx.len(),
        forall|j: int| 0 <= j < falling_place(keys, idx, x, i) ==> keys[#[trigger] idx[j]] >= keys[x],
        forall|j: int|
            falling_place(keys, idx, x, i) <= j < idx.len() ==> keys[#[trigger] idx[j]] < keys[x],
    decreases idx.len() - i,
{
    if i < idx.len() && keys[idx[i]] >= keys[x] {
        falling_place_splits(keys, idx, x, i + 1);
    } else if i < idx.len() {
        assert forall|j: int| i <= j < idx.len() implies keys[#[trigger] idx[j]] < keys[x] by {
            if j > i {
                assert(keys[idx[i]] >= keys[idx[j]]);
            }
        }
    }
}

/// The order by falling keys has every position once, and its keys fall.
pub proof fn falling_is_an_order(keys: Seq<i128>, n: int)
    requires
        0 <= n,
    ensures
        is_order(falling(keys, n), n),
        keys_fall(keys, falling(keys, n)),
    decreases n,
{
    if n > 0 {
        let t = falling(keys, n - 1);
        falling_is_an_order(keys, n - 1);
        falling_place_splits(keys, t, n - 1, 0);
        let p = falling_place(keys, t, n - 1, 0);
        one_more_in_order(t, n - 1, p);
        let r = t.insert(p, n - 1);
        assert forall|i: int, j: int| 0 <= i < j < r.len() implies keys[#[trigger] r[i]]
            >= keys[#[trigger] r[j]] by {
            if j < p {
                assert(keys[t[i]] >= keys[t[j]]);
            } else if i > p {
                assert(keys[t[i - 1]] >= keys[t[j - 1]]);
            } else if i < p && j > p {
                assert(keys[t[i]] >= keys[t[j - 1]]);
            } else if i == p {
                assert(keys[t[j - 1]] < keys[n - 1]);
            } else {
                assert(keys[t[i]] >= keys[n - 1]);
            }
        }
    }
}

/// The positions as numbers.
pub open spec fn as_ints(v: Seq<usize>) -> Seq<int> {
    v.map_values(|i: usize| i as int)
}

/// The positions of the keys, the greatest key first.
pub fn order_falling(keys: &Vec<i128>) -> (r: Vec<usize>)
    ensures
        as_ints(r@) == falling(keys@, keys.len() as int),
        forall|i: int| 0 <= i < r@.len() ==> #[trigger] r@[i] < keys.len(),
        r@.len() == keys@.len(),
{
    let mut r: Vec<usize> = Vec::new();
    let mut i: usize = 0;
    assert(as_ints(r@) =~= Seq::<int>::empty());
    while i < keys.len()
        invariant
            i <= keys.len(),
            r@.len() == i,
            as_ints(r@) == falling(keys@, i as int),
            forall|j: int| 0 <= j < r@.len() ==> #[trigger] r@[j] < i,
        decreases keys.len() - i,
    {
        let ghost t = as_ints(r@);
        let mut k: usize = 0;
        while k < r.len() && keys[r[k]] >= keys[i]
            invariant
                k <= r.len(),
                i < keys.len(),
                t == as_ints(r@),
                forall|j: int| 0 <= j < r@.len() ==> #[trigger] r@[j] < i,
                falling_place(keys@, t, i as int, k as int) == falling_place(
                    keys@,
                    t,
                    i as int,
                    0,
                ),
            decreases r.len() - k,
        {
            assert(t[k as int] == r@[k as int] as int);
            k = k + 1;
        }
        if k < r.len() {
            assert(t[k as int] == r@[k as int] as int);
        }
        r.insert(k, i);
        assert(as_ints(r@) =~= t.insert(k as int, i as int));
        i = i + 1;
    }
    r
}

// ---------- by a text ----------

/// Where position `x` goes among ordered ones: behind all whose text does not come
/// after its own.
pub open spec fn rising_place(keys: Seq<Seq<char>>, idx: Seq<int>, x: int, i: int) -> int
    decreases idx.len() - i,
{
    if 0 <= i < idx.len() && text::not_after(keys[idx[i]], keys[x]) {
        rising_place(keys, idx, x, i + 1)
    } else {
        i
    }
}

/// The first `n` positions in the order of their texts.
pub open spec fn rising(keys: Seq<Seq<char>>, n: int) -> Seq<int>
    decreases n,
{
    if n <= 0 {
        Seq::empty()
    } else {
        let t = rising(keys, n - 1);
        t.insert(rising_place(keys, t, n - 1, 0), n - 1)
    }
}

pub open spec fn keys_rise(keys: Seq<Seq<char>>, idx: Seq<int>) -> bool {
    forall|i: int, j: int|
        0 <= i < j < idx.len() ==> text::not_after(
            keys[#[trigger] idx[i]],
            keys[#[trigger] idx[j]],
        )
}

proof fn rising_place_splits(keys: Seq<Seq<char>>, idx: Seq<int>, x: int, i: int)
    requires
        keys_rise(keys, idx),
        0 <= i <= idx.len(),
        forall|j: int| 0 <= j < i ==> text::not_after(keys[#[trigger] idx[j]], keys[x]),
    ensures
        i <= rising_place(keys, idx, x, i) <= idx.len(),
        forall|j: int|
            0 <= j < rising_place(keys, idx, x, i) ==> text::not_after(
                keys[#[trigger] idx[j]],
                keys[x],
            ),
        forall|j: int|
            rising_place(keys, idx, x, i) <= j < idx.len() ==> text::not_after(
                keys[x],
                keys[#[trigger] idx[j]],
            ),
    decreases idx.len() - i,
{
    if i < idx.len() && text::not_after(keys[idx[i]], keys[x]) {
        rising_place_splits(keys, idx, x, i + 1);
    } else if i < idx.len() {
        text::not_after_total(keys[idx[i]], keys[x]);
        assert forall|j: int| i <= j < idx.len() implies text::not_after(
            keys[x],
            keys[#[trigger] idx[j]],
        ) by {
            if j > i {
                assert(text::not_after(keys[idx[i]], keys[idx[j]]));
                text::not_after_transitive(keys[x], keys[idx[i]], keys[idx[j]]);
            }
        }
    }
}

/// The order by texts has every position once, and its texts rise.
pub proof fn rising_is_an_order(keys: Seq<Seq<char>>, n: int)
    requires
        0 <= n,
    ensures
        is_order(rising(keys, n), n),
        keys_rise(keys, rising(keys, n)),
    decreases n,
{
    if n > 0 {
        let t = rising(keys, n - 1);
        rising_is_an_order(keys, n - 1);
        rising_place_splits(keys, t, n - 1, 0);
        let p = rising_place(keys, t, n - 1, 0);
        one_more_in_order(t, n - 1, p);
        let r = t.insert(p, n - 1);
        assert forall|i: int, j: int| 0 <= i < j < r.len() implies text::not_after(
            keys[#[trigger] r[i]],
            keys[#[trigger] r[j]],
        ) by {
            if j < p {
                assert(text::not_after(keys[t[i]], keys[t[j]]));
            } else if i > p {
                assert(text::not_after(keys[t[i - 1]], keys[t[j - 1]]));
            } else if i < p && j > p {
                assert(text::not_after(keys[t[i]], keys[t[j - 1]]));
            } else if i == p {
                assert(text::not_after(keys[n - 1], keys[t[j - 1]]));
            } else {
                assert(text::not_after(keys[t[i]], keys[n - 1]));
            }
        }
    }
}

/// The positions of the texts in their order.
pub fn order_rising(keys: &Vec<String>) -> (r: Vec<usize>)
    ensures
        as_ints(r@) == rising(text::views(keys@), keys.len() as int),
        forall|i: int| 0 <= i < r@.len() ==> #[trigger] r@[i] < keys.len(),
        r@.len() == keys@.len(),
{
    let ghost all = text::views(keys@);
    let mut r: Vec<usize> = Vec::new();
    let mut i: usize = 0;
    assert(as_ints(r@) =~= Seq::<int>::empty());
    while i < keys.len()
        invariant
            i <= keys.len(),
            all == text::views(keys@),
            r@.len() == i,
            as_ints(r@) == rising(all, i as int),
            forall|j: int| 0 <= j < r@.len() ==> #[trigger] r@[j] < i,
        decreases keys.len() - i,
    {
        let ghost t = as_ints(r@);
        let mut k: usize = 0;
        while k < r.len() && text::le(keys[r[k]].as_str(), keys[i].as_str())
            invariant
                k <= r.len(),
                i < keys.len(),
                all == text::views(keys@),
                t == as_ints(r@),
                forall|j: int| 0 <= j < r@.len() ==> #[trigger] r@[j] < i,
                rising_place(all, t, i as int, k as int) == rising_place(all, t, i as int, 0),
            decreases r.len() - k,
        {
            assert(t[k as int] == r@[k as int] as int);
            k = k + 1;
        }
        if k < r.len() {
            assert(t[k as int] == r@[k as int] as int);
        }
        r.insert(k, i);
        assert(as_ints(r@) =~= t.insert(k as int, i as int));
        i = i + 1;
    }
    r
}

} // verus!
