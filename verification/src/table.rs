//! The mathematical model of a typed table: a sequence of key/value entries,
//! unique-keyed, and — for the number-keyed tables — sorted ascending so that
//! cursors can seek and range-walk.
//!
//! Point lookups, seeks, last-entry reads and range walks are verified here
//! once, generically, and the store builds every typed operation on them.

use vstd::prelude::*;

verus! {

/// No two entries share a key.
pub open spec fn uniq_keys<K, V>(s: Seq<(K, V)>) -> bool {
    forall|i: int, j: int| 0 <= i < j < s.len() ==> (#[trigger] s[i]).0 != (#[trigger] s[j]).0
}

/// Keys strictly ascend: the shape an ordered cursor relies on.
pub open spec fn sorted_keys<V>(s: Seq<(u64, V)>) -> bool {
    forall|i: int, j: int| 0 <= i < j < s.len() ==> (#[trigger] s[i]).0 < (#[trigger] s[j]).0
}

pub proof fn lemma_sorted_implies_uniq<V>(s: Seq<(u64, V)>)
    requires
        sorted_keys(s),
    ensures
        uniq_keys(s),
{
}

pub open spec fn tbl_contains_key<K, V>(s: Seq<(K, V)>, k: K) -> bool {
    exists|i: int| 0 <= i < s.len() && (#[trigger] s[i]).0 == k
}

pub open spec fn tbl_index_of_key<K, V>(s: Seq<(K, V)>, k: K) -> int {
    choose|i: int| 0 <= i < s.len() && (#[trigger] s[i]).0 == k
}

/// The value stored under `k`, or `None`: the meaning of a point get.
pub open spec fn tbl_get<K, V>(s: Seq<(K, V)>, k: K) -> Option<V> {
    if tbl_contains_key(s, k) {
        Some(s[tbl_index_of_key(s, k)].1)
    } else {
        None
    }
}

/// With unique keys, the entry at any index with key `k` is the entry a get
/// returns.
pub proof fn lemma_tbl_get_index<K, V>(s: Seq<(K, V)>, i: int, k: K)
    requires
        uniq_keys(s),
        0 <= i < s.len(),
        s[i].0 == k,
    ensures
        tbl_contains_key(s, k),
        tbl_get(s, k) == Some(s[i].1),
{
    let j = tbl_index_of_key(s, k);
    if j != i {
        assert(s[i].0 != s[j].0 || s[j].0 != s[i].0);
    }
}

/// The least entry with key at or above `k`, or `None`: the meaning of a
/// cursor seek.
pub open spec fn tbl_seek<V>(s: Seq<(u64, V)>, k: u64) -> Option<(u64, V)>
    decreases s.len(),
{
    if s.len() == 0 {
        None
    } else if s[0].0 >= k {
        Some(s[0])
    } else {
        tbl_seek(s.subrange(1, s.len() as int), k)
    }
}

/// On a sorted table, a seek returns exactly the least key at or above `k`.
pub proof fn lemma_tbl_seek_props<V>(s: Seq<(u64, V)>, k: u64)
    requires
        sorted_keys(s),
    ensures
        match tbl_seek(s, k) {
            None => forall|i: int| 0 <= i < s.len() ==> (#[trigger] s[i]).0 < k,
            Some(e) => e.0 >= k && tbl_get(s, e.0) == Some(e.1) && forall|i: int|
                0 <= i < s.len() && (#[trigger] s[i]).0 >= k ==> s[i].0 >= e.0,
        },
    decreases s.len(),
{
    lemma_sorted_implies_uniq(s);
    if s.len() == 0 {
    } else if s[0].0 >= k {
        lemma_tbl_get_index(s, 0, s[0].0);
    } else {
        let t = s.subrange(1, s.len() as int);
        assert(forall|i: int| 0 <= i < t.len() ==> #[trigger] t[i] == s[i + 1]);
        lemma_tbl_seek_props(t, k);
        lemma_sorted_implies_uniq(t);
        assert(tbl_seek(s, k) == tbl_seek(t, k));
        match tbl_seek(t, k) {
            None => {
                assert forall|i: int| 0 <= i < s.len() implies (#[trigger] s[i]).0 < k by {
                    if i > 0 {
                        assert(t[i - 1] == s[i]);
                    }
                }
            },
            Some(e) => {
                assert(tbl_contains_key(t, e.0));
                let j = tbl_index_of_key(t, e.0);
                assert(t[j].0 == e.0);
                lemma_tbl_get_index(t, j, e.0);
                lemma_tbl_get_index(s, j + 1, e.0);
                assert forall|i: int| 0 <= i < s.len() && (#[trigger] s[i]).0 >= k implies s[i].0
                    >= e.0 by {
                    if i > 0 {
                        assert(t[i - 1] == s[i]);
                    }
                }
            },
        }
    }
}

/// The last entry of the table, or `None`: the meaning of a cursor `last`.
pub open spec fn tbl_last<V>(s: Seq<(u64, V)>) -> Option<(u64, V)> {
    if s.len() == 0 {
        None
    } else {
        Some(s.last())
    }
}

/// Whether an entry's key lies in the half-open interval `[lo, hi)`.
pub open spec fn in_key_range<V>(lo: int, hi: int) -> spec_fn((u64, V)) -> bool {
    |e: (u64, V)| lo <= e.0 as int && (e.0 as int) < hi
}

/// The entries with keys in `[lo, hi)`, in table order: the meaning of a
/// range walk.
pub open spec fn tbl_range<V>(s: Seq<(u64, V)>, lo: int, hi: int) -> Seq<(u64, V)> {
    s.filter(in_key_range(lo, hi))
}

/// Two filters agree on a sequence whose elements they classify alike.
proof fn lemma_filter_congruence<A>(s: Seq<A>, p: spec_fn(A) -> bool, q: spec_fn(A) -> bool)
    requires
        forall|i: int| 0 <= i < s.len() ==> (p(#[trigger] s[i]) <==> q(s[i])),
    ensures
        s.filter(p) == s.filter(q),
    decreases s.len(),
{
    if s.len() > 0 {
        let t = s.drop_last();
        assert(forall|i: int| 0 <= i < t.len() ==> #[trigger] t[i] == s[i]);
        lemma_filter_congruence(t, p, q);
        assert(s =~= t.push(s.last()));
        t.lemma_filter_push(s.last(), p);
        t.lemma_filter_push(s.last(), q);
    }
}

proof fn lemma_sorted_drop_last<V>(s: Seq<(u64, V)>)
    requires
        sorted_keys(s),
        s.len() > 0,
    ensures
        sorted_keys(s.drop_last()),
        forall|i: int| 0 <= i < s.len() - 1 ==> (#[trigger] s[i]).0 < s.last().0,
{
    assert(forall|i: int|
        0 <= i < s.len() - 1 ==> (#[trigger] s.drop_last()[i]) == s[i]);
}

/// Dropping the last entry leaves every other key's lookup unchanged.
proof fn lemma_tbl_get_drop_last<V>(s: Seq<(u64, V)>, k: u64)
    requires
        uniq_keys(s),
        s.len() > 0,
        s.last().0 != k,
    ensures
        uniq_keys(s.drop_last()),
        tbl_get(s.drop_last(), k) == tbl_get(s, k),
{
    let t = s.drop_last();
    assert(forall|i: int| 0 <= i < t.len() ==> #[trigger] t[i] == s[i]);
    if tbl_contains_key(t, k) {
        let i = tbl_index_of_key(t, k);
        lemma_tbl_get_index(t, i, k);
        lemma_tbl_get_index(s, i, k);
    } else if tbl_contains_key(s, k) {
        let i = tbl_index_of_key(s, k);
        assert(s[i].0 == k);
        assert(i < s.len() - 1 ==> t[i].0 == k);
        assert(false);
    }
}

/// On a sorted table holding every key of `[lo, hi)`, the range walk returns
/// exactly `hi - lo` entries, the `i`-th being key `lo + i` with its stored
/// value.
pub proof fn lemma_tbl_range_complete<V>(s: Seq<(u64, V)>, lo: int, hi: int)
    requires
        sorted_keys(s),
        0 <= lo <= hi,
        hi <= u64::MAX as int + 1,
        forall|k: int| lo <= k < hi ==> #[trigger] tbl_contains_key(s, k as u64),
    ensures
        tbl_range(s, lo, hi).len() == hi - lo,
        forall|i: int| 0 <= i < hi - lo ==> (#[trigger] tbl_range(s, lo, hi)[i]).0 == lo + i
            && Some(tbl_range(s, lo, hi)[i].1) == tbl_get(s, (lo + i) as u64),
    decreases s.len(),
{
    lemma_sorted_implies_uniq(s);
    let p = in_key_range::<V>(lo, hi);
    if s.len() == 0 {
        if lo < hi {
            assert(tbl_contains_key(s, lo as u64));
            assert(false);
        }
        s.lemma_all_neg_filter_empty(p);
    } else {
        let t = s.drop_last();
        let e = s.last();
        lemma_sorted_drop_last(s);
        lemma_sorted_implies_uniq(t);
        assert(s =~= t.push(e));
        t.lemma_filter_push(e, p);
        if lo <= e.0 as int && (e.0 as int) < hi {
            // The last entry carries the greatest key, so it must be hi - 1.
            assert(e.0 as int == hi - 1) by {
                assert(tbl_contains_key(s, (hi - 1) as u64));
                let m = tbl_index_of_key(s, (hi - 1) as u64);
                assert(m < s.len() - 1 ==> s[m].0 < e.0);
            }
            assert(forall|k: int| lo <= k < hi - 1 ==> #[trigger] tbl_contains_key(t, k as u64)) by {
                assert forall|k: int| lo <= k < hi - 1 implies #[trigger] tbl_contains_key(t, k as u64) by {
                    assert(tbl_contains_key(s, k as u64));
                    let m = tbl_index_of_key(s, k as u64);
                    assert(s[m].0 == k as u64);
                    assert(m == s.len() - 1 ==> s[m].0 == e.0);
                    assert(t[m] == s[m]);
                }
            }
            lemma_tbl_range_complete(t, lo, hi - 1);
            let q = in_key_range::<V>(lo, hi - 1);
            assert(forall|i: int| 0 <= i < t.len() ==> (p(#[trigger] t[i]) <==> q(t[i])));
            lemma_filter_congruence(t, p, q);
            assert(tbl_range(s, lo, hi) == tbl_range(t, lo, hi - 1).push(e));
            lemma_tbl_get_index(s, s.len() - 1, e.0);
            assert forall|i: int| 0 <= i < hi - lo implies (#[trigger] tbl_range(s, lo, hi)[i]).0
                == lo + i && Some(tbl_range(s, lo, hi)[i].1) == tbl_get(s, (lo + i) as u64) by {
                if i < hi - 1 - lo {
                    assert(tbl_range(s, lo, hi)[i] == tbl_range(t, lo, hi - 1)[i]);
                    lemma_tbl_get_drop_last(s, (lo + i) as u64);
                } else {
                    assert(tbl_range(s, lo, hi)[i] == e);
                }
            }
        } else {
            if lo < hi && (e.0 as int) < lo {
                // The greatest key lies below the interval, yet lo must be
                // present: impossible, so the interval is empty.
                assert(tbl_contains_key(s, lo as u64));
                let m = tbl_index_of_key(s, lo as u64);
                assert(s[m].0 == lo as u64);
                assert(m < s.len() - 1 ==> s[m].0 < e.0);
                assert(false);
            }
            assert(forall|k: int| lo <= k < hi ==> #[trigger] tbl_contains_key(t, k as u64)) by {
                assert forall|k: int| lo <= k < hi implies #[trigger] tbl_contains_key(t, k as u64) by {
                    assert(tbl_contains_key(s, k as u64));
                    let m = tbl_index_of_key(s, k as u64);
                    assert(s[m].0 == k as u64);
                    assert(m == s.len() - 1 ==> s[m].0 == e.0);
                    assert(t[m] == s[m]);
                }
            }
            lemma_tbl_range_complete(t, lo, hi);
            assert(tbl_range(s, lo, hi) == tbl_range(t, lo, hi));
            assert forall|i: int| 0 <= i < hi - lo implies (#[trigger] tbl_range(s, lo, hi)[i]).0
                == lo + i && Some(tbl_range(s, lo, hi)[i].1) == tbl_get(s, (lo + i) as u64) by {
                lemma_tbl_get_drop_last(s, (lo + i) as u64);
            }
        }
    }
}

/// Every entry a range walk returns sits in the table, inside the interval.
pub proof fn lemma_tbl_range_members<V>(s: Seq<(u64, V)>, lo: int, hi: int, i: int)
    requires
        0 <= i < tbl_range(s, lo, hi).len(),
    ensures
        lo <= (tbl_range(s, lo, hi)[i].0 as int) && (tbl_range(s, lo, hi)[i].0 as int) < hi,
        (exists|j: int| 0 <= j < s.len() && #[trigger] s[j] == tbl_range(s, lo, hi)[i]),
{
    let p = in_key_range::<V>(lo, hi);
    s.lemma_filter_pred(p, i);
    s.lemma_filter_contains_rev(p, s.filter(p)[i]);
    let e = s.filter(p)[i];
    assert(s.contains(e));
    let j = choose|j: int| 0 <= j < s.len() && s[j] == e;
    assert(s[j] == e);
}

/// Point lookup over a unique-keyed, number-keyed table.
pub fn tbl_lookup<V: Copy>(table: &Vec<(u64, V)>, key: u64) -> (r: Option<V>)
    requires
        uniq_keys(table@),
    ensures
        r == tbl_get(table@, key),
{
    let n: usize = table.len();
    let mut i: usize = 0;
    while i < n
        invariant
            n == table@.len(),
            i <= n,
            uniq_keys(table@),
            forall|j: int| 0 <= j < i ==> (#[trigger] table@[j]).0 != key,
        decreases n - i,
    {
        if table[i].0 == key {
            proof {
                lemma_tbl_get_index(table@, i as int, key);
            }
            return Some(table[i].1);
        }
        i += 1;
    }
    proof {
        assert(!tbl_contains_key(table@, key));
    }
    None
}

/// Seek: the first entry with key at or above `key` on a sorted table.
pub fn tbl_seek_ge<V: Copy>(table: &Vec<(u64, V)>, key: u64) -> (r: Option<(u64, V)>)
    requires
        sorted_keys(table@),
    ensures
        r == tbl_seek(table@, key),
{
    let n: usize = table.len();
    let mut i: usize = 0;
    proof {
        assert(table@.skip(0) =~= table@);
    }
    while i < n
        invariant
            n == table@.len(),
            i <= n,
            sorted_keys(table@),
            tbl_seek(table@, key) == tbl_seek(table@.skip(i as int), key),
            forall|j: int| 0 <= j < i ==> (#[trigger] table@[j]).0 < key,
        decreases n - i,
    {
        if table[i].0 >= key {
            proof {
                let t = table@.skip(i as int);
                assert(t[0] == table@[i as int]);
            }
            return Some(table[i]);
        }
        proof {
            let t = table@.skip(i as int);
            assert(t[0] == table@[i as int]);
            assert(t.subrange(1, t.len() as int) =~= table@.skip(i as int + 1));
        }
        i += 1;
    }
    proof {
        assert(table@.skip(n as int).len() == 0);
    }
    None
}

/// Last entry of a table.
pub fn tbl_last_entry<V: Copy>(table: &Vec<(u64, V)>) -> (r: Option<(u64, V)>)
    ensures
        r == tbl_last(table@),
{
    let n: usize = table.len();
    if n == 0 {
        None
    } else {
        Some(table[n - 1])
    }
}

/// Range walk: every entry with key in `[lo, hi)`, in ascending table order.
pub fn tbl_walk_range<V: Copy>(table: &Vec<(u64, V)>, lo: u64, hi: u64) -> (r: Vec<(u64, V)>)
    ensures
        r@ == tbl_range(table@, lo as int, hi as int),
{
    let ghost p = in_key_range::<V>(lo as int, hi as int);
    let n: usize = table.len();
    let mut r: Vec<(u64, V)> = Vec::new();
    let mut i: usize = 0;
    while i < n
        invariant
            n == table@.len(),
            i <= n,
            r@ == table@.take(i as int).filter(p),
            p == in_key_range::<V>(lo as int, hi as int),
        decreases n - i,
    {
        proof {
            table@.lemma_take_succ_push(i as int);
            table@.take(i as int).lemma_filter_push(table@[i as int], p);
        }
        let e = table[i];
        if lo <= e.0 && e.0 < hi {
            r.push(e);
        }
        i += 1;
    }
    proof {
        assert(table@.take(n as int) =~= table@);
    }
    r
}


/// The values of a table slice, keys dropped.
pub open spec fn tbl_values<V>(s: Seq<(u64, V)>) -> Seq<V> {
    s.map_values(|e: (u64, V)| e.1)
}

/// Drops the keys of a walked slice.
pub fn entry_values<V: Copy>(entries: &Vec<(u64, V)>) -> (r: Vec<V>)
    ensures
        r@ == tbl_values(entries@),
{
    let n: usize = entries.len();
    let mut r: Vec<V> = Vec::new();
    let mut i: usize = 0;
    while i < n
        invariant
            n == entries@.len(),
            i <= n,
            r@ == tbl_values(entries@.take(i as int)),
        decreases n - i,
    {
        r.push(entries[i].1);
        proof {
            entries@.lemma_take_succ_push(i as int);
            assert(tbl_values(entries@.take(i as int + 1)) =~= tbl_values(
                entries@.take(i as int),
            ).push(entries@[i as int].1));
        }
        i += 1;
    }
    proof {
        assert(entries@.take(n as int) =~= entries@);
    }
    r
}

/// Copy a vector of plain values out of the store.
pub fn copy_values<T: Copy>(v: &Vec<T>) -> (r: Vec<T>)
    ensures
        r@ == v@,
{
    let n: usize = v.len();
    let mut r: Vec<T> = Vec::new();
    let mut i: usize = 0;
    while i < n
        invariant
            n == v@.len(),
            i <= n,
            r@ == v@.take(i as int),
        decreases n - i,
    {
        r.push(v[i]);
        proof {
            v@.lemma_take_succ_push(i as int);
        }
        i += 1;
    }
    proof {
        assert(v@.take(n as int) =~= v@);
    }
    r
}

} // verus!
