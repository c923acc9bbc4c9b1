//! Stable ordering of records by string keys, as `sort_by_key` and the
//! ordered sets of the configuration renderers produce it.
//!
//! A key is a tuple of strings compared field by field, each field by code
//! point (the order `String`'s `Ord` gives, since UTF-8 preserves it).
use vstd::prelude::*;

verus! {

/// Lexicographic order on character sequences.
pub open spec fn chars_lt(a: Seq<char>, b: Seq<char>) -> bool
    decreases a.len(),
{
    if a.len() == 0 {
        b.len() > 0
    } else if b.len() == 0 {
        false
    } else if (a[0] as u32) < (b[0] as u32) {
        true
    } else if (a[0] as u32) > (b[0] as u32) {
        false
    } else {
        chars_lt(a.drop_first(), b.drop_first())
    }
}

/// Lexicographic order on keys, field by field.
pub open spec fn key_lt(a: Seq<Seq<char>>, b: Seq<Seq<char>>) -> bool
    decreases a.len(),
{
    if a.len() == 0 {
        b.len() > 0
    } else if b.len() == 0 {
        false
    } else if chars_lt(a[0], b[0]) {
        true
    } else if a[0] != b[0] {
        false
    } else {
        key_lt(a.drop_first(), b.drop_first())
    }
}

pub open spec fn key_views(k: Vec<Vec<char>>) -> Seq<Seq<char>> {
    k@.map_values(|f: Vec<char>| f@)
}

pub open spec fn all_keys(keys: Seq<Vec<Vec<char>>>) -> Seq<Seq<Seq<char>>> {
    keys.map_values(|k: Vec<Vec<char>>| key_views(k))
}

/// Where a stable insertion puts key `k` into `order`: after every entry
/// whose key is not greater than `k`.
pub open spec fn insert_index(order: Seq<int>, keys: Seq<Seq<Seq<char>>>, k: Seq<Seq<char>>) -> nat
    decreases order.len(),
{
    if order.len() == 0 {
        0
    } else if key_lt(k, keys[order[0]]) {
        0
    } else {
        1 + insert_index(order.drop_first(), keys, k)
    }
}

/// The stable sort of the indices `0..n` by `keys`.
pub open spec fn sort_order(keys: Seq<Seq<Seq<char>>>, n: nat) -> Seq<int>
    decreases n,
{
    if n == 0 {
        Seq::empty()
    } else {
        let prev = sort_order(keys, (n - 1) as nat);
        let k = keys[n - 1];
        prev.insert(insert_index(prev, keys, k) as int, n - 1)
    }
}

/// The stable sort of the indices of `keys` by key.
pub open spec fn stable_order(keys: Seq<Seq<Seq<char>>>) -> Seq<int> {
    sort_order(keys, keys.len())
}

pub proof fn lemma_chars_lt_step(a: Seq<char>, b: Seq<char>, i: int)
    requires
        0 <= i < a.len(),
        i < b.len(),
        a.take(i) == b.take(i),
    ensures
        chars_lt(a.skip(i), b.skip(i)) == (if (a[i] as u32) < (b[i] as u32) {
            true
        } else if (a[i] as u32) > (b[i] as u32) {
            false
        } else {
            chars_lt(a.skip(i + 1), b.skip(i + 1))
        }),
{
    assert(a.skip(i)[0] == a[i]);
    assert(b.skip(i)[0] == b[i]);
    assert(a.skip(i).drop_first() =~= a.skip(i + 1));
    assert(b.skip(i).drop_first() =~= b.skip(i + 1));
}

pub fn chars_less(a: &Vec<char>, b: &Vec<char>) -> (r: bool)
    ensures
        r == chars_lt(a@, b@),
{
    let mut i: usize = 0;
    assert(a@.skip(0) =~= a@);
    assert(b@.skip(0) =~= b@);
    while i < a.len() && i < b.len()
        invariant
            i <= a.len(),
            i <= b.len(),
            a@.take(i as int) == b@.take(i as int),
            chars_lt(a@, b@) == chars_lt(a@.skip(i as int), b@.skip(i as int)),
        decreases a.len() - i,
    {
        proof {
            lemma_chars_lt_step(a@, b@, i as int);
            vstd::utf8::char_u32_cast(a@[i as int], a@[i as int] as u32);
            vstd::utf8::char_u32_cast(b@[i as int], b@[i as int] as u32);
        }
        if (a[i] as u32) < (b[i] as u32) {
            return true;
        }
        if (a[i] as u32) > (b[i] as u32) {
            return false;
        }
        assert(a@.take(i + 1) =~= a@.take(i as int).push(a@[i as int]));
        assert(b@.take(i + 1) =~= b@.take(i as int).push(b@[i as int]));
        i = i + 1;
    }
    // One of the two is exhausted.
    i == a.len() && i < b.len()
}

fn chars_same(a: &Vec<char>, b: &Vec<char>) -> (r: bool)
    ensures
        r == (a@ == b@),
{
    crate::text::seq_eq(a, b)
}

pub proof fn lemma_key_lt_step(a: Seq<Seq<char>>, b: Seq<Seq<char>>, i: int)
    requires
        0 <= i < a.len(),
        i < b.len(),
        a.take(i) == b.take(i),
    ensures
        key_lt(a.skip(i), b.skip(i)) == (if chars_lt(a[i], b[i]) {
            true
        } else if a[i] != b[i] {
            false
        } else {
            key_lt(a.skip(i + 1), b.skip(i + 1))
        }),
{
    assert(a.skip(i)[0] == a[i]);
    assert(b.skip(i)[0] == b[i]);
    assert(a.skip(i).drop_first() =~= a.skip(i + 1));
    assert(b.skip(i).drop_first() =~= b.skip(i + 1));
}

/// Whether key `a` sorts before key `b`.
pub fn key_less(a: &Vec<Vec<char>>, b: &Vec<Vec<char>>) -> (r: bool)
    ensures
        r == key_lt(key_views(*a), key_views(*b)),
{
    let ghost av = key_views(*a);
    let ghost bv = key_views(*b);
    let mut i: usize = 0;
    assert(av.skip(0) =~= av);
    assert(bv.skip(0) =~= bv);
    while i < a.len() && i < b.len()
        invariant
            i <= a.len(),
            i <= b.len(),
            av == key_views(*a),
            bv == key_views(*b),
            av.take(i as int) == bv.take(i as int),
            key_lt(av, bv) == key_lt(av.skip(i as int), bv.skip(i as int)),
        decreases a.len() - i,
    {
        proof {
            lemma_key_lt_step(av, bv, i as int);
        }
        if chars_less(&a[i], &b[i]) {
            return true;
        }
        if !chars_same(&a[i], &b[i]) {
            return false;
        }
        assert(av.take(i + 1) =~= av.take(i as int).push(av[i as int]));
        assert(bv.take(i + 1) =~= bv.take(i as int).push(bv[i as int]));
        i = i + 1;
    }
    i == a.len() && i < b.len()
}

proof fn lemma_insert_index(order: Seq<int>, keys: Seq<Seq<Seq<char>>>, k: Seq<Seq<char>>, i: int)
    requires
        0 <= i <= order.len(),
        forall|j: int| 0 <= j < i ==> !key_lt(k, #[trigger] keys[order[j]]),
        i == order.len() || key_lt(k, keys[order[i]]),
    ensures
        insert_index(order, keys, k) == i,
    decreases order.len(),
{
    if order.len() > 0 && i > 0 {
        let rest = order.drop_first();
        assert forall|j: int| 0 <= j < i - 1 implies !key_lt(k, #[trigger] keys[rest[j]]) by {
            assert(rest[j] == order[j + 1]);
        }
        if i - 1 < rest.len() {
            assert(rest[i - 1] == order[i]);
        }
        lemma_insert_index(rest, keys, k, i - 1);
    }
}

/// The indices of `keys`, stably sorted by key.
pub fn sorted_indices(keys: &Vec<Vec<Vec<char>>>) -> (order: Vec<usize>)
    ensures
        order@.map_values(|x: usize| x as int) == stable_order(all_keys(keys@)),
{
    let ghost ks = all_keys(keys@);
    let mut order: Vec<usize> = Vec::new();
    let n = keys.len();
    for i in 0..n
        invariant
            n == keys@.len(),
            ks == all_keys(keys@),
            order@.map_values(|x: usize| x as int) == sort_order(ks, i as nat),
            forall|j: int| 0 <= j < order@.len() ==> (order@[j] as int) < i,
    {
        let ghost prev = order@.map_values(|x: usize| x as int);
        let mut p: usize = 0;
        while p < order.len() && !key_less(&keys[i], &keys[order[p]])
            invariant
                p <= order@.len(),
                n == keys@.len(),
                i < n,
                ks == all_keys(keys@),
                prev == order@.map_values(|x: usize| x as int),
                forall|j: int| 0 <= j < order@.len() ==> (order@[j] as int) < i,
                forall|j: int| 0 <= j < p ==> !key_lt(ks[i as int], #[trigger] ks[prev[j]]),
            decreases order.len() - p,
        {
            assert(ks[order@[p as int] as int] == key_views(keys@[order@[p as int] as int]));
            assert(prev[p as int] == order@[p as int] as int);
            p = p + 1;
        }
        proof {
            if p < order.len() {
                assert(prev[p as int] == order@[p as int] as int);
                assert(ks[order@[p as int] as int] == key_views(keys@[order@[p as int] as int]));
            }
            assert(ks[i as int] == key_views(keys@[i as int]));
            lemma_insert_index(prev, ks, ks[i as int], p as int);
        }
        order.insert(p, i);
        proof {
            assert(sort_order(ks, (i + 1) as nat) == prev.insert(p as int, i as int));
            assert(order@.map_values(|x: usize| x as int) =~= prev.insert(p as int, i as int));
        }
    }
    order
}


pub proof fn lemma_insert_index_bound(order: Seq<int>, keys: Seq<Seq<Seq<char>>>, k: Seq<Seq<char>>)
    ensures
        insert_index(order, keys, k) <= order.len(),
    decreases order.len(),
{
    if order.len() > 0 {
        lemma_insert_index_bound(order.drop_first(), keys, k);
    }
}

pub proof fn lemma_sort_order_indices(keys: Seq<Seq<Seq<char>>>, n: nat)
    ensures
        sort_order(keys, n).len() == n,
        forall|j: int| 0 <= j < n ==> 0 <= #[trigger] sort_order(keys, n)[j] < n,
    decreases n,
{
    if n > 0 {
        let prev = sort_order(keys, (n - 1) as nat);
        lemma_sort_order_indices(keys, (n - 1) as nat);
        let k = keys[n - 1];
        lemma_insert_index_bound(prev, keys, k);
        let p = insert_index(prev, keys, k) as int;
        let s = prev.insert(p, n - 1);
        assert forall|j: int| 0 <= j < n implies 0 <= #[trigger] s[j] < n by {
            if j < p {
                assert(s[j] == prev[j]);
            } else if j > p {
                assert(s[j] == prev[j - 1]);
            }
        }
    }
}

/// Every index below `n` has a place in the sort order of the first `n` keys.
pub proof fn lemma_sort_order_covers(keys: Seq<Seq<Seq<char>>>, n: nat)
    ensures
        forall|j: int| 0 <= j < n ==> #[trigger] sort_order(keys, n).contains(j),
    decreases n,
{
    if n > 0 {
        let prev = sort_order(keys, (n - 1) as nat);
        lemma_sort_order_covers(keys, (n - 1) as nat);
        lemma_sort_order_indices(keys, (n - 1) as nat);
        lemma_insert_index_bound(prev, keys, keys[n - 1]);
        let p = insert_index(prev, keys, keys[n - 1]) as int;
        let s = prev.insert(p, n - 1);
        assert forall|j: int| 0 <= j < n implies #[trigger] s.contains(j) by {
            if j == n - 1 {
                assert(s[p] == j);
            } else {
                assert(prev.contains(j));
                let k = choose|k: int| 0 <= k < prev.len() && prev[k] == j;
                if k < p {
                    assert(s[k] == j);
                } else {
                    assert(s[k + 1] == j);
                }
            }
        }
    }
}

/// `order` lists indices in key order, and indices of equal keys in
/// increasing order.
pub open spec fn stably_sorted_by_key(order: Seq<int>, keys: Seq<Seq<Seq<char>>>) -> bool {
    forall|a: int, b: int|
        0 <= a < b < order.len() ==> !key_lt(#[trigger] keys[order[b]], #[trigger] keys[order[a]])
            && (keys[order[a]] == keys[order[b]] ==> order[a] < order[b])
}

/// Where `insert_index` puts a key: after every key it is not below, before
/// the first key above it.
proof fn lemma_insert_index_places(order: Seq<int>, keys: Seq<Seq<Seq<char>>>, k: Seq<Seq<char>>)
    ensures
        forall|j: int|
            0 <= j < insert_index(order, keys, k) ==> !key_lt(k, #[trigger] keys[order[j]]),
        insert_index(order, keys, k) < order.len() ==> key_lt(
            k,
            keys[order[insert_index(order, keys, k) as int]],
        ),
    decreases order.len(),
{
    lemma_insert_index_bound(order, keys, k);
    if order.len() > 0 && !key_lt(k, keys[order[0]]) {
        let rest = order.drop_first();
        lemma_insert_index_places(rest, keys, k);
        let p = insert_index(order, keys, k);
        assert forall|j: int| 0 <= j < p implies !key_lt(k, #[trigger] keys[order[j]]) by {
            if j > 0 {
                assert(order[j] == rest[j - 1]);
            }
        }
        if p < order.len() {
            assert(order[p as int] == rest[p - 1]);
        }
    }
}

/// The sort order of the first `n` keys is stably sorted by key.
pub proof fn lemma_sort_order_sorted(keys: Seq<Seq<Seq<char>>>, n: nat)
    ensures
        stably_sorted_by_key(sort_order(keys, n), keys),
    decreases n,
{
    if n > 0 {
        let prev = sort_order(keys, (n - 1) as nat);
        lemma_sort_order_sorted(keys, (n - 1) as nat);
        lemma_sort_order_indices(keys, (n - 1) as nat);
        let kk = keys[n - 1];
        lemma_insert_index_bound(prev, keys, kk);
        lemma_insert_index_places(prev, keys, kk);
        let p = insert_index(prev, keys, kk) as int;
        let s = prev.insert(p, n - 1);
        assert(s == sort_order(keys, n));
        assert forall|a: int, b: int| 0 <= a < b < s.len() implies !key_lt(
            #[trigger] keys[s[b]],
            #[trigger] keys[s[a]],
        ) && (keys[s[a]] == keys[s[b]] ==> s[a] < s[b]) by {
            if a == p {
                let y = keys[prev[p]];
                let x = keys[prev[b - 1]];
                assert(s[b] == prev[b - 1]);
                assert(key_lt(kk, y));
                if b - 1 == p {
                    lemma_key_lt_asymmetric(kk, y);
                    lemma_key_lt_irreflexive(kk);
                } else {
                    assert(!key_lt(x, y));
                    if key_lt(x, kk) {
                        lemma_key_lt_transitive(x, kk, y);
                    }
                }
            } else if b == p {
                assert(s[a] == prev[a]);
            } else {
                let a1 = if a < p { a } else { a - 1 };
                let b1 = if b < p { b } else { b - 1 };
                assert(s[a] == prev[a1]);
                assert(s[b] == prev[b1]);
                assert(a1 < b1);
            }
        }
    }
}

/// The stable order lists the indices of `keys` in key order, and indices
/// of equal keys in increasing order.
pub proof fn lemma_stable_order_sorted(keys: Seq<Seq<Seq<char>>>)
    ensures
        stably_sorted_by_key(stable_order(keys), keys),
{
    lemma_sort_order_sorted(keys, keys.len());
}

/// The stable order lists indices of `keys`, one per key.
pub proof fn lemma_stable_order_indices(keys: Seq<Seq<Seq<char>>>)
    ensures
        stable_order(keys).len() == keys.len(),
        forall|j: int| 0 <= j < keys.len() ==> 0 <= #[trigger] stable_order(keys)[j] < keys.len(),
{
    lemma_sort_order_indices(keys, keys.len());
}


// ── the orders are strict total orders ──────────────────────────

pub proof fn lemma_chars_lt_irreflexive(a: Seq<char>)
    ensures
        !chars_lt(a, a),
    decreases a.len(),
{
    if a.len() > 0 {
        lemma_chars_lt_irreflexive(a.drop_first());
    }
}

pub proof fn lemma_chars_lt_transitive(a: Seq<char>, b: Seq<char>, c: Seq<char>)
    requires
        chars_lt(a, b),
        chars_lt(b, c),
    ensures
        chars_lt(a, c),
    decreases a.len(),
{
    if a.len() > 0 && b.len() > 0 && c.len() > 0 {
        if (a[0] as u32) == (b[0] as u32) && (b[0] as u32) == (c[0] as u32) {
            lemma_chars_lt_transitive(a.drop_first(), b.drop_first(), c.drop_first());
        }
    }
}

pub proof fn lemma_chars_lt_total(a: Seq<char>, b: Seq<char>)
    ensures
        a == b || chars_lt(a, b) || chars_lt(b, a),
    decreases a.len(),
{
    if a.len() > 0 && b.len() > 0 {
        if (a[0] as u32) == (b[0] as u32) {
            vstd::utf8::char_u32_cast(a[0], a[0] as u32);
            vstd::utf8::char_u32_cast(b[0], b[0] as u32);
            lemma_chars_lt_total(a.drop_first(), b.drop_first());
            if a.drop_first() == b.drop_first() {
                assert(a =~= seq![a[0]] + a.drop_first());
                assert(b =~= seq![b[0]] + b.drop_first());
            }
        }
    } else if a.len() == 0 && b.len() == 0 {
        assert(a =~= b);
    }
}

pub proof fn lemma_chars_lt_asymmetric(a: Seq<char>, b: Seq<char>)
    requires
        chars_lt(a, b),
    ensures
        !chars_lt(b, a),
{
    if chars_lt(b, a) {
        lemma_chars_lt_transitive(a, b, a);
        lemma_chars_lt_irreflexive(a);
    }
}

pub proof fn lemma_key_lt_irreflexive(a: Seq<Seq<char>>)
    ensures
        !key_lt(a, a),
    decreases a.len(),
{
    if a.len() > 0 {
        lemma_chars_lt_irreflexive(a[0]);
        lemma_key_lt_irreflexive(a.drop_first());
    }
}

pub proof fn lemma_key_lt_transitive(a: Seq<Seq<char>>, b: Seq<Seq<char>>, c: Seq<Seq<char>>)
    requires
        key_lt(a, b),
        key_lt(b, c),
    ensures
        key_lt(a, c),
    decreases a.len(),
{
    if a.len() > 0 && b.len() > 0 && c.len() > 0 {
        if chars_lt(a[0], b[0]) && chars_lt(b[0], c[0]) {
            lemma_chars_lt_transitive(a[0], b[0], c[0]);
        } else if chars_lt(a[0], b[0]) {
            assert(b[0] == c[0]);
        } else if chars_lt(b[0], c[0]) {
            assert(a[0] == b[0]);
        } else {
            assert(a[0] == b[0] && b[0] == c[0]);
            lemma_chars_lt_irreflexive(a[0]);
            lemma_key_lt_transitive(a.drop_first(), b.drop_first(), c.drop_first());
        }
    }
}

pub proof fn lemma_key_lt_total(a: Seq<Seq<char>>, b: Seq<Seq<char>>)
    ensures
        a == b || key_lt(a, b) || key_lt(b, a),
    decreases a.len(),
{
    if a.len() > 0 && b.len() > 0 {
        lemma_chars_lt_total(a[0], b[0]);
        if a[0] == b[0] {
            lemma_chars_lt_irreflexive(a[0]);
            lemma_key_lt_total(a.drop_first(), b.drop_first());
            if a.drop_first() == b.drop_first() {
                assert(a =~= seq![a[0]] + a.drop_first());
                assert(b =~= seq![b[0]] + b.drop_first());
            }
        }
    } else if a.len() == 0 && b.len() == 0 {
        assert(a =~= b);
    }
}

pub proof fn lemma_key_lt_asymmetric(a: Seq<Seq<char>>, b: Seq<Seq<char>>)
    requires
        key_lt(a, b),
    ensures
        !key_lt(b, a),
{
    if key_lt(b, a) {
        lemma_key_lt_transitive(a, b, a);
        lemma_key_lt_irreflexive(a);
    }
}

// ── ordered sets of keys ────────────────────────────────────────

/// Each key sorts before every later one: sorted, without repeats.
pub open spec fn strictly_sorted(ks: Seq<Seq<Seq<char>>>) -> bool {
    forall|i: int, j: int| 0 <= i < j < ks.len() ==> key_lt(#[trigger] ks[i], #[trigger] ks[j])
}

/// Adds key `k` to an ordered set of keys held as a sorted vector, as
/// `BTreeSet::insert` does.
pub fn insert_key(set: &mut Vec<Vec<Vec<char>>>, k: Vec<Vec<char>>)
    requires
        strictly_sorted(all_keys(old(set)@)),
    ensures
        strictly_sorted(all_keys(final(set)@)),
        forall|x: Seq<Seq<char>>|
            all_keys(final(set)@).contains(x) <==> (all_keys(old(set)@).contains(x) || x
                == key_views(k)),
{
    let ghost old_keys = all_keys(set@);
    let ghost kv = key_views(k);
    let n = set.len();
    let mut p: usize = 0;
    while p < n && key_less(&set[p], &k)
        invariant
            n == set@.len(),
            p <= n,
            old_keys == all_keys(set@),
            kv == key_views(k),
            forall|j: int| 0 <= j < p ==> key_lt(#[trigger] old_keys[j], kv),
        decreases n - p,
    {
        assert(old_keys[p as int] == key_views(set@[p as int]));
        p = p + 1;
    }
    if p < n {
        assert(old_keys[p as int] == key_views(set@[p as int]));
        if !key_less(&k, &set[p]) {
            // Neither sorts before the other: the key is there already.
            proof {
                lemma_key_lt_total(old_keys[p as int], kv);
                assert(old_keys[p as int] == kv);
                assert(old_keys.contains(kv));
            }
            return;
        }
    }
    proof {
        assert forall|j: int| p <= j < n implies key_lt(kv, #[trigger] old_keys[j]) by {
            if j > p {
                lemma_key_lt_transitive(kv, old_keys[p as int], old_keys[j]);
            }
        }
    }
    set.insert(p, k);
    proof {
        let nk = all_keys(set@);
        assert(nk =~= old_keys.insert(p as int, kv));
        assert forall|i: int, j: int| 0 <= i < j < nk.len() implies key_lt(
            #[trigger] nk[i],
            #[trigger] nk[j],
        ) by {
            if i < p && j < p {
            } else if i < p && j == p {
            } else if i < p && j > p {
                assert(nk[j] == old_keys[j - 1]);
            } else if i == p {
                assert(nk[j] == old_keys[j - 1]);
            } else {
                assert(nk[i] == old_keys[i - 1]);
                assert(nk[j] == old_keys[j - 1]);
            }
        }
        assert forall|x: Seq<Seq<char>>| nk.contains(x) <==> (old_keys.contains(x) || x == kv) by {
            if nk.contains(x) {
                let i = choose|i: int| 0 <= i < nk.len() && nk[i] == x;
                if i < p {
                    assert(old_keys[i] == x);
                } else if i > p {
                    assert(old_keys[i - 1] == x);
                }
            }
            if old_keys.contains(x) {
                let i = choose|i: int| 0 <= i < old_keys.len() && old_keys[i] == x;
                if i < p {
                    assert(nk[i] == x);
                } else {
                    assert(nk[i + 1] == x);
                }
            }
            if x == kv {
                assert(nk[p as int] == x);
            }
        }
    }
}


/// The items of the first `i + 1` of `s`: those of the first `i`, and `s[i]`.
pub proof fn lemma_take_contains<A>(s: Seq<A>, i: int)
    requires
        0 <= i < s.len(),
    ensures
        forall|x: A| s.take(i + 1).contains(x) <==> (s.take(i).contains(x) || x == s[i]),
{
    let nk = s.take(i + 1);
    let pk = s.take(i);
    assert(nk =~= pk.push(s[i]));
    assert forall|x: A| nk.contains(x) <==> (pk.contains(x) || x == s[i]) by {
        if nk.contains(x) {
            let j = choose|j: int| 0 <= j < nk.len() && nk[j] == x;
            if j < pk.len() {
                assert(pk[j] == x);
            }
        }
        if pk.contains(x) {
            let j = choose|j: int| 0 <= j < pk.len() && pk[j] == x;
            assert(nk[j] == x);
        }
        if x == s[i] {
            assert(nk[pk.len() as int] == x);
        }
    }
}

/// Keys of `n` fields stay so when a key of `n` fields is added.
pub proof fn lemma_key_widths(
    before: Seq<Vec<Vec<char>>>,
    after: Seq<Vec<Vec<char>>>,
    k: Vec<Vec<char>>,
    n: nat,
)
    requires
        forall|j: int| 0 <= j < before.len() ==> (#[trigger] before[j])@.len() == n,
        k@.len() == n,
        forall|x: Seq<Seq<char>>|
            all_keys(after).contains(x) ==> (all_keys(before).contains(x) || x == key_views(k)),
    ensures
        forall|j: int| 0 <= j < after.len() ==> (#[trigger] after[j])@.len() == n,
{
    assert forall|j: int| 0 <= j < after.len() implies (#[trigger] after[j])@.len() == n by {
        assert(all_keys(after)[j] == key_views(after[j]));
        assert(all_keys(after).contains(all_keys(after)[j]));
        if all_keys(before).contains(all_keys(after)[j]) {
            let i = choose|i: int|
                0 <= i < all_keys(before).len() && all_keys(before)[i] == all_keys(after)[j];
            assert(all_keys(before)[i] == key_views(before[i]));
        }
    }
}


// ── stable order by a number ────────────────────────────────────

/// Where a stable insertion puts number `k` into `order`: after every
/// entry whose number is not greater.
pub open spec fn num_insert_index(order: Seq<int>, keys: Seq<u64>, k: u64) -> nat
    decreases order.len(),
{
    if order.len() == 0 {
        0
    } else if k < keys[order[0]] {
        0
    } else {
        1 + num_insert_index(order.drop_first(), keys, k)
    }
}

pub open spec fn num_sort_order(keys: Seq<u64>, n: nat) -> Seq<int>
    decreases n,
{
    if n == 0 {
        Seq::empty()
    } else {
        let prev = num_sort_order(keys, (n - 1) as nat);
        prev.insert(num_insert_index(prev, keys, keys[n - 1]) as int, n - 1)
    }
}

/// The stable sort of the indices of `keys` by number (`sort_by_key`).
pub open spec fn num_stable_order(keys: Seq<u64>) -> Seq<int> {
    num_sort_order(keys, keys.len())
}

proof fn lemma_num_insert_index(order: Seq<int>, keys: Seq<u64>, k: u64, i: int)
    requires
        0 <= i <= order.len(),
        forall|j: int| 0 <= j < i ==> !(k < #[trigger] keys[order[j]]),
        i == order.len() || k < keys[order[i]],
    ensures
        num_insert_index(order, keys, k) == i,
    decreases order.len(),
{
    if order.len() > 0 && i > 0 {
        let rest = order.drop_first();
        assert forall|j: int| 0 <= j < i - 1 implies !(k < #[trigger] keys[rest[j]]) by {
            assert(rest[j] == order[j + 1]);
        }
        if i - 1 < rest.len() {
            assert(rest[i - 1] == order[i]);
        }
        lemma_num_insert_index(rest, keys, k, i - 1);
    }
}

/// The indices of `keys`, stably sorted by number.
pub fn sorted_indices_by_number(keys: &Vec<u64>) -> (order: Vec<usize>)
    ensures
        order@.map_values(|x: usize| x as int) == num_stable_order(keys@),
{
    let mut order: Vec<usize> = Vec::new();
    let n = keys.len();
    for i in 0..n
        invariant
            n == keys@.len(),
            order@.map_values(|x: usize| x as int) == num_sort_order(keys@, i as nat),
            forall|j: int| 0 <= j < order@.len() ==> (order@[j] as int) < i,
    {
        let ghost prev = order@.map_values(|x: usize| x as int);
        let mut p: usize = 0;
        while p < order.len() && !(keys[i] < keys[order[p]])
            invariant
                p <= order@.len(),
                n == keys@.len(),
                i < n,
                prev == order@.map_values(|x: usize| x as int),
                forall|j: int| 0 <= j < order@.len() ==> (order@[j] as int) < i,
                forall|j: int| 0 <= j < p ==> !(keys@[i as int] < #[trigger] keys@[prev[j]]),
            decreases order.len() - p,
        {
            assert(prev[p as int] == order@[p as int] as int);
            p = p + 1;
        }
        proof {
            if p < order.len() {
                assert(prev[p as int] == order@[p as int] as int);
            }
            lemma_num_insert_index(prev, keys@, keys@[i as int], p as int);
        }
        order.insert(p, i);
        proof {
            assert(num_sort_order(keys@, (i + 1) as nat) == prev.insert(p as int, i as int));
            assert(order@.map_values(|x: usize| x as int) =~= prev.insert(p as int, i as int));
        }
    }
    order
}

proof fn lemma_num_insert_index_bound(order: Seq<int>, keys: Seq<u64>, k: u64)
    ensures
        num_insert_index(order, keys, k) <= order.len(),
    decreases order.len(),
{
    if order.len() > 0 {
        lemma_num_insert_index_bound(order.drop_first(), keys, k);
    }
}

proof fn lemma_num_sort_order_indices(keys: Seq<u64>, n: nat)
    requires
        n <= keys.len(),
    ensures
        num_sort_order(keys, n).len() == n,
        forall|j: int| 0 <= j < n ==> 0 <= #[trigger] num_sort_order(keys, n)[j] < n,
    decreases n,
{
    if n > 0 {
        let prev = num_sort_order(keys, (n - 1) as nat);
        lemma_num_sort_order_indices(keys, (n - 1) as nat);
        lemma_num_insert_index_bound(prev, keys, keys[n - 1]);
        let p = num_insert_index(prev, keys, keys[n - 1]) as int;
        let s = prev.insert(p, n - 1);
        assert forall|j: int| 0 <= j < n implies 0 <= #[trigger] s[j] < n by {
            if j < p {
                assert(s[j] == prev[j]);
            } else if j > p {
                assert(s[j] == prev[j - 1]);
            }
        }
    }
}

/// The numeric stable order lists indices of `keys`, one per key.
pub proof fn lemma_num_stable_order_indices(keys: Seq<u64>)
    ensures
        num_stable_order(keys).len() == keys.len(),
        forall|j: int| 0 <= j < keys.len() ==> 0 <= #[trigger] num_stable_order(keys)[j] < keys.len(),
{
    lemma_num_sort_order_indices(keys, keys.len());
}

} // verus!
