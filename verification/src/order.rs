//! Stable ordering by lexicographic keys: the order `slice::sort_by_key`
//! and `slice::sort_by` give when the key of each item is written as a
//! sequence of numbers compared lexicographically.
use vstd::prelude::*;

verus! {

/// `a` comes strictly before `b` in lexicographic order (a proper prefix
/// comes first).
pub open spec fn key_lt(a: Seq<u64>, b: Seq<u64>) -> bool
    decreases a.len(),
{
    if a.len() == 0 {
        b.len() > 0
    } else if b.len() == 0 {
        false
    } else if a[0] != b[0] {
        a[0] < b[0]
    } else {
        key_lt(a.drop_first(), b.drop_first())
    }
}

pub open spec fn key_le(a: Seq<u64>, b: Seq<u64>) -> bool {
    !key_lt(b, a)
}

/// The characters of a string as numbers: lexicographic order on these is
/// the order of `str`'s `Ord` (UTF-8 preserves the order of code points).
pub open spec fn text_key(s: Seq<char>) -> Seq<u64> {
    s.map_values(|c: char| c as u64)
}

/// Index `i` inserted into the stably ordered indices `sorted`: after every
/// index whose key is not greater than that of `i`.
pub open spec fn insert_index(keys: Seq<Seq<u64>>, sorted: Seq<int>, i: int) -> Seq<int>
    decreases sorted.len(),
{
    if sorted.len() == 0 {
        seq![i]
    } else if key_le(keys[sorted.last()], keys[i]) {
        sorted.push(i)
    } else {
        insert_index(keys, sorted.drop_last(), i).push(sorted.last())
    }
}

/// The indices `0..n` in the stable order of their keys: by key, and by
/// index among equal keys.
pub open spec fn stable_order(keys: Seq<Seq<u64>>, n: int) -> Seq<int>
    decreases n,
{
    if n <= 0 {
        Seq::empty()
    } else {
        insert_index(keys, stable_order(keys, n - 1), n - 1)
    }
}

/// The indices `0..keys.len()` in stable key order.
pub open spec fn sorted_indices(keys: Seq<Seq<u64>>) -> Seq<int> {
    stable_order(keys, keys.len() as int)
}

/// `items` arranged in the order `order` of their indices.
pub open spec fn arrange<T>(items: Seq<T>, order: Seq<int>) -> Seq<T> {
    order.map_values(|k: int| items[k])
}

proof fn lemma_key_lt_step(a: Seq<u64>, b: Seq<u64>, i: int)
    requires
        0 <= i < a.len(),
        i < b.len(),
        a[i] == b[i],
    ensures
        key_lt(a.subrange(i, a.len() as int), b.subrange(i, b.len() as int)) == key_lt(
            a.subrange(i + 1, a.len() as int),
            b.subrange(i + 1, b.len() as int),
        ),
{
    let x = a.subrange(i, a.len() as int);
    let y = b.subrange(i, b.len() as int);
    assert(x.drop_first() == a.subrange(i + 1, a.len() as int));
    assert(y.drop_first() == b.subrange(i + 1, b.len() as int));
}

/// Whether `a` comes strictly before `b`.
pub fn key_less(a: &Vec<u64>, b: &Vec<u64>) -> (r: bool)
    ensures
        r == key_lt(a@, b@),
{
    let mut i: usize = 0;
    assert(a@.subrange(0, a@.len() as int) == a@);
    assert(b@.subrange(0, b@.len() as int) == b@);
    while i < a.len() && i < b.len()
        invariant
            i <= a.len(),
            i <= b.len(),
            key_lt(a@, b@) == key_lt(
                a@.subrange(i as int, a@.len() as int),
                b@.subrange(i as int, b@.len() as int),
            ),
        decreases a.len() - i,
    {
        if a[i] != b[i] {
            return a[i] < b[i];
        }
        proof {
            lemma_key_lt_step(a@, b@, i as int);
        }
        i += 1;
    }
    i < b.len()
}

/// Indices as integers.
pub open spec fn ints(v: Seq<usize>) -> Seq<int> {
    v.map_values(|k: usize| k as int)
}

proof fn lemma_insert_prefix(keys: Seq<Seq<u64>>, sorted: Seq<int>, i: int, j: int)
    requires
        0 < j <= sorted.len(),
        !key_le(keys[sorted[j - 1]], keys[i]),
    ensures
        insert_index(keys, sorted.take(j), i) + sorted.skip(j) == insert_index(
            keys,
            sorted.take(j - 1),
            i,
        ) + sorted.skip(j - 1),
{
    let t = sorted.take(j);
    assert(t.drop_last() == sorted.take(j - 1));
    assert(t.last() == sorted[j - 1]);
    assert(insert_index(keys, t, i) == insert_index(keys, sorted.take(j - 1), i).push(sorted[j - 1]));
    assert(sorted.skip(j - 1) == seq![sorted[j - 1]] + sorted.skip(j));
    assert(insert_index(keys, sorted.take(j - 1), i).push(sorted[j - 1]) + sorted.skip(j)
        =~= insert_index(keys, sorted.take(j - 1), i) + sorted.skip(j - 1));
}

/// The keys held by a vector of key vectors.
pub open spec fn keys_view(keys: Seq<Vec<u64>>) -> Seq<Seq<u64>> {
    keys.map_values(|v: Vec<u64>| v@)
}

/// The indices of `keys` in stable key order.
pub fn stable_sort_indices(keys: &Vec<Vec<u64>>) -> (r: Vec<usize>)
    ensures
        r.len() == keys.len(),
        ints(r@) == sorted_indices(keys_view(keys@)),
        forall|k: int| 0 <= k < r.len() ==> #[trigger] r@[k] < keys.len(),
{
    let ghost kv = keys_view(keys@);
    let n = keys.len();
    let mut perm: Vec<usize> = Vec::new();
    let mut i: usize = 0;
    while i < n
        invariant
            n == keys.len(),
            kv == keys_view(keys@),
            i <= n,
            perm.len() == i,
            ints(perm@) == stable_order(kv, i as int),
            forall|k: int| 0 <= k < perm.len() ==> #[trigger] perm@[k] < i,
        decreases n - i,
    {
        let ghost sorted = ints(perm@);
        perm.push(i);
        let mut j: usize = i;
        assert(sorted.take(i as int) == sorted);
        assert(sorted.skip(i as int) =~= Seq::<int>::empty());
        assert(ints(perm@) =~= sorted.take(j as int) + seq![i as int] + sorted.skip(j as int));
        while j > 0 && !key_le_exec(&keys[perm[j - 1]], &keys[i])
            invariant
                n == keys.len(),
                kv == keys_view(keys@),
                i < n,
                j <= i,
                perm.len() == i + 1,
                perm@[j as int] == i,
                sorted.len() == i,
                ints(perm@) == sorted.take(j as int) + seq![i as int] + sorted.skip(j as int),
                insert_index(kv, sorted, i as int) == insert_index(kv, sorted.take(j as int), i as int)
                    + sorted.skip(j as int),
                forall|k: int| 0 <= k < perm.len() ==> #[trigger] perm@[k] < i + 1,
            decreases j,
        {
            proof {
                assert(ints(perm@)[j - 1] == sorted[j - 1]);
                assert(kv[perm@[j - 1] as int] == keys@[perm@[j - 1] as int]@);
                lemma_insert_prefix(kv, sorted, i as int, j as int);
            }
            let ghost before = ints(perm@);
            let a = perm[j - 1];
            perm.set(j - 1, i);
            perm.set(j, a);
            proof {
                let goal = sorted.take(j - 1) + seq![i as int] + sorted.skip(j - 1);
                assert forall|k: int| 0 <= k < perm.len() implies ints(perm@)[k] == goal[k] by {
                    if k < j - 1 {
                        assert(before[k] == sorted[k]);
                    } else if k == j - 1 {
                    } else if k == j {
                        assert(before[j - 1] == sorted[j - 1]);
                    } else {
                        assert(before[k] == sorted[k - 1]);
                    }
                }
                assert(ints(perm@) =~= goal);
            }
            j -= 1;
        }
        proof {
            let t = sorted.take(j as int);
            if j > 0 {
                assert(ints(perm@)[j - 1] == sorted[j - 1]);
                assert(kv[perm@[j - 1] as int] == keys@[perm@[j - 1] as int]@);
                assert(key_le(kv[t.last()], kv[i as int]));
                assert(insert_index(kv, t, i as int) == t.push(i as int));
            } else {
                assert(t.len() == 0);
                assert(insert_index(kv, t, i as int) == seq![i as int]);
            }
            assert(ints(perm@) =~= insert_index(kv, sorted, i as int));
            assert(stable_order(kv, i + 1) == insert_index(kv, stable_order(kv, i as int), i as int));
        }
        i += 1;
    }
    perm
}

/// Whether the key `a` is not greater than `b`.
pub fn key_le_exec(a: &Vec<u64>, b: &Vec<u64>) -> (r: bool)
    ensures
        r == key_le(a@, b@),
{
    !key_less(b, a)
}

} // verus!

verus! {

/// The sort key of a text: its characters as numbers.
pub fn text_key_of(s: &str) -> (r: Vec<u64>)
    ensures
        r@ == text_key(s@),
{
    let cs = crate::text::chars_of(s);
    let mut out: Vec<u64> = Vec::new();
    let mut i: usize = 0;
    while i < cs.len()
        invariant
            i <= cs.len(),
            cs@ == s@,
            out@ == text_key(cs@.take(i as int)),
        decreases cs.len() - i,
    {
        out.push(cs[i] as u64);
        assert(text_key(cs@.take(i + 1)) =~= text_key(cs@.take(i as int)).push(cs@[i as int] as u64));
        i += 1;
    }
    assert(cs@.take(cs.len() as int) == cs@);
    out
}

} // verus!

verus! {

proof fn lemma_lt_irreflexive(a: Seq<u64>)
    ensures
        !key_lt(a, a),
    decreases a.len(),
{
    if a.len() > 0 {
        lemma_lt_irreflexive(a.drop_first());
    }
}

proof fn lemma_lt_transitive(a: Seq<u64>, b: Seq<u64>, c: Seq<u64>)
    requires
        key_lt(a, b),
        key_lt(b, c),
    ensures
        key_lt(a, c),
    decreases a.len(),
{
    if a.len() > 0 && b.len() > 0 && c.len() > 0 && a[0] == b[0] && b[0] == c[0] {
        lemma_lt_transitive(a.drop_first(), b.drop_first(), c.drop_first());
    }
}

proof fn lemma_lt_total(a: Seq<u64>, b: Seq<u64>)
    ensures
        a == b || key_lt(a, b) || key_lt(b, a),
    decreases a.len(),
{
    if a.len() > 0 && b.len() > 0 && a[0] == b[0] {
        lemma_lt_total(a.drop_first(), b.drop_first());
        if a.drop_first() == b.drop_first() {
            assert(a =~= seq![a[0]] + a.drop_first());
            assert(b =~= seq![b[0]] + b.drop_first());
        }
    } else if a.len() == 0 && b.len() == 0 {
        assert(a =~= b);
    }
}

/// Lexicographic order is a total order: `key_le` is reflexive,
/// transitive and total, and `key_lt` is its strict part.
pub proof fn key_order_is_total(a: Seq<u64>, b: Seq<u64>, c: Seq<u64>)
    ensures
        key_le(a, a),
        key_le(a, b) && key_le(b, c) ==> key_le(a, c),
        key_le(a, b) || key_le(b, a),
        key_le(a, b) && key_le(b, a) ==> a == b,
        key_lt(a, b) <==> key_le(a, b) && a != b,
{
    lemma_lt_irreflexive(a);
    lemma_lt_total(a, b);
    lemma_lt_total(b, c);
    lemma_lt_total(a, c);
    if key_lt(a, b) && key_lt(b, a) {
        lemma_lt_transitive(a, b, a);
    }
    if key_le(a, b) && key_le(b, c) && key_lt(c, a) {
        if key_lt(a, b) {
            lemma_lt_transitive(c, a, b);
        }
    }
}

/// The indices `s` are in order of their keys.
pub open spec fn in_key_order(keys: Seq<Seq<u64>>, s: Seq<int>) -> bool {
    forall|p: int, q: int| 0 <= p < q < s.len() ==> key_le(#[trigger] keys[s[p]], #[trigger] keys[s[q]])
}

/// Among indices with equal keys, `s` keeps the smaller index first.
pub open spec fn keeps_index_order(keys: Seq<Seq<u64>>, s: Seq<int>) -> bool {
    forall|p: int, q: int|
        0 <= p < q < s.len() && keys[s[p]] == keys[s[q]] ==> #[trigger] s[p] < #[trigger] s[q]
}

/// No index occurs twice in `s`.
pub open spec fn distinct_indices(s: Seq<int>) -> bool {
    forall|p: int, q: int| 0 <= p < q < s.len() ==> #[trigger] s[p] != #[trigger] s[q]
}

proof fn lemma_insert_distinct(keys: Seq<Seq<u64>>, s: Seq<int>, i: int)
    requires
        distinct_indices(s),
        !s.contains(i),
    ensures
        distinct_indices(insert_index(keys, s, i)),
    decreases s.len(),
{
    if s.len() > 0 && !key_le(keys[s.last()], keys[i]) {
        let d = s.drop_last();
        assert(!d.contains(i)) by {
            if d.contains(i) {
                let k = choose|k: int| 0 <= k < d.len() && d[k] == i;
                assert(s[k] == i);
            }
        }
        assert forall|p: int, q: int| 0 <= p < q < d.len() implies #[trigger] d[p] != #[trigger] d[q] by {
            assert(d[p] == s[p] && d[q] == s[q]);
        }
        lemma_insert_distinct(keys, d, i);
        lemma_insert_elements(keys, d, i);
        let u = insert_index(keys, d, i);
        let last = s.last();
        assert(!u.contains(last)) by {
            if u.contains(last) {
                if last == i {
                    assert(s[s.len() - 1] == i);
                } else {
                    assert(d.contains(last));
                    let k = choose|k: int| 0 <= k < d.len() && d[k] == last;
                    assert(s[k] == s[s.len() - 1]);
                }
            }
        }
        let t = u.push(last);
        assert forall|p: int, q: int| 0 <= p < q < t.len() implies #[trigger] t[p] != #[trigger] t[q] by {
            if q == u.len() {
                assert(u.contains(u[p]));
            } else {
                assert(t[p] == u[p] && t[q] == u[q]);
            }
        }
    } else if s.len() > 0 {
        let t = s.push(i);
        assert forall|p: int, q: int| 0 <= p < q < t.len() implies #[trigger] t[p] != #[trigger] t[q] by {
            if q == s.len() {
                assert(s.contains(s[p]));
            } else {
                assert(t[p] == s[p] && t[q] == s[q]);
            }
        }
    }
}

proof fn lemma_insert_elements(keys: Seq<Seq<u64>>, s: Seq<int>, i: int)
    ensures
        insert_index(keys, s, i).len() == s.len() + 1,
        forall|x: int| #[trigger] insert_index(keys, s, i).contains(x) <==> s.contains(x) || x == i,
    decreases s.len(),
{
    if s.len() > 0 && !key_le(keys[s.last()], keys[i]) {
        let u = insert_index(keys, s.drop_last(), i);
        lemma_insert_elements(keys, s.drop_last(), i);
        assert forall|x: int| #[trigger] u.push(s.last()).contains(x) <==> s.contains(x) || x == i by {
            if u.push(s.last()).contains(x) {
                let k = choose|k: int| 0 <= k < u.len() + 1 && u.push(s.last())[k] == x;
                if k < u.len() {
                    assert(u.contains(x));
                    if x != i {
                        let m = choose|m: int| 0 <= m < s.len() - 1 && s.drop_last()[m] == x;
                        assert(s[m] == x);
                    }
                } else {
                    assert(s[s.len() - 1] == x);
                }
            }
            if s.contains(x) {
                let m = choose|m: int| 0 <= m < s.len() && s[m] == x;
                if m < s.len() - 1 {
                    assert(s.drop_last()[m] == x);
                    assert(u.contains(x));
                    let k = choose|k: int| 0 <= k < u.len() && u[k] == x;
                    assert(u.push(s.last())[k] == x);
                } else {
                    assert(u.push(s.last())[u.len() as int] == x);
                }
            }
            if x == i {
                assert(u.contains(i));
                let k = choose|k: int| 0 <= k < u.len() && u[k] == i;
                assert(u.push(s.last())[k] == x);
            }
        }
    } else if s.len() > 0 {
        assert forall|x: int| #[trigger] s.push(i).contains(x) <==> s.contains(x) || x == i by {
            if s.push(i).contains(x) {
                let k = choose|k: int| 0 <= k < s.len() + 1 && s.push(i)[k] == x;
                if k < s.len() {
                    assert(s[k] == x);
                }
            }
            if s.contains(x) {
                let m = choose|m: int| 0 <= m < s.len() && s[m] == x;
                assert(s.push(i)[m] == x);
            }
            if x == i {
                assert(s.push(i)[s.len() as int] == x);
            }
        }
    } else {
        assert forall|x: int| #[trigger] seq![i].contains(x) <==> s.contains(x) || x == i by {
            if x == i {
                assert(seq![i][0] == x);
            }
        }
    }
}

proof fn lemma_insert_ordered(keys: Seq<Seq<u64>>, s: Seq<int>, i: int)
    requires
        in_key_order(keys, s),
        keeps_index_order(keys, s),
        forall|k: int| 0 <= k < s.len() ==> #[trigger] s[k] < i,
    ensures
        in_key_order(keys, insert_index(keys, s, i)),
        keeps_index_order(keys, insert_index(keys, s, i)),
    decreases s.len(),
{
    if s.len() == 0 {
    } else if key_le(keys[s.last()], keys[i]) {
        let t = s.push(i);
        assert forall|p: int, q: int| 0 <= p < q < t.len() implies key_le(
            #[trigger] keys[t[p]],
            #[trigger] keys[t[q]],
        ) by {
            if q == s.len() {
                key_order_is_total(keys[s[p]], keys[s.last()], keys[i]);
                if p < s.len() - 1 {
                    assert(key_le(keys[s[p]], keys[s[s.len() - 1]]));
                }
            } else {
                assert(t[p] == s[p] && t[q] == s[q]);
            }
        }
        assert forall|p: int, q: int|
            0 <= p < q < t.len() && keys[t[p]] == keys[t[q]] implies #[trigger] t[p]
            < #[trigger] t[q] by {
            if q == s.len() {
                assert(t[p] == s[p]);
            } else {
                assert(t[p] == s[p] && t[q] == s[q]);
            }
        }
    } else {
        let d = s.drop_last();
        let last = s.last();
        assert forall|p: int, q: int| 0 <= p < q < d.len() implies key_le(
            #[trigger] keys[d[p]],
            #[trigger] keys[d[q]],
        ) by {
            assert(d[p] == s[p] && d[q] == s[q]);
        }
        assert forall|p: int, q: int|
            0 <= p < q < d.len() && keys[d[p]] == keys[d[q]] implies #[trigger] d[p]
            < #[trigger] d[q] by {
            assert(d[p] == s[p] && d[q] == s[q]);
        }
        lemma_insert_ordered(keys, d, i);
        lemma_insert_elements(keys, d, i);
        let u = insert_index(keys, d, i);
        let t = u.push(last);
        key_order_is_total(keys[i], keys[last], keys[i]);
        assert forall|p: int, q: int| 0 <= p < q < t.len() implies key_le(
            #[trigger] keys[t[p]],
            #[trigger] keys[t[q]],
        ) && (keys[t[p]] == keys[t[q]] ==> t[p] < t[q]) by {
            if q == u.len() {
                let x = u[p];
                assert(u.contains(x));
                if x == i {
                    lemma_lt_irreflexive(keys[i]);
                } else {
                    let m = choose|m: int| 0 <= m < d.len() && d[m] == x;
                    assert(s[m] == x);
                    assert(key_le(keys[s[m]], keys[s[s.len() - 1]]));
                    if keys[s[m]] == keys[s[s.len() - 1]] {
                        assert(s[m] < s[s.len() - 1]);
                    }
                }
            } else {
                assert(t[p] == u[p] && t[q] == u[q]);
            }
        }
    }
}

proof fn lemma_stable_order(keys: Seq<Seq<u64>>, n: int)
    requires
        n >= 0,
    ensures
        stable_order(keys, n).len() == n,
        forall|x: int| #[trigger] stable_order(keys, n).contains(x) <==> 0 <= x < n,
        in_key_order(keys, stable_order(keys, n)),
        keeps_index_order(keys, stable_order(keys, n)),
        distinct_indices(stable_order(keys, n)),
    decreases n,
{
    if n > 0 {
        let s = stable_order(keys, n - 1);
        lemma_stable_order(keys, n - 1);
        lemma_insert_elements(keys, s, n - 1);
        assert forall|k: int| 0 <= k < s.len() implies #[trigger] s[k] < n - 1 by {
            assert(s.contains(s[k]));
        }
        lemma_insert_ordered(keys, s, n - 1);
        lemma_insert_distinct(keys, s, n - 1);
    }
}

/// The stable order is a sorting permutation: it lists each index
/// `0..keys.len()` exactly once, by key, and keeps the given order of
/// indices whose keys are equal.
pub proof fn sorted_indices_sort_stably(keys: Seq<Seq<u64>>)
    ensures
        sorted_indices(keys).len() == keys.len(),
        forall|x: int| #[trigger] sorted_indices(keys).contains(x) <==> 0 <= x < keys.len(),
        distinct_indices(sorted_indices(keys)),
        in_key_order(keys, sorted_indices(keys)),
        keeps_index_order(keys, sorted_indices(keys)),
{
    lemma_stable_order(keys, keys.len() as int);
}

/// Every item of `l` shows up in `v`, at position `at(k)` for item `k`.
pub open spec fn shown_at<T>(v: Seq<T>, l: Seq<T>, at: spec_fn(int) -> int) -> bool {
    forall|k: int| 0 <= k < l.len() ==> 0 <= #[trigger] at(k) < v.len() && v[at(k)] == l[k]
}

/// Every item of `l` shows up somewhere in `v`.
pub open spec fn shows_each<T>(v: Seq<T>, l: Seq<T>) -> bool {
    exists|at: spec_fn(int) -> int| shown_at(v, l, at)
}

} // verus!
