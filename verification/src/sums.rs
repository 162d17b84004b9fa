//! Sums over the values of a finite map, and how they change with the map.

use vstd::prelude::*;

verus! {

/// The step of a sum over the keys of `m`: adds the weight `g` of a key and its value.
pub open spec fn adder<V>(m: Map<Seq<u8>, V>, g: spec_fn(Seq<u8>, V) -> int) -> spec_fn(int,
    Seq<u8>) -> int {
    |acc: int, k: Seq<u8>| acc + g(k, m[k])
}

/// The sum of the weights `g` of all entries of `m`.
pub open spec fn map_sum<V>(m: Map<Seq<u8>, V>, g: spec_fn(Seq<u8>, V) -> int) -> int {
    m.dom().fold(0int, adder(m, g))
}

/// What the value under `k` adds to the sum: its weight, or nothing where `k` has no value.
pub open spec fn share<V>(m: Map<Seq<u8>, V>, g: spec_fn(Seq<u8>, V) -> int, k: Seq<u8>) -> int {
    if m.contains_key(k) {
        g(k, m[k])
    } else {
        0
    }
}

proof fn lemma_adder_commutes<V>(m: Map<Seq<u8>, V>, g: spec_fn(Seq<u8>, V) -> int)
    ensures
        vstd::set::fold::is_fun_commutative(adder(m, g)),
{
    let f = adder(m, g);
    assert forall|a1: Seq<u8>, a2: Seq<u8>, b: int| #[trigger] f(f(b, a2), a1)
        == f(f(b, a1), a2) by {}
}

/// Two maps that agree on a set of keys have the same sum over that set.
proof fn lemma_fold_agrees<V>(s: Set<Seq<u8>>, m1: Map<Seq<u8>, V>, m2: Map<Seq<u8>, V>,
    g: spec_fn(Seq<u8>, V) -> int)
    requires
        s.finite(),
        forall|k: Seq<u8>| s.contains(k) ==> m1[k] == m2[k],
    ensures
        s.fold(0int, adder(m1, g)) == s.fold(0int, adder(m2, g)),
    decreases s.len(),
{
    lemma_adder_commutes(m1, g);
    lemma_adder_commutes(m2, g);
    if s.len() == 0 {
        assert(s =~= Set::<Seq<u8>>::empty());
        vstd::set::fold::lemma_fold_empty(0int, adder(m1, g));
        vstd::set::fold::lemma_fold_empty(0int, adder(m2, g));
    } else {
        let a = s.choose();
        let rest = s.remove(a);
        assert(rest.insert(a) =~= s);
        lemma_fold_agrees(rest, m1, m2, g);
        vstd::set::fold::lemma_fold_insert(rest, 0int, adder(m1, g), a);
        vstd::set::fold::lemma_fold_insert(rest, 0int, adder(m2, g), a);
    }
}

/// The sum over nothing is nothing.
pub proof fn lemma_sum_empty<V>(g: spec_fn(Seq<u8>, V) -> int)
    ensures
        map_sum(Map::<Seq<u8>, V>::empty(), g) == 0,
{
    let m = Map::<Seq<u8>, V>::empty();
    assert(m.dom() =~= Set::<Seq<u8>>::empty());
    vstd::set::fold::lemma_fold_empty(0int, adder(m, g));
}

proof fn lemma_sum_insert_fresh<V>(m: Map<Seq<u8>, V>, g: spec_fn(Seq<u8>, V) -> int, k: Seq<u8>,
    v: V)
    requires
        m.dom().finite(),
        !m.contains_key(k),
    ensures
        map_sum(m.insert(k, v), g) == map_sum(m, g) + g(k, v),
{
    let m2 = m.insert(k, v);
    assert(m2.dom() =~= m.dom().insert(k));
    lemma_adder_commutes(m2, g);
    vstd::set::fold::lemma_fold_insert(m.dom(), 0int, adder(m2, g), k);
    lemma_fold_agrees(m.dom(), m2, m, g);
}

/// Removing a key takes its share out of the sum.
pub proof fn lemma_sum_remove<V>(m: Map<Seq<u8>, V>, g: spec_fn(Seq<u8>, V) -> int, k: Seq<u8>)
    requires
        m.dom().finite(),
    ensures
        map_sum(m.remove(k), g) == map_sum(m, g) - share(m, g, k),
        m.remove(k).dom().finite(),
{
    if m.contains_key(k) {
        let r = m.remove(k);
        assert(r.insert(k, m[k]) =~= m);
        lemma_sum_insert_fresh(r, g, k, m[k]);
    } else {
        assert(m.remove(k) =~= m);
    }
}

/// Setting a value puts its weight into the sum in place of the share that the key had.
pub proof fn lemma_sum_insert<V>(m: Map<Seq<u8>, V>, g: spec_fn(Seq<u8>, V) -> int, k: Seq<u8>,
    v: V)
    requires
        m.dom().finite(),
    ensures
        map_sum(m.insert(k, v), g) == map_sum(m, g) - share(m, g, k) + g(k, v),
        m.insert(k, v).dom().finite(),
{
    let r = m.remove(k);
    lemma_sum_remove(m, g, k);
    assert(r.insert(k, v) =~= m.insert(k, v));
    lemma_sum_insert_fresh(r, g, k, v);
}

/// Two maps with the same keys, whose values weigh the same key by key, have the same sum.
pub proof fn lemma_sum_agrees<V>(m1: Map<Seq<u8>, V>, m2: Map<Seq<u8>, V>,
    g: spec_fn(Seq<u8>, V) -> int)
    requires
        m1.dom().finite(),
        m1.dom() == m2.dom(),
        forall|k: Seq<u8>| m1.contains_key(k) ==> #[trigger] g(k, m1[k]) == g(k, m2[k]),
    ensures
        map_sum(m1, g) == map_sum(m2, g),
    decreases m1.dom().len(),
{
    if m1.dom().len() == 0 {
        assert(m1 =~= Map::<Seq<u8>, V>::empty());
        assert(m2 =~= Map::<Seq<u8>, V>::empty());
    } else {
        let a = m1.dom().choose();
        assert(m1.contains_key(a) && m2.contains_key(a));
        assert(g(a, m1[a]) == g(a, m2[a]));
        lemma_sum_remove(m1, g, a);
        lemma_sum_remove(m2, g, a);
        assert(m1.remove(a).dom() =~= m2.remove(a).dom());
        assert forall|k: Seq<u8>| m1.remove(a).contains_key(k) implies #[trigger] g(
            k,
            m1.remove(a)[k],
        ) == g(k, m2.remove(a)[k]) by {
            assert(m1.contains_key(k));
            assert(g(k, m1[k]) == g(k, m2[k]));
        }
        lemma_sum_agrees(m1.remove(a), m2.remove(a), g);
    }
}

/// A sum of weights that are never negative is never negative, and holds every share.
pub proof fn lemma_sum_bounds_share<V>(m: Map<Seq<u8>, V>, g: spec_fn(Seq<u8>, V) -> int,
    k: Seq<u8>)
    requires
        m.dom().finite(),
        forall|k: Seq<u8>, v: V| #[trigger] g(k, v) >= 0,
    ensures
        0 <= share(m, g, k) <= map_sum(m, g),
    decreases m.dom().len(),
{
    if m.dom().len() == 0 {
        assert(m =~= Map::<Seq<u8>, V>::empty());
        lemma_sum_empty(g);
    } else {
        let a = m.dom().choose();
        lemma_sum_remove(m, g, a);
        lemma_sum_bounds_share(m.remove(a), g, k);
    }
}

/// A sum of weights that are nothing or one is at most the number of entries.
pub proof fn lemma_sum_at_most_count<V>(m: Map<Seq<u8>, V>, g: spec_fn(Seq<u8>, V) -> int)
    requires
        m.dom().finite(),
        forall|k: Seq<u8>, v: V| 0 <= #[trigger] g(k, v) <= 1,
    ensures
        0 <= map_sum(m, g) <= m.dom().len(),
    decreases m.dom().len(),
{
    if m.dom().len() == 0 {
        assert(m =~= Map::<Seq<u8>, V>::empty());
        lemma_sum_empty(g);
    } else {
        let a = m.dom().choose();
        lemma_sum_remove(m, g, a);
        lemma_sum_at_most_count(m.remove(a), g);
    }
}

/// A sum of weights of which none is negative and none exceeds `bound` is at most `bound`
/// times the number of entries.
pub proof fn lemma_sum_at_most_bound<V>(
    m: Map<Seq<u8>, V>,
    g: spec_fn(Seq<u8>, V) -> int,
    bound: int,
)
    requires
        m.dom().finite(),
        forall|k: Seq<u8>| m.contains_key(k) ==> 0 <= #[trigger] g(k, m[k]) <= bound,
    ensures
        0 <= map_sum(m, g) <= bound * m.dom().len(),
    decreases m.dom().len(),
{
    if m.dom().len() == 0 {
        assert(m =~= Map::<Seq<u8>, V>::empty());
        lemma_sum_empty(g);
    } else {
        let a = m.dom().choose();
        let rest = m.remove(a);
        lemma_sum_remove(m, g, a);
        assert forall|k: Seq<u8>| rest.contains_key(k) implies 0 <= #[trigger] g(k, rest[k])
            <= bound by {
            assert(m.contains_key(k));
            assert(rest[k] == m[k]);
        }
        lemma_sum_at_most_bound(rest, g, bound);
        let n = m.dom().len() as int;
        assert(rest.dom().len() == n - 1);
        assert(g(a, m[a]) <= bound);
        assert(bound * (n - 1) + bound == bound * n) by (nonlinear_arith);
    }
}

} // verus!
