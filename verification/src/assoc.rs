//! Association sequences keyed by strings.
//!
//! Both declaration kinds carry small key–value maps whose iteration
//! order must stay deterministic, so they are held as sequences of
//! pairs rather than hashed maps.  The spec functions here give those
//! sequences their map meaning: the first entry with a key binds it.

use vstd::prelude::*;

verus! {

/// Index of the first entry with key `k`, or `-1` if none has it.
pub open spec fn assoc_index<V>(m: Seq<(Seq<char>, V)>, k: Seq<char>) -> int
    decreases m.len(),
{
    if m.len() == 0 {
        -1
    } else if m[0].0 == k {
        0
    } else {
        let r = assoc_index(m.skip(1), k);
        if r == -1 {
            -1
        } else {
            1 + r
        }
    }
}

/// Whether some entry has key `k`.
pub open spec fn assoc_has<V>(m: Seq<(Seq<char>, V)>, k: Seq<char>) -> bool {
    assoc_index(m, k) >= 0
}

/// The value bound to `k` by its first entry.
pub open spec fn assoc_get<V>(m: Seq<(Seq<char>, V)>, k: Seq<char>) -> V
    recommends
        assoc_has(m, k),
{
    m[assoc_index(m, k)].1
}

pub proof fn lemma_assoc_index<V>(m: Seq<(Seq<char>, V)>, k: Seq<char>)
    ensures
        -1 <= assoc_index(m, k) < m.len(),
        assoc_index(m, k) >= 0 ==> m[assoc_index(m, k)].0 == k,
        forall|j: int|
            0 <= j < m.len() && (j < assoc_index(m, k) || assoc_index(m, k) == -1) ==> m[j].0 != k,
    decreases m.len(),
{
    if m.len() > 0 && m[0].0 != k {
        lemma_assoc_index(m.skip(1), k);
        assert(forall|j: int| 1 <= j < m.len() ==> m[j] == m.skip(1)[j - 1]);
    }
}

/// Bind `k` to `v`: replace the entry that holds `k`, keeping its
/// place, or append a new entry at the end.
pub open spec fn assoc_set<V>(m: Seq<(Seq<char>, V)>, k: Seq<char>, v: V) -> Seq<(Seq<char>, V)> {
    if assoc_has(m, k) {
        m.update(assoc_index(m, k), (k, v))
    } else {
        m.push((k, v))
    }
}

/// Lay `desc` over `anc`, entry by entry: every binding of `desc` wins,
/// bindings only `anc` has survive, and `anc`'s entry order is kept.
pub open spec fn assoc_compose<V>(
    anc: Seq<(Seq<char>, V)>,
    desc: Seq<(Seq<char>, V)>,
) -> Seq<(Seq<char>, V)>
    decreases desc.len(),
{
    if desc.len() == 0 {
        anc
    } else {
        assoc_compose(assoc_set(anc, desc[0].0, desc[0].1), desc.skip(1))
    }
}

/// After `assoc_set`, looking `k` up yields `v`, and no other key
/// moved or changed its value.
pub proof fn lemma_assoc_set<V>(m: Seq<(Seq<char>, V)>, k: Seq<char>, v: V)
    ensures
        assoc_has(assoc_set(m, k, v), k),
        assoc_get(assoc_set(m, k, v), k) == v,
        forall|k2: Seq<char>|
            k2 != k ==> #[trigger] assoc_index(assoc_set(m, k, v), k2) == assoc_index(m, k2),
        forall|k2: Seq<char>|
            k2 != k && assoc_has(m, k2) ==> #[trigger] assoc_get(assoc_set(m, k, v), k2)
                == assoc_get(m, k2),
    decreases m.len(),
{
    lemma_assoc_index(m, k);
    if assoc_has(m, k) {
        let i = assoc_index(m, k);
        lemma_assoc_update_hit(m, i, k, v);
        assert forall|k2: Seq<char>| k2 != k && assoc_has(m, k2) implies #[trigger] assoc_get(
            assoc_set(m, k, v),
            k2,
        ) == assoc_get(m, k2) by {
            lemma_assoc_index(m, k2);
            assert(m[assoc_index(m, k2)].0 == k2);
            assert(assoc_index(m, k2) != i);
            assert(m.update(i, (k, v))[assoc_index(m, k2)] == m[assoc_index(m, k2)]);
        }
    } else {
        lemma_assoc_push_miss(m, k, v);
        assert forall|k2: Seq<char>| k2 != k && assoc_has(m, k2) implies #[trigger] assoc_get(
            assoc_set(m, k, v),
            k2,
        ) == assoc_get(m, k2) by {
            lemma_assoc_index(m, k2);
            assert(m.push((k, v))[assoc_index(m, k2)] == m[assoc_index(m, k2)]);
        }
    }
}

proof fn lemma_assoc_update_hit<V>(m: Seq<(Seq<char>, V)>, i: int, k: Seq<char>, v: V)
    requires
        0 <= i < m.len(),
        m[i].0 == k,
        forall|j: int| 0 <= j < i ==> m[j].0 != k,
    ensures
        assoc_index(m.update(i, (k, v)), k) == i,
        forall|k2: Seq<char>|
            k2 != k ==> #[trigger] assoc_index(m.update(i, (k, v)), k2) == assoc_index(m, k2),
    decreases m.len(),
{
    if i == 0 {
        assert(m.update(0, (k, v))[0].0 == k);
        assert forall|k2: Seq<char>| k2 != k implies #[trigger] assoc_index(
            m.update(0, (k, v)),
            k2,
        ) == assoc_index(m, k2) by {
            assert(m.update(0, (k, v)).skip(1) =~= m.skip(1));
            assert(m[0].0 == k);
        }
    } else {
        lemma_assoc_update_hit(m.skip(1), i - 1, k, v);
        assert(m.update(i, (k, v)).skip(1) =~= m.skip(1).update(i - 1, (k, v)));
        assert(m.update(i, (k, v))[0] == m[0]);
        assert(assoc_index(m.update(i, (k, v)), k) == i);
        assert forall|k2: Seq<char>| k2 != k implies #[trigger] assoc_index(
            m.update(i, (k, v)),
            k2,
        ) == assoc_index(m, k2) by {
            assert(assoc_index(m.skip(1).update(i - 1, (k, v)), k2) == assoc_index(
                m.skip(1),
                k2,
            ));
        }
    }
}

proof fn lemma_assoc_push_miss<V>(m: Seq<(Seq<char>, V)>, k: Seq<char>, v: V)
    requires
        forall|j: int| 0 <= j < m.len() ==> m[j].0 != k,
    ensures
        assoc_index(m.push((k, v)), k) == m.len(),
        forall|k2: Seq<char>|
            k2 != k ==> #[trigger] assoc_index(m.push((k, v)), k2) == assoc_index(m, k2),
    decreases m.len(),
{
    if m.len() == 0 {
        assert(m.push((k, v))[0].0 == k);
        assert forall|k2: Seq<char>| k2 != k implies #[trigger] assoc_index(
            m.push((k, v)),
            k2,
        ) == assoc_index(m, k2) by {
            let p = m.push((k, v));
            assert(p.skip(1) =~= Seq::<(Seq<char>, V)>::empty());
            assert(assoc_index(p.skip(1), k2) == -1);
            assert(assoc_index(p, k2) == -1);
            assert(assoc_index(m, k2) == -1);
        }
    } else {
        lemma_assoc_push_miss(m.skip(1), k, v);
        assert(m.push((k, v)).skip(1) =~= m.skip(1).push((k, v)));
        assert(m.push((k, v))[0] == m[0]);
        assert(assoc_index(m.push((k, v)), k) == m.len());
        assert forall|k2: Seq<char>| k2 != k implies #[trigger] assoc_index(
            m.push((k, v)),
            k2,
        ) == assoc_index(m, k2) by {
            assert(assoc_index(m.skip(1).push((k, v)), k2) == assoc_index(m.skip(1), k2));
        }
    }
}

/// Whether no two entries share a key.
pub open spec fn distinct_keys<V>(m: Seq<(Seq<char>, V)>) -> bool {
    forall|i: int, j: int| 0 <= i < j < m.len() ==> m[i].0 != m[j].0
}

/// `assoc_set` never introduces a second entry for a key.
pub proof fn lemma_assoc_set_distinct<V>(m: Seq<(Seq<char>, V)>, k: Seq<char>, v: V)
    requires
        distinct_keys(m),
    ensures
        distinct_keys(assoc_set(m, k, v)),
{
    lemma_assoc_index(m, k);
    if assoc_has(m, k) {
        let i = assoc_index(m, k);
        assert(forall|j: int|
            0 <= j < m.len() ==> m.update(i, (k, v))[j].0 == m[j].0);
    }
}

/// Composition of duplicate-free maps stays duplicate-free.
pub proof fn lemma_assoc_compose_distinct<V>(anc: Seq<(Seq<char>, V)>, desc: Seq<(Seq<char>, V)>)
    requires
        distinct_keys(anc),
    ensures
        distinct_keys(assoc_compose(anc, desc)),
    decreases desc.len(),
{
    if desc.len() > 0 {
        lemma_assoc_set_distinct(anc, desc[0].0, desc[0].1);
        lemma_assoc_compose_distinct(assoc_set(anc, desc[0].0, desc[0].1), desc.skip(1));
    }
}

/// Composition binds each key to the descendant's value where the
/// descendant binds it, and to the ancestor's value otherwise.
pub proof fn lemma_assoc_compose<V>(
    anc: Seq<(Seq<char>, V)>,
    desc: Seq<(Seq<char>, V)>,
    k: Seq<char>,
)
    requires
        distinct_keys(desc),
    ensures
        assoc_has(desc, k) ==> assoc_has(assoc_compose(anc, desc), k) && assoc_get(
            assoc_compose(anc, desc),
            k,
        ) == assoc_get(desc, k),
        !assoc_has(desc, k) ==> assoc_index(assoc_compose(anc, desc), k) == assoc_index(anc, k)
            && (assoc_has(anc, k) ==> assoc_get(assoc_compose(anc, desc), k) == assoc_get(anc, k)),
    decreases desc.len(),
{
    if desc.len() > 0 {
        let m2 = assoc_set(anc, desc[0].0, desc[0].1);
        assert(forall|j: int| 1 <= j < desc.len() ==> desc[j] == desc.skip(1)[j - 1]);
        lemma_assoc_index(desc, k);
        lemma_assoc_index(anc, k);
        lemma_assoc_index(desc.skip(1), k);
        lemma_assoc_set(anc, desc[0].0, desc[0].1);
        lemma_assoc_compose(m2, desc.skip(1), k);
        lemma_assoc_index(m2, k);
        lemma_assoc_index(assoc_compose(m2, desc.skip(1)), k);
        if desc[0].0 == k {
            assert(!assoc_has(desc.skip(1), k));
            assert(assoc_index(desc, k) == 0);
        }
    }
}

} // verus!
