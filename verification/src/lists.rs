//! Facts about sequences that several modules rest on.
use vstd::prelude::*;

verus! {

pub proof fn lemma_push_contains<A>(s: Seq<A>, x: A, v: A)
    ensures
        s.push(x).contains(v) == (s.contains(v) || v == x),
{
    let t = s.push(x);
    if s.contains(v) {
        let k = choose|k: int| 0 <= k < s.len() && s[k] == v;
        assert(t[k] == v);
    }
    if v == x {
        assert(t[s.len() as int] == v);
    }
    if t.contains(v) {
        let k = choose|k: int| 0 <= k < t.len() && t[k] == v;
        assert(k < s.len() ==> s[k] == v);
    }
}

pub proof fn lemma_push_distinct<A>(s: Seq<A>, x: A)
    requires
        s.no_duplicates(),
        !s.contains(x),
    ensures
        s.push(x).no_duplicates(),
{
    assert forall|i: int, j: int|
        0 <= i < s.len() + 1 && 0 <= j < s.len() + 1 && i != j implies s.push(x)[i] != s.push(
        x,
    )[j] by {
        assert(i < s.len() ==> s.contains(s[i]));
        assert(j < s.len() ==> s.contains(s[j]));
    }
}

pub proof fn lemma_filter_members<A>(s: Seq<A>, keep: spec_fn(A) -> bool, v: A)
    ensures
        s.filter(keep).contains(v) <==> s.contains(v) && keep(v),
    decreases s.len(),
{
    reveal(Seq::filter);
    if s.len() > 0 {
        let rest = s.drop_last();
        lemma_filter_members(rest, keep, v);
        assert(s =~= rest.push(s.last()));
        lemma_push_contains(rest, s.last(), v);
        lemma_push_contains(rest.filter(keep), s.last(), v);
    }
}

pub proof fn lemma_filter_all<A>(s: Seq<A>, keep: spec_fn(A) -> bool)
    requires
        forall|i: int| 0 <= i < s.len() ==> keep(#[trigger] s[i]),
    ensures
        s.filter(keep) == s,
    decreases s.len(),
{
    reveal(Seq::filter);
    if s.len() > 0 {
        let rest = s.drop_last();
        assert forall|i: int| 0 <= i < rest.len() implies keep(#[trigger] rest[i]) by {
            assert(rest[i] == s[i]);
        }
        lemma_filter_all(rest, keep);
        assert(keep(s[s.len() - 1]));
        assert(rest.push(s.last()) =~= s);
    }
}

pub proof fn lemma_filter_distinct<A>(s: Seq<A>, keep: spec_fn(A) -> bool)
    requires
        s.no_duplicates(),
    ensures
        s.filter(keep).no_duplicates(),
    decreases s.len(),
{
    reveal(Seq::filter);
    if s.len() > 0 {
        let rest = s.drop_last();
        lemma_filter_distinct(rest, keep);
        lemma_filter_members(rest, keep, s.last());
        if keep(s.last()) {
            lemma_push_distinct(rest.filter(keep), s.last());
        }
    }
}

// ---------------------------------------------------------------------------
// Ordered maps: sequences of entries with distinct keys
// ---------------------------------------------------------------------------

/// The keys, in order.
pub open spec fn keys<K, V>(entries: Seq<(K, V)>) -> Seq<K> {
    entries.map_values(|e: (K, V)| e.0)
}

/// The value of the last entry under the key.
pub open spec fn lookup<K, V>(entries: Seq<(K, V)>, key: K) -> Option<V>
    decreases entries.len(),
{
    if entries.len() == 0 {
        None
    } else if entries.last().0 == key {
        Some(entries.last().1)
    } else {
        lookup(entries.drop_last(), key)
    }
}

/// The entries with the value under the key: in the key's place where there is
/// one, else as a new last entry.
pub open spec fn put<K, V>(entries: Seq<(K, V)>, key: K, value: V) -> Seq<(K, V)> {
    if keys(entries).contains(key) {
        entries.map_values(
            |e: (K, V)|
                if e.0 == key {
                    (key, value)
                } else {
                    e
                },
        )
    } else {
        entries.push((key, value))
    }
}

/// The entries but for those under the key, in order.
pub open spec fn without_key<K, V>(entries: Seq<(K, V)>, key: K) -> Seq<(K, V)> {
    entries.filter(|e: (K, V)| e.0 != key)
}

pub proof fn lemma_lookup<K, V>(entries: Seq<(K, V)>, key: K)
    ensures
        lookup(entries, key) is Some <==> keys(entries).contains(key),
        lookup(entries, key) is Some ==> exists|i: int|
            0 <= i < entries.len() && entries[i] == (key, lookup(entries, key)->0),
    decreases entries.len(),
{
    if entries.len() > 0 {
        let rest = entries.drop_last();
        lemma_lookup(rest, key);
        assert(keys(entries) =~= keys(rest).push(entries.last().0));
        lemma_push_contains(keys(rest), entries.last().0, key);
        if entries.last().0 == key {
            assert(entries[entries.len() - 1] == (key, entries.last().1));
        } else if lookup(rest, key) is Some {
            let i = choose|i: int| 0 <= i < rest.len() && rest[i] == (key, lookup(rest, key)->0);
            assert(entries[i] == rest[i]);
        }
    }
}

pub proof fn lemma_lookup_put<K, V>(entries: Seq<(K, V)>, key: K, value: V, other: K)
    ensures
        lookup(put(entries, key, value), other) == (if other == key {
            Some(value)
        } else {
            lookup(entries, other)
        }),
{
    if keys(entries).contains(key) {
        lemma_lookup_changed(entries, key, value, other);
        lemma_lookup(entries, key);
    } else {
        assert(entries.push((key, value)).drop_last() =~= entries);
    }
}

proof fn lemma_lookup_changed<K, V>(entries: Seq<(K, V)>, key: K, value: V, other: K)
    ensures
        ({
            let changed = entries.map_values(
                |e: (K, V)|
                    if e.0 == key {
                        (key, value)
                    } else {
                        e
                    },
            );
            lookup(changed, other) == (if other == key {
                if lookup(entries, key) is Some {
                    Some(value)
                } else {
                    None
                }
            } else {
                lookup(entries, other)
            })
        }),
    decreases entries.len(),
{
    let change = |e: (K, V)|
        if e.0 == key {
            (key, value)
        } else {
            e
        };
    let changed = entries.map_values(change);
    if entries.len() > 0 {
        let rest = entries.drop_last();
        lemma_lookup_changed(rest, key, value, other);
        assert(changed.drop_last() =~= rest.map_values(change));
        assert(changed.last() == change(entries.last()));
    }
}

pub proof fn lemma_without_is_filter<K, V>(
    entries: Seq<(K, V)>,
    key: K,
    keep: spec_fn((K, V)) -> bool,
)
    requires
        forall|e: (K, V)| #[trigger] keep(e) == (e.0 != key),
    ensures
        without_key(entries, key) == entries.filter(keep),
{
    assert((|e: (K, V)| e.0 != key) =~= keep);
}

pub proof fn lemma_lookup_without<K, V>(entries: Seq<(K, V)>, key: K, other: K)
    ensures
        lookup(without_key(entries, key), other) == (if other == key {
            None
        } else {
            lookup(entries, other)
        }),
    decreases entries.len(),
{
    reveal(Seq::filter);
    let keep = |e: (K, V)| e.0 != key;
    if entries.len() > 0 {
        let rest = entries.drop_last();
        lemma_lookup_without(rest, key, other);
        if keep(entries.last()) {
            assert(entries.filter(keep) == rest.filter(keep).push(entries.last()));
            assert(rest.filter(keep).push(entries.last()).drop_last() =~= rest.filter(keep));
        }
    }
}

// ---------------------------------------------------------------------------
// Counting
// ---------------------------------------------------------------------------

/// How many items have the property.
pub open spec fn count<A>(s: Seq<A>, p: spec_fn(A) -> bool) -> nat
    decreases s.len(),
{
    if s.len() == 0 {
        0
    } else {
        count(s.drop_last(), p) + (if p(s.last()) {
            1nat
        } else {
            0nat
        })
    }
}

pub proof fn lemma_count_step<A>(s: Seq<A>, p: spec_fn(A) -> bool, i: int)
    requires
        0 <= i < s.len(),
    ensures
        count(s.take(i + 1), p) == count(s.take(i), p) + (if p(s[i]) {
            1nat
        } else {
            0nat
        }),
{
    assert(s.take(i + 1).drop_last() =~= s.take(i));
}

// ---------------------------------------------------------------------------
// Laws
// ---------------------------------------------------------------------------

/// What is found under a key is the value of its last entry, and nothing where
/// it has none.
pub proof fn law_the_last_entry_is_found<K, V>(entries: Seq<(K, V)>, key: K, i: int)
    ensures
        0 <= i < entries.len() && entries[i].0 == key && (forall|j: int|
            i < j < entries.len() ==> (#[trigger] entries[j]).0 != key) ==> lookup(entries, key)
            == Some(entries[i].1),
        (forall|j: int| 0 <= j < entries.len() ==> (#[trigger] entries[j]).0 != key) ==> lookup(
            entries,
            key,
        ) is None,
    decreases entries.len(),
{
    if entries.len() > 0 {
        let rest = entries.drop_last();
        law_the_last_entry_is_found(rest, key, i);
        assert(entries.last() == entries[entries.len() - 1]);
        assert(forall|j: int| 0 <= j < rest.len() ==> #[trigger] rest[j] == entries[j]);
    }
}

/// Putting a value under a key changes the entries under that key alone, in
/// their place; where there are none, a new one comes last.
pub proof fn law_putting_changes_one_key<K, V>(entries: Seq<(K, V)>, key: K, value: V)
    ensures
        (exists|i: int| 0 <= i < entries.len() && (#[trigger] entries[i]).0 == key) ==> put(
            entries,
            key,
            value,
        ).len() == entries.len(),
        (forall|i: int| 0 <= i < entries.len() ==> (#[trigger] entries[i]).0 != key) ==> put(
            entries,
            key,
            value,
        ) == entries.push((key, value)),
        forall|i: int|
            0 <= i < entries.len() ==> #[trigger] put(entries, key, value)[i] == (if entries[i].0
                == key {
                (key, value)
            } else {
                entries[i]
            }),
{
    let ks = keys(entries);
    if ks.contains(key) {
        let i = choose|i: int| 0 <= i < ks.len() && ks[i] == key;
        assert(entries[i].0 == key);
    } else {
        assert forall|i: int| 0 <= i < entries.len() implies (#[trigger] entries[i]).0 != key by {
            assert(ks[i] == entries[i].0);
        }
    }
}

/// How many items have a property: each of them counts once.
pub proof fn law_each_item_counts_once<A>(s: Seq<A>, x: A, p: spec_fn(A) -> bool)
    ensures
        count(Seq::empty(), p) == 0,
        count(s.push(x), p) == count(s, p) + (if p(x) {
            1nat
        } else {
            0nat
        }),
        count(s, p) == s.filter(p).len(),
    decreases s.len(),
{
    assert(s.push(x).drop_last() =~= s);
    reveal(Seq::filter);
    if s.len() > 0 {
        law_each_item_counts_once(s.drop_last(), s.last(), p);
    }
}

} // verus!
