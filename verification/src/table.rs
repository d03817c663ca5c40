//! What a scan of the text finds is a list of entries, each a key with a
//! value, or nothing where a match had to be passed over. This module says
//! what such a list amounts to: which value a key ends with, and in which
//! order the keys first came.

use vstd::prelude::*;

verus! {

/// The map that the entries give when they are taken in order: a later entry
/// replaces an earlier one with the same key.
pub open spec fn collect<K, V>(entries: Seq<Option<(K, V)>>) -> Map<K, V>
    decreases entries.len(),
{
    if entries.len() == 0 {
        Map::empty()
    } else {
        let before = collect(entries.drop_last());
        match entries.last() {
            Some((k, v)) => before.insert(k, v),
            None => before,
        }
    }
}

/// The keys of the entries, each once, in the order in which they first
/// appear.
pub open spec fn first_seen<K, V>(entries: Seq<Option<(K, V)>>) -> Seq<K>
    decreases entries.len(),
{
    if entries.len() == 0 {
        Seq::empty()
    } else {
        let before = first_seen(entries.drop_last());
        match entries.last() {
            Some((k, _)) => if before.contains(k) {
                before
            } else {
                before.push(k)
            },
            None => before,
        }
    }
}

/// The keys in the order in which they first appear, each with the value
/// that it ends with.
pub open spec fn ordered<K, V>(entries: Seq<Option<(K, V)>>) -> Seq<(K, V)> {
    first_seen(entries).map_values(|k: K| (k, collect(entries)[k]))
}

/// The value that `table` holds for `k`, or `default` where it holds none.
pub open spec fn value_or<K, V>(table: Map<K, V>, k: K, default: V) -> V {
    if table.contains_key(k) {
        table[k]
    } else {
        default
    }
}

/// The keys that first appear are the keys that end with a value, and none
/// of them is listed twice.
pub proof fn lemma_first_seen<K, V>(entries: Seq<Option<(K, V)>>)
    ensures
        first_seen(entries).no_duplicates(),
        forall|k: K| first_seen(entries).contains(k) <==> collect(entries).contains_key(k),
        first_seen(entries).len() <= entries.len(),
        ordered(entries).len() == first_seen(entries).len(),
    decreases entries.len(),
{
    if entries.len() > 0 {
        let before = entries.drop_last();
        lemma_first_seen(before);
        match entries.last() {
            Some((k, v)) => {
                let keys = first_seen(before);
                if !keys.contains(k) {
                    let now = keys.push(k);
                    assert forall|x: K| now.contains(x) <==> (keys.contains(x) || x == k) by {
                        if keys.contains(x) {
                            let i = choose|i: int| 0 <= i < keys.len() && keys[i] == x;
                            assert(now[i] == x);
                        }
                        if x == k {
                            assert(now[keys.len() as int] == x);
                        }
                    }
                }
            },
            None => {},
        }
    }
}

/// An entry without a key changes nothing.
pub proof fn lemma_ordered_skip<K, V>(entries: Seq<Option<(K, V)>>)
    ensures
        collect(entries.push(None)) == collect(entries),
        first_seen(entries.push(None)) == first_seen(entries),
        ordered(entries.push(None)) == ordered(entries),
{
    assert(entries.push(None).drop_last() == entries);
}

/// An entry for a key that came before replaces that key's value, where the
/// key stands.
pub proof fn lemma_ordered_replace<K, V>(entries: Seq<Option<(K, V)>>, k: K, v: V, at: int)
    requires
        0 <= at < first_seen(entries).len(),
        first_seen(entries)[at] == k,
    ensures
        collect(entries.push(Some((k, v)))) == collect(entries).insert(k, v),
        first_seen(entries.push(Some((k, v)))) == first_seen(entries),
        ordered(entries.push(Some((k, v)))) == ordered(entries).update(at, (k, v)),
{
    let next = entries.push(Some((k, v)));
    assert(next.drop_last() == entries);
    lemma_first_seen(entries);
}

/// An entry for a key that did not come before goes to the end.
pub proof fn lemma_ordered_append<K, V>(entries: Seq<Option<(K, V)>>, k: K, v: V)
    requires
        !first_seen(entries).contains(k),
    ensures
        collect(entries.push(Some((k, v)))) == collect(entries).insert(k, v),
        first_seen(entries.push(Some((k, v)))) == first_seen(entries).push(k),
        ordered(entries.push(Some((k, v)))) == ordered(entries).push((k, v)),
{
    let next = entries.push(Some((k, v)));
    assert(next.drop_last() == entries);
    assert forall|i: int| 0 <= i < first_seen(entries).len() implies first_seen(entries)[i]
        != k by {
        assert(first_seen(entries).contains(first_seen(entries)[i]));
    }
}

/// Entry `n` is an entry for the key `k`.
pub open spec fn is_entry_for<K, V>(entries: Seq<Option<(K, V)>>, k: K, n: int) -> bool {
    0 <= n < entries.len() && match entries[n] {
        Some((key, _)) => key == k,
        None => false,
    }
}

/// The keys that have an entry.
pub open spec fn keys_of<K, V>(entries: Seq<Option<(K, V)>>) -> Set<K> {
    Set::new(|k: K| exists|n: int| is_entry_for(entries, k, n))
}

/// The index of the first entry for `k`, or the number of entries where `k`
/// has none.
pub open spec fn first_entry<K, V>(entries: Seq<Option<(K, V)>>, k: K) -> int
    decreases entries.len(),
{
    if entries.len() == 0 {
        0
    } else {
        let before = first_entry(entries.drop_last(), k);
        if before < entries.len() - 1 || is_entry_for(entries, k, entries.len() - 1) {
            before
        } else {
            entries.len() as int
        }
    }
}

/// `first_entry` is the least index of an entry for the key.
pub proof fn lemma_first_entry<K, V>(entries: Seq<Option<(K, V)>>, k: K)
    ensures
        0 <= first_entry(entries, k) <= entries.len(),
        first_entry(entries, k) < entries.len() ==> is_entry_for(
            entries,
            k,
            first_entry(entries, k),
        ),
        forall|n: int| 0 <= n < first_entry(entries, k) ==> !is_entry_for(entries, k, n),
    decreases entries.len(),
{
    if entries.len() > 0 {
        let before = entries.drop_last();
        lemma_first_entry(before, k);
        assert forall|n: int| 0 <= n < first_entry(entries, k) implies !is_entry_for(
            entries,
            k,
            n,
        ) by {
            if n < before.len() {
                assert(!is_entry_for(before, k, n));
            }
        }
    }
}

/// The keys that end with a value are the keys that have an entry.
pub proof fn lemma_collect_keys<K, V>(entries: Seq<Option<(K, V)>>)
    ensures
        collect(entries).dom() == keys_of(entries),
        collect(entries).dom().finite(),
        forall|k: K| collect(entries).contains_key(k) <==> first_entry(entries, k) < entries.len(),
    decreases entries.len(),
{
    if entries.len() > 0 {
        let before = entries.drop_last();
        lemma_collect_keys(before);
        let last = entries.len() - 1;
        assert forall|k: K| collect(entries).contains_key(k) implies keys_of(entries).contains(
            k,
        ) by {
            if collect(before).contains_key(k) {
                let n = choose|n: int| is_entry_for(before, k, n);
                assert(is_entry_for(entries, k, n));
            } else {
                assert(is_entry_for(entries, k, last));
            }
        }
        assert forall|k: K| keys_of(entries).contains(k) implies collect(entries).contains_key(
            k,
        ) by {
            let n = choose|n: int| is_entry_for(entries, k, n);
            if n < last {
                assert(is_entry_for(before, k, n));
            }
        }
        assert forall|k: K| collect(entries).contains_key(k) <==> first_entry(entries, k)
            < entries.len() by {
            lemma_first_entry(before, k);
        }
    }
}

/// `holds` is true of the value of the entry, if the entry has one.
pub open spec fn value_satisfies<K, V>(entry: Option<(K, V)>, holds: spec_fn(V) -> bool) -> bool {
    match entry {
        Some((_, v)) => holds(v),
        None => true,
    }
}

/// What holds of the value of every entry holds of every value that a key
/// ends with.
pub proof fn lemma_collect_values<K, V>(entries: Seq<Option<(K, V)>>, holds: spec_fn(V) -> bool)
    requires
        forall|n: int| 0 <= n < entries.len() ==> value_satisfies(#[trigger] entries[n], holds),
    ensures
        forall|k: K| collect(entries).contains_key(k) ==> holds(#[trigger] collect(entries)[k]),
    decreases entries.len(),
{
    if entries.len() > 0 {
        let before = entries.drop_last();
        assert forall|n: int| 0 <= n < before.len() implies value_satisfies(
            #[trigger] before[n],
            holds,
        ) by {}
        lemma_collect_values(before, holds);
        assert forall|k: K| collect(entries).contains_key(k) implies holds(
            #[trigger] collect(entries)[k],
        ) by {
            match entries.last() {
                Some((key, v)) => {
                    if key != k {
                        assert(holds(collect(before)[k]));
                    }
                },
                None => {
                    assert(collect(entries) == collect(before));
                },
            }
        }
    }
}

/// There are as many keys in the order of first appearance as there are
/// keys with an entry.
pub proof fn lemma_first_seen_count<K, V>(entries: Seq<Option<(K, V)>>)
    ensures
        keys_of(entries).finite(),
        first_seen(entries).len() == keys_of(entries).len(),
        first_seen(entries).to_set() == keys_of(entries),
{
    lemma_first_seen(entries);
    lemma_collect_keys(entries);
    assert(first_seen(entries).to_set() =~= keys_of(entries));
    first_seen(entries).unique_seq_to_set();
}

/// A key that first appears before another stands before it.
pub proof fn lemma_first_seen_order<K, V>(entries: Seq<Option<(K, V)>>)
    ensures
        forall|i: int|
            0 <= i < first_seen(entries).len() ==> first_entry(
                entries,
                #[trigger] first_seen(entries)[i],
            ) < entries.len(),
        forall|i: int, j: int|
            0 <= i < j < first_seen(entries).len() ==> first_entry(
                entries,
                #[trigger] first_seen(entries)[i],
            ) < first_entry(entries, #[trigger] first_seen(entries)[j]),
    decreases entries.len(),
{
    if entries.len() > 0 {
        let before = entries.drop_last();
        let keys = first_seen(before);
        lemma_first_seen_order(before);
        lemma_first_seen(before);
        lemma_collect_keys(before);
        assert forall|i: int| 0 <= i < keys.len() implies first_entry(entries, #[trigger] keys[i])
            == first_entry(before, keys[i]) && first_entry(before, keys[i]) < before.len() by {}
    }
}

} // verus!
