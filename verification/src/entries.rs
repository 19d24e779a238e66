//! Lists of (address, value) entries, read as maps from addresses to values.
use vstd::prelude::*;
use crate::types::AddressModel;

verus! {

/// No address has two entries.
pub open spec fn keys_unique<V>(e: Seq<(AddressModel, V)>) -> bool {
    forall|i: int, j: int| 0 <= i < e.len() && 0 <= j < e.len() && i != j ==> #[trigger] e[i].0 != #[trigger] e[j].0
}

/// Whether `k` has an entry.
pub open spec fn has_key<V>(e: Seq<(AddressModel, V)>, k: AddressModel) -> bool {
    exists|i: int| 0 <= i < e.len() && #[trigger] e[i].0 == k
}

/// The position of `k`'s entry.
pub open spec fn key_index<V>(e: Seq<(AddressModel, V)>, k: AddressModel) -> int {
    choose|i: int| 0 <= i < e.len() && #[trigger] e[i].0 == k
}

/// The map that the entries describe.
pub open spec fn entries_map<V>(e: Seq<(AddressModel, V)>) -> Map<AddressModel, V> {
    Map::new(|k: AddressModel| has_key(e, k), |k: AddressModel| e[key_index(e, k)].1)
}

/// With unique keys, an entry's value is what the map gives for its key.
pub proof fn lemma_entry_value<V>(e: Seq<(AddressModel, V)>, i: int)
    requires
        keys_unique(e),
        0 <= i < e.len(),
    ensures
        entries_map(e).contains_key(e[i].0),
        entries_map(e)[e[i].0] == e[i].1,
{
    assert(has_key(e, e[i].0));
    let j = key_index(e, e[i].0);
    assert(e[j].0 == e[i].0);
}

/// Replacing the value of an existing entry updates the map at its key.
pub proof fn lemma_update_entry<V>(e: Seq<(AddressModel, V)>, i: int, v: V)
    requires
        keys_unique(e),
        0 <= i < e.len(),
    ensures
        keys_unique(e.update(i, (e[i].0, v))),
        entries_map(e.update(i, (e[i].0, v))) == entries_map(e).insert(e[i].0, v),
{
    let k = e[i].0;
    let e2 = e.update(i, (k, v));
    assert(keys_unique(e2)) by {
        assert forall|a: int, b: int| 0 <= a < e2.len() && 0 <= b < e2.len() && a != b implies #[trigger] e2[a].0
            != #[trigger] e2[b].0 by {
            assert(e2[a].0 == e[a].0);
            assert(e2[b].0 == e[b].0);
        }
    }
    let m = entries_map(e).insert(k, v);
    let m2 = entries_map(e2);
    assert forall|x: AddressModel| #[trigger] m2.contains_key(x) <==> m.contains_key(x) by {
        if has_key(e2, x) {
            let j = choose|j: int| 0 <= j < e2.len() && #[trigger] e2[j].0 == x;
            assert(e[j].0 == x);
        }
        if has_key(e, x) {
            let j = choose|j: int| 0 <= j < e.len() && #[trigger] e[j].0 == x;
            assert(e2[j].0 == x);
        }
        if x == k {
            assert(e2[i].0 == x);
        }
    }
    assert forall|x: AddressModel| #[trigger] m2.contains_key(x) implies m2[x] == m[x] by {
        let j2 = key_index(e2, x);
        assert(e2[j2].0 == x);
        if x == k {
            assert(e2[i].0 == k);
        } else {
            assert(j2 != i);
            assert(e[j2].0 == x);
            lemma_entry_value(e, j2);
        }
    }
    assert(m2 =~= m);
}

/// Appending an entry for a new key adds it to the map.
pub proof fn lemma_push_entry<V>(e: Seq<(AddressModel, V)>, k: AddressModel, v: V)
    requires
        keys_unique(e),
        !has_key(e, k),
    ensures
        keys_unique(e.push((k, v))),
        entries_map(e.push((k, v))) == entries_map(e).insert(k, v),
{
    let e2 = e.push((k, v));
    assert(keys_unique(e2)) by {
        assert forall|a: int, b: int| 0 <= a < e2.len() && 0 <= b < e2.len() && a != b implies #[trigger] e2[a].0
            != #[trigger] e2[b].0 by {
            if a < e.len() {
                assert(e2[a].0 == e[a].0);
            }
            if b < e.len() {
                assert(e2[b].0 == e[b].0);
            }
        }
    }
    let m = entries_map(e).insert(k, v);
    let m2 = entries_map(e2);
    assert forall|x: AddressModel| #[trigger] m2.contains_key(x) <==> m.contains_key(x) by {
        if has_key(e2, x) {
            let j = choose|j: int| 0 <= j < e2.len() && #[trigger] e2[j].0 == x;
            if j < e.len() {
                assert(e[j].0 == x);
            }
        }
        if has_key(e, x) {
            let j = choose|j: int| 0 <= j < e.len() && #[trigger] e[j].0 == x;
            assert(e2[j].0 == x);
        }
        if x == k {
            assert(e2[e.len() as int].0 == x);
        }
    }
    assert forall|x: AddressModel| #[trigger] m2.contains_key(x) implies m2[x] == m[x] by {
        let j2 = key_index(e2, x);
        assert(e2[j2].0 == x);
        if x == k {
            lemma_entry_value(e2, e.len() as int);
        } else {
            assert(j2 < e.len());
            assert(e[j2].0 == x);
            lemma_entry_value(e, j2);
        }
    }
    assert(m2 =~= m);
}

/// The position of `key`'s entry, if it has one.
pub fn find_key<V: DeepView>(entries: &Vec<(String, V)>, key: &String) -> (r: Option<usize>)
    ensures
        match r {
            Some(i) => i < entries.len() && entries.deep_view()[i as int].0 == key@,
            None => !has_key(entries.deep_view(), key@),
        },
{
    let ghost d = entries.deep_view();
    let mut i: usize = 0;
    while i < entries.len()
        invariant
            i <= entries.len(),
            d == entries.deep_view(),
            d.len() == entries.len(),
            forall|j: int| 0 <= j < i ==> #[trigger] d[j].0 != key@,
        decreases entries.len() - i,
    {
        assert(d[i as int].0 == entries[i as int].0@);
        if entries[i].0 == *key {
            return Some(i);
        }
        i = i + 1;
    }
    None
}

/// Sets `key`'s value, adding an entry if it has none.
pub fn set_entry<V: DeepView>(entries: &mut Vec<(String, V)>, key: &String, value: V)
    requires
        keys_unique(old(entries).deep_view()),
    ensures
        keys_unique(final(entries).deep_view()),
        entries_map(final(entries).deep_view()) == entries_map(old(entries).deep_view()).insert(
            key@,
            value.deep_view(),
        ),
{
    let ghost d = entries.deep_view();
    let ghost v = value.deep_view();
    match find_key(entries, key) {
        Some(i) => {
            entries.set(i, (key.clone(), value));
            proof {
                assert(entries.deep_view() =~= d.update(i as int, (d[i as int].0, v)));
                lemma_update_entry(d, i as int, v);
            }
        },
        None => {
            entries.push((key.clone(), value));
            proof {
                assert(entries.deep_view() =~= d.push((key@, v)));
                lemma_push_entry(d, key@, v);
            }
        },
    }
}

} // verus!
