//! The difference of two lists by a key.
//!
//! The keys of a list are kept in a vector and searched in order. A hash
//! set would find them faster, but what its `contains` answers is known to
//! the verifier only for keys whose hashing it knows, which are integers and
//! booleans; the keys here are of any type that can be compared.

use vstd::prelude::*;
use std::hash::Hash;
use vstd::std_specs::cmp::PartialEqSpec;

verus! {

/// The key that `key` gives for `x`.
pub open spec fn key_of<T, K, F: Fn(&T) -> K>(key: F, x: T) -> K {
    choose|k: K| call_ensures(key, (&x,), k)
}

/// Whether some element of `s` has the key of `x`.
pub open spec fn key_among<T, K: PartialEq, F: Fn(&T) -> K>(key: F, s: Seq<T>, x: T) -> bool {
    exists|j: int| 0 <= j < s.len() && #[trigger] key_of(key, s[j]).eq_spec(&key_of(key, x))
}

/// The elements of `s` whose key no element of `other` has, in the order
/// of `s`.
pub open spec fn without_keys_of<T, K: PartialEq, F: Fn(&T) -> K>(
    key: F,
    s: Seq<T>,
    other: Seq<T>,
) -> Seq<T> {
    s.filter(|x: T| !key_among(key, other, x))
}

/// The elements that a sequence of references points to.
pub open spec fn pointees<T>(s: Seq<&T>) -> Seq<T> {
    Seq::new(s.len(), |i: int| *s[i])
}

fn keys_of<T, K, F>(items: &[T], key: &F) -> (keys: Vec<K>) where F: Fn(&T) -> K
    requires
        forall|x: &T| call_requires(*key, (x,)),
        forall|x: &T, a: K, b: K|
            call_ensures(*key, (x,), a) && call_ensures(*key, (x,), b) ==> a == b,
    ensures
        keys@.len() == items@.len(),
        forall|i: int| 0 <= i < keys@.len() ==> #[trigger] keys@[i] == key_of(*key, items@[i]),
{
    let mut keys: Vec<K> = Vec::new();
    let mut i: usize = 0;
    while i < items.len()
        invariant
            i <= items.len(),
            keys@.len() == i,
            forall|x: &T| call_requires(*key, (x,)),
            forall|x: &T, a: K, b: K|
                call_ensures(*key, (x,), a) && call_ensures(*key, (x,), b) ==> a == b,
            forall|j: int| 0 <= j < i ==> #[trigger] keys@[j] == key_of(*key, items@[j]),
        decreases items.len() - i,
    {
        let k = key(&items[i]);
        assert(call_ensures(*key, (&items@[i as int],), k));
        keys.push(k);
        i += 1;
    }
    keys
}

fn has_key<K: PartialEq>(keys: &Vec<K>, k: &K) -> (found: bool)
    requires
        K::obeys_eq_spec(),
    ensures
        found == exists|j: int| 0 <= j < keys@.len() && (#[trigger] keys@[j]).eq_spec(k),
{
    let mut j: usize = 0;
    while j < keys.len()
        invariant
            j <= keys.len(),
            K::obeys_eq_spec(),
            forall|m: int| 0 <= m < j ==> !(#[trigger] keys@[m]).eq_spec(k),
        decreases keys.len() - j,
    {
        if keys[j] == *k {
            return true;
        }
        j += 1;
    }
    false
}

fn pick_missing<'a, T, K: PartialEq, F>(
    items: &'a [T],
    item_keys: &Vec<K>,
    other: &'a [T],
    other_keys: &Vec<K>,
    key: &F,
) -> (out: Vec<&'a T>) where F: Fn(&T) -> K
    requires
        K::obeys_eq_spec(),
        item_keys@.len() == items@.len(),
        other_keys@.len() == other@.len(),
        forall|i: int|
            0 <= i < items@.len() ==> #[trigger] item_keys@[i] == key_of(*key, items@[i]),
        forall|i: int|
            0 <= i < other@.len() ==> #[trigger] other_keys@[i] == key_of(*key, other@[i]),
    ensures
        pointees(out@) == without_keys_of(*key, items@, other@),
{
    let ghost pred = |x: T| !key_among(*key, other@, x);
    let mut out: Vec<&'a T> = Vec::new();
    let mut i: usize = 0;
    proof {
        reveal(Seq::filter);
        assert(items@.take(0).filter(pred) =~= pointees(out@));
    }
    while i < items.len()
        invariant
            i <= items.len(),
            K::obeys_eq_spec(),
            item_keys@.len() == items@.len(),
            other_keys@.len() == other@.len(),
            pred == (|x: T| !key_among(*key, other@, x)),
            forall|m: int|
                0 <= m < items@.len() ==> #[trigger] item_keys@[m] == key_of(*key, items@[m]),
            forall|m: int|
                0 <= m < other@.len() ==> #[trigger] other_keys@[m] == key_of(*key, other@[m]),
            pointees(out@) == items@.take(i as int).filter(pred),
        decreases items.len() - i,
    {
        let found = has_key(other_keys, &item_keys[i]);
        proof {
            let x = items@[i as int];
            if found {
                let j = choose|j: int|
                    0 <= j < other_keys@.len() && (#[trigger] other_keys@[j]).eq_spec(
                        &item_keys@[i as int],
                    );
                assert(key_of(*key, other@[j]).eq_spec(&key_of(*key, x)));
            } else {
                if key_among(*key, other@, x) {
                    let j = choose|j: int|
                        0 <= j < other@.len() && #[trigger] key_of(*key, other@[j]).eq_spec(
                            &key_of(*key, x),
                        );
                    assert(other_keys@[j].eq_spec(&item_keys@[i as int]));
                }
            }
            assert(found == key_among(*key, other@, x));
            reveal(Seq::filter);
            assert(items@.take(i + 1).drop_last() =~= items@.take(i as int));
            assert(items@.take(i + 1).last() == x);
        }
        if !found {
            out.push(&items[i]);
            assert(pointees(out@) =~= items@.take(i as int).filter(pred).push(items@[i as int]));
        }
        i += 1;
    }
    assert(items@.take(items@.len() as int) =~= items@);
    out
}

/// What is to be added and what is to be removed to get from `prev` to
/// `new_`: the elements of `new_` whose key is not in `prev`, and the
/// elements of `prev` whose key is not in `new_`, each in its list's
/// order. `key` must give one key per element, and keys must compare by
/// their `eq_spec`.
pub fn diff_by_key<'a, T, K, F>(new_: &'a [T], prev: &'a [T], key: F) -> (r: (
    Vec<&'a T>,
    Vec<&'a T>,
)) where K: Eq + Hash, F: Fn(&T) -> K
    requires
        K::obeys_eq_spec(),
        forall|x: &T| call_requires(key, (x,)),
        forall|x: &T, a: K, b: K|
            call_ensures(key, (x,), a) && call_ensures(key, (x,), b) ==> a == b,
    ensures
        pointees(r.0@) == without_keys_of(key, new_@, prev@),
        pointees(r.1@) == without_keys_of(key, prev@, new_@),
{
    let new_keys = keys_of(new_, &key);
    let prev_keys = keys_of(prev, &key);
    let to_add = pick_missing(new_, &new_keys, prev, &prev_keys, &key);
    let to_remove = pick_missing(prev, &prev_keys, new_, &new_keys, &key);
    (to_add, to_remove)
}

} // verus!
