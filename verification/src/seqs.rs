//! Facts on sequences whose elements are told apart by a key.

use vstd::prelude::*;

verus! {

/// No two elements of `s` have the same key.
pub open spec fn distinct_by<A, K>(s: Seq<A>, key: spec_fn(A) -> K) -> bool {
    forall|i: int, j: int| 0 <= i < j < s.len() ==> key(s[i]) != key(s[j])
}

/// Some element of `s` has the key `k`.
pub open spec fn has_key<A, K>(s: Seq<A>, key: spec_fn(A) -> K, k: K) -> bool {
    exists|i: int| 0 <= i < s.len() && #[trigger] key(s[i]) == k
}

/// `s` with `x` at its end, unless an element of `s` has the key of `x`.
pub open spec fn with_new<A, K>(s: Seq<A>, key: spec_fn(A) -> K, x: A) -> Seq<A> {
    if has_key(s, key, key(x)) {
        s
    } else {
        s.push(x)
    }
}

/// `s` with every element of key `k` replaced by what `f` makes of it.
pub open spec fn with_changed<A, K>(s: Seq<A>, key: spec_fn(A) -> K, k: K, f: spec_fn(A) -> A)
    -> Seq<A> {
    Seq::new(
        s.len(),
        |i: int|
            if key(s[i]) == k {
                f(s[i])
            } else {
                s[i]
            },
    )
}

/// The test "has another key than `k`", as a value.
pub open spec fn not_key<A, K>(key: spec_fn(A) -> K, k: K) -> spec_fn(A) -> bool {
    |x: A| key(x) != k
}

/// `s` without its elements of key `k`.
pub open spec fn without_key<A, K>(s: Seq<A>, key: spec_fn(A) -> K, k: K) -> Seq<A> {
    s.filter(not_key(key, k))
}

/// The keys of a sequence with one more element: those it had, and the
/// new element's.
pub proof fn lemma_push_has_key<A, K>(s: Seq<A>, key: spec_fn(A) -> K, x: A, k: K)
    ensures
        has_key(s.push(x), key, k) <==> has_key(s, key, k) || key(x) == k,
{
    let t = s.push(x);
    if has_key(s, key, k) {
        let i = choose|i: int| 0 <= i < s.len() && #[trigger] key(s[i]) == k;
        assert(key(t[i]) == k);
    }
    if key(x) == k {
        assert(key(t[s.len() as int]) == k);
    }
    if has_key(t, key, k) {
        let i = choose|i: int| 0 <= i < t.len() && #[trigger] key(t[i]) == k;
        if i < s.len() {
            assert(key(s[i]) == k);
        }
    }
}

/// Adding an element unless its key is taken keeps keys distinct, keeps
/// every key there, brings the element's key, and does nothing the second
/// time.
pub proof fn lemma_with_new<A, K>(s: Seq<A>, key: spec_fn(A) -> K, x: A)
    requires
        distinct_by(s, key),
    ensures
        distinct_by(with_new(s, key, x), key),
        has_key(with_new(s, key, x), key, key(x)),
        forall|k: K| has_key(s, key, k) ==> has_key(with_new(s, key, x), key, k),
        forall|k: K| has_key(with_new(s, key, x), key, k) ==> has_key(s, key, k) || k == key(x),
        with_new(with_new(s, key, x), key, x) == with_new(s, key, x),
{
    let t = with_new(s, key, x);
    assert forall|k: K| true implies (has_key(s.push(x), key, k) <==> has_key(s, key, k) || key(x)
        == k) by {
        lemma_push_has_key(s, key, x, k);
    }
    if !has_key(s, key, key(x)) {
        assert forall|i: int, j: int| 0 <= i < j < t.len() implies key(t[i]) != key(t[j]) by {
            if j == s.len() {
                assert(t[i] == s[i]);
                if key(s[i]) == key(x) {
                    assert(has_key(s, key, key(x)));
                }
            }
        }
    }
}

/// Changing the elements of a key into elements of the same key keeps
/// the keys as they are.
pub proof fn lemma_with_changed<A, K>(s: Seq<A>, key: spec_fn(A) -> K, k: K, f: spec_fn(A) -> A)
    requires
        distinct_by(s, key),
        forall|x: A| key(x) == k ==> key(#[trigger] f(x)) == k,
    ensures
        distinct_by(with_changed(s, key, k, f), key),
        forall|q: K| has_key(with_changed(s, key, k, f), key, q) <==> has_key(s, key, q),
{
    let t = with_changed(s, key, k, f);
    assert forall|i: int| 0 <= i < s.len() implies key(#[trigger] t[i]) == key(s[i]) by {}
    assert forall|q: K| has_key(t, key, q) <==> has_key(s, key, q) by {
        if has_key(t, key, q) {
            let i = choose|i: int| 0 <= i < t.len() && #[trigger] key(t[i]) == q;
            assert(key(s[i]) == q);
        }
        if has_key(s, key, q) {
            let i = choose|i: int| 0 <= i < s.len() && #[trigger] key(s[i]) == q;
            assert(key(t[i]) == q);
        }
    }
    assert forall|i: int, j: int| 0 <= i < j < t.len() implies key(t[i]) != key(t[j]) by {
        assert(key(t[i]) == key(s[i]));
        assert(key(t[j]) == key(s[j]));
    }
}

/// What a filter keeps: in the order of `s`, exactly the elements that
/// pass.
pub proof fn lemma_filter_keeps<A, K>(s: Seq<A>, p: spec_fn(A) -> bool, key: spec_fn(A) -> K)
    ensures
        forall|k: K|
            has_key(s.filter(p), key, k) <==> exists|i: int|
                0 <= i < s.len() && p(s[i]) && #[trigger] key(s[i]) == k,
        distinct_by(s, key) ==> distinct_by(s.filter(p), key),
        forall|i: int| 0 <= i < s.filter(p).len() ==> p(#[trigger] s.filter(p)[i]),
    decreases s.len(),
{
    reveal(Seq::filter);
    let t = s.filter(p);
    if s.len() == 0 {
        assert forall|k: K|
            has_key(t, key, k) <==> exists|i: int|
                0 <= i < s.len() && p(s[i]) && #[trigger] key(s[i]) == k by {}
    } else {
        let r = s.drop_last();
        let u = r.filter(p);
        lemma_filter_keeps(r, p, key);
        assert forall|k: K|
            has_key(t, key, k) <==> exists|i: int|
                0 <= i < s.len() && p(s[i]) && #[trigger] key(s[i]) == k by {
            if p(s.last()) {
                lemma_push_has_key(u, key, s.last(), k);
            }
            if has_key(t, key, k) {
                if has_key(u, key, k) {
                    let i = choose|i: int| 0 <= i < r.len() && p(r[i]) && #[trigger] key(r[i]) == k;
                    assert(p(s[i]) && key(s[i]) == k);
                } else {
                    assert(p(s[s.len() - 1]) && key(s[s.len() - 1]) == k);
                }
            }
            if exists|i: int| 0 <= i < s.len() && p(s[i]) && #[trigger] key(s[i]) == k {
                let i = choose|i: int| 0 <= i < s.len() && p(s[i]) && #[trigger] key(s[i]) == k;
                if i < r.len() {
                    assert(p(r[i]) && key(r[i]) == k);
                    assert(has_key(u, key, k));
                }
            }
        }
        if distinct_by(s, key) {
            assert(distinct_by(r, key)) by {
                assert forall|i: int, j: int| 0 <= i < j < r.len() implies key(r[i]) != key(
                    r[j],
                ) by {
                    assert(r[i] == s[i] && r[j] == s[j]);
                }
            }
            if p(s.last()) {
                assert forall|i: int, j: int| 0 <= i < j < t.len() implies key(t[i]) != key(
                    t[j],
                ) by {
                    if j == u.len() {
                        assert(t[i] == u[i]);
                        if key(u[i]) == key(s.last()) {
                            assert(has_key(u, key, key(s.last())));
                            let m = choose|m: int|
                                0 <= m < r.len() && p(r[m]) && #[trigger] key(r[m]) == key(
                                    s.last(),
                                );
                            assert(key(s[m]) == key(s[s.len() - 1]));
                        }
                    } else {
                        assert(t[i] == u[i] && t[j] == u[j]);
                    }
                }
            }
        }
        assert forall|i: int| 0 <= i < t.len() implies p(#[trigger] t[i]) by {
            if i < u.len() {
                assert(t[i] == u[i]);
            }
        }
    }
}

/// A filter whose test every element passes keeps the sequence whole.
pub proof fn lemma_filter_all<A>(s: Seq<A>, p: spec_fn(A) -> bool)
    requires
        forall|i: int| 0 <= i < s.len() ==> p(#[trigger] s[i]),
    ensures
        s.filter(p) == s,
    decreases s.len(),
{
    reveal(Seq::filter);
    if s.len() > 0 {
        let r = s.drop_last();
        assert forall|i: int| 0 <= i < r.len() implies p(#[trigger] r[i]) by {
            assert(r[i] == s[i]);
        }
        lemma_filter_all(r, p);
        assert(r.push(s.last()) =~= s);
    }
}

/// Filtering the first `n + 1` elements: the filter of the first `n`,
/// and the next element where it passes.
pub proof fn lemma_filter_step<A>(s: Seq<A>, p: spec_fn(A) -> bool, n: int)
    requires
        0 <= n < s.len(),
    ensures
        s.take(n + 1).filter(p) == if p(s[n]) {
            s.take(n).filter(p).push(s[n])
        } else {
            s.take(n).filter(p)
        },
{
    reveal(Seq::filter);
    assert(s.take(n + 1).drop_last() =~= s.take(n));
}

/// Where keys are distinct, leaving out the key of the element at `i`
/// removes that element and no other.
pub proof fn lemma_without_key_removes<A, K>(s: Seq<A>, key: spec_fn(A) -> K, i: int)
    requires
        distinct_by(s, key),
        0 <= i < s.len(),
    ensures
        without_key(s, key, key(s[i])) == s.remove(i),
    decreases s.len(),
{
    reveal(Seq::filter);
    let k = key(s[i]);
    let p = not_key(key, k);
    let r = s.drop_last();
    if i == s.len() - 1 {
        assert forall|j: int| 0 <= j < r.len() implies p(#[trigger] r[j]) by {
            assert(r[j] == s[j]);
            assert(key(s[j]) != key(s[i]));
        }
        lemma_filter_all(r, p);
        assert(s.remove(i) =~= r);
    } else {
        assert(distinct_by(r, key)) by {
            assert forall|a: int, b: int| 0 <= a < b < r.len() implies key(r[a]) != key(r[b]) by {
                assert(r[a] == s[a] && r[b] == s[b]);
            }
        }
        assert(r[i] == s[i]);
        lemma_without_key_removes(r, key, i);
        assert(key(s[i]) != key(s[s.len() - 1]));
        assert(p(s.last()));
        assert(r.remove(i).push(s.last()) =~= s.remove(i));
    }
}

/// Leaving out a key that no element has leaves the sequence whole.
pub proof fn lemma_without_key_absent<A, K>(s: Seq<A>, key: spec_fn(A) -> K, k: K)
    requires
        !has_key(s, key, k),
    ensures
        without_key(s, key, k) == s,
{
    assert forall|j: int| 0 <= j < s.len() implies not_key(key, k)(#[trigger] s[j]) by {
        if key(s[j]) == k {
            assert(has_key(s, key, k));
        }
    }
    lemma_filter_all(s, not_key(key, k));
}

/// Where keys are distinct, changing the elements of the key of the
/// element at `i` changes that element and no other.
pub proof fn lemma_with_changed_at<A, K>(
    s: Seq<A>,
    key: spec_fn(A) -> K,
    i: int,
    f: spec_fn(A) -> A,
)
    requires
        distinct_by(s, key),
        0 <= i < s.len(),
    ensures
        with_changed(s, key, key(s[i]), f) == s.update(i, f(s[i])),
{
    assert forall|j: int| 0 <= j < s.len() && j != i implies key(#[trigger] s[j]) != key(s[i]) by {
        if j < i {
            assert(key(s[j]) != key(s[i]));
        } else {
            assert(key(s[i]) != key(s[j]));
        }
    }
    assert(with_changed(s, key, key(s[i]), f) =~= s.update(i, f(s[i])));
}

/// Changing the elements of a key that no element has changes nothing.
pub proof fn lemma_with_changed_absent<A, K>(
    s: Seq<A>,
    key: spec_fn(A) -> K,
    k: K,
    f: spec_fn(A) -> A,
)
    requires
        !has_key(s, key, k),
    ensures
        with_changed(s, key, k, f) == s,
{
    assert forall|j: int| 0 <= j < s.len() implies key(#[trigger] s[j]) != k by {
        if key(s[j]) == k {
            assert(has_key(s, key, k));
        }
    }
    assert(with_changed(s, key, k, f) =~= s);
}

} // verus!
