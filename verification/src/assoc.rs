//! Association-sequence machinery shared by the keyed stores: the first
//! entry matching a string key, and how that lookup behaves under update
//! and append.

use vstd::prelude::*;

verus! {

/// The first element of `s` whose key (under `key`) equals `k`, if any.
pub open spec fn find_by<T>(s: Seq<T>, key: spec_fn(T) -> Seq<char>, k: Seq<char>) -> Option<T>
    decreases s.len(),
{
    if s.len() == 0 {
        None
    } else if key(s[0]) == k {
        Some(s[0])
    } else {
        find_by(s.drop_first(), key, k)
    }
}

/// The index of the first element of `s` with key `k`, or -1 if absent.
pub open spec fn index_by<T>(s: Seq<T>, key: spec_fn(T) -> Seq<char>, k: Seq<char>) -> int
    decreases s.len(),
{
    if s.len() == 0 {
        -1
    } else if key(s[0]) == k {
        0
    } else {
        let r = index_by(s.drop_first(), key, k);
        if r < 0 {
            -1
        } else {
            r + 1
        }
    }
}

/// Each key appears at most once in `s`.
pub open spec fn unique_keys<T>(s: Seq<T>, key: spec_fn(T) -> Seq<char>) -> bool {
    forall|p: int, q: int| 0 <= p < q < s.len() ==> key(s[p]) != key(s[q])
}

/// If element `i` is the first match for `k`, the lookup returns it.
pub proof fn lemma_find_at_index<T>(s: Seq<T>, key: spec_fn(T) -> Seq<char>, k: Seq<char>, i: int)
    requires
        0 <= i < s.len(),
        key(s[i]) == k,
        forall|j: int| 0 <= j < i ==> key(s[j]) != k,
    ensures
        find_by(s, key, k) == Some(s[i]),
        index_by(s, key, k) == i,
    decreases i,
{
    if i > 0 {
        let t = s.drop_first();
        assert(forall|j: int| 0 <= j < i - 1 ==> key(t[j]) != k);
        lemma_find_at_index(t, key, k, i - 1);
    }
}

/// If no element matches `k`, the lookup fails.
pub proof fn lemma_find_none<T>(s: Seq<T>, key: spec_fn(T) -> Seq<char>, k: Seq<char>)
    requires
        forall|j: int| 0 <= j < s.len() ==> key(s[j]) != k,
    ensures
        find_by(s, key, k) is None,
        index_by(s, key, k) == -1,
    decreases s.len(),
{
    if s.len() > 0 {
        lemma_find_none(s.drop_first(), key, k);
    }
}

/// A failed lookup means no element matches `k`.
pub proof fn lemma_none_no_match<T>(s: Seq<T>, key: spec_fn(T) -> Seq<char>, k: Seq<char>)
    requires
        find_by(s, key, k) is None,
    ensures
        forall|j: int| 0 <= j < s.len() ==> key(s[j]) != k,
    decreases s.len(),
{
    if s.len() > 0 {
        lemma_none_no_match(s.drop_first(), key, k);
        assert forall|j: int| 0 <= j < s.len() implies key(s[j]) != k by {
            if j > 0 {
                assert(s.drop_first()[j - 1] == s[j]);
            }
        }
    }
}

/// A successful lookup returns some element of `s` with key `k`.
pub proof fn lemma_find_is_entry<T>(s: Seq<T>, key: spec_fn(T) -> Seq<char>, k: Seq<char>)
    requires
        find_by(s, key, k) is Some,
    ensures
        exists|i: int| 0 <= i < s.len() && s[i] == find_by(s, key, k)->0 && key(s[i]) == k,
    decreases s.len(),
{
    if s.len() > 0 && key(s[0]) != k {
        lemma_find_is_entry(s.drop_first(), key, k);
        let i = choose|i: int|
            0 <= i < s.drop_first().len() && s.drop_first()[i] == find_by(s.drop_first(), key, k)->0
                && key(s.drop_first()[i]) == k;
        assert(s[i + 1] == s.drop_first()[i]);
    }
}

/// Overwriting element `i` with one that keeps its key changes the lookup
/// only at that key, provided keys are unique.
pub proof fn lemma_find_update<T>(
    s: Seq<T>,
    key: spec_fn(T) -> Seq<char>,
    i: int,
    e: T,
    k: Seq<char>,
)
    requires
        0 <= i < s.len(),
        key(e) == key(s[i]),
        unique_keys(s, key),
    ensures
        find_by(s.update(i, e), key, k) == if k == key(e) {
            Some(e)
        } else {
            find_by(s, key, k)
        },
    decreases i,
{
    let u = s.update(i, e);
    if i == 0 {
        if k != key(e) {
            assert(u.drop_first() =~= s.drop_first());
        }
    } else {
        assert(u[0] == s[0]);
        if key(s[0]) == k {
            assert(k != key(e));
        } else {
            assert(u.drop_first() =~= s.drop_first().update(i - 1, e));
            assert(unique_keys(s.drop_first(), key)) by {
                assert forall|p: int, q: int|
                    0 <= p < q < s.drop_first().len() implies key(s.drop_first()[p]) != key(
                    s.drop_first()[q],
                ) by {
                    assert(s.drop_first()[p] == s[p + 1]);
                    assert(s.drop_first()[q] == s[q + 1]);
                }
            }
            lemma_find_update(s.drop_first(), key, i - 1, e, k);
        }
    }
}

/// Appending an element with a fresh key changes the lookup only at that key.
pub proof fn lemma_find_push<T>(s: Seq<T>, key: spec_fn(T) -> Seq<char>, e: T, k: Seq<char>)
    requires
        forall|j: int| 0 <= j < s.len() ==> key(s[j]) != key(e),
    ensures
        find_by(s.push(e), key, k) == if k == key(e) {
            Some(e)
        } else {
            find_by(s, key, k)
        },
    decreases s.len(),
{
    if s.len() == 0 {
        assert(s.push(e)[0] == e);
        if k != key(e) {
            let t = s.push(e).drop_first();
            assert(t =~= Seq::<T>::empty());
            assert(find_by(t, key, k) is None);
            assert(find_by(s.push(e), key, k) == find_by(t, key, k));
            assert(find_by(s, key, k) is None);
        } else {
            assert(find_by(s.push(e), key, k) == Some(e));
        }
    } else {
        assert(s.push(e)[0] == s[0]);
        assert(key(s[0]) != key(e));
        if key(s[0]) != k {
            assert(s.push(e).drop_first() =~= s.drop_first().push(e));
            assert forall|j: int|
                0 <= j < s.drop_first().len() implies key(s.drop_first()[j]) != key(e) by {
                assert(s.drop_first()[j] == s[j + 1]);
            }
            lemma_find_push(s.drop_first(), key, e, k);
            assert(find_by(s.push(e), key, k) == find_by(s.drop_first().push(e), key, k));
            if k == key(e) {
                assert(find_by(s.push(e), key, k) == Some(e));
            } else {
                assert(find_by(s, key, k) == find_by(s.drop_first(), key, k));
                assert(find_by(s.push(e), key, k) == find_by(s, key, k));
            }
        } else {
            assert(find_by(s.push(e), key, k) == Some(s[0]));
            assert(find_by(s, key, k) == Some(s[0]));
        }
    }
}

} // verus!
