//! Vectors of records with unique string keys, viewed as sequences of record views.

use vstd::prelude::*;

verus! {

/// A record identified by a string key.
pub trait Keyed: View + Sized {
    /// The key of a record's view.
    spec fn key_of(v: Self::V) -> Seq<char>;

    /// The record's key.
    fn key(&self) -> (k: &String)
        ensures
            k@ == Self::key_of(self@),
    ;
}

/// The views of the records, in order.
pub open spec fn views<T: View>(s: Seq<T>) -> Seq<T::V> {
    s.map_values(|t: T| t@)
}

/// No two records share a key.
pub open spec fn keys_unique<T: Keyed>(s: Seq<T::V>) -> bool {
    forall|i: int, j: int|
        0 <= i < s.len() && 0 <= j < s.len() && i != j ==> T::key_of(s[i]) != T::key_of(s[j])
}

/// Some record has key `k`.
pub open spec fn has_key<T: Keyed>(s: Seq<T::V>, k: Seq<char>) -> bool {
    exists|i: int| 0 <= i < s.len() && T::key_of(s[i]) == k
}

/// The position of the record with key `k` (meaningful when `has_key`).
pub open spec fn key_index<T: Keyed>(s: Seq<T::V>, k: Seq<char>) -> int {
    choose|i: int| 0 <= i < s.len() && T::key_of(s[i]) == k
}

/// The record with key `k`, if any.
pub open spec fn lookup<T: Keyed>(s: Seq<T::V>, k: Seq<char>) -> Option<T::V> {
    if has_key::<T>(s, k) {
        Some(s[key_index::<T>(s, k)])
    } else {
        None
    }
}

/// `s` with `v` stored under its key: the record with that key is replaced, or `v` is appended.
pub open spec fn upsert<T: Keyed>(s: Seq<T::V>, v: T::V) -> Seq<T::V> {
    if has_key::<T>(s, T::key_of(v)) {
        s.update(key_index::<T>(s, T::key_of(v)), v)
    } else {
        s.push(v)
    }
}

/// `s` without the record with key `k`.
pub open spec fn remove_key<T: Keyed>(s: Seq<T::V>, k: Seq<char>) -> Seq<T::V> {
    if has_key::<T>(s, k) {
        s.remove(key_index::<T>(s, k))
    } else {
        s
    }
}

/// With unique keys, the record at `i` is the one `key_index` names.
pub proof fn lemma_key_index_unique<T: Keyed>(s: Seq<T::V>, i: int)
    requires
        keys_unique::<T>(s),
        0 <= i < s.len(),
    ensures
        has_key::<T>(s, T::key_of(s[i])),
        key_index::<T>(s, T::key_of(s[i])) == i,
{
    let k = T::key_of(s[i]);
    assert(0 <= i < s.len() && T::key_of(s[i]) == k);
    let j = key_index::<T>(s, k);
    assert(T::key_of(s[j]) == k);
}

/// The position of the record with key `k`.
pub fn find_key<T: Keyed>(v: &Vec<T>, k: &String) -> (r: Option<usize>)
    requires
        keys_unique::<T>(views(v@)),
    ensures
        r is Some <==> has_key::<T>(views(v@), k@),
        r matches Some(i) ==> i < v@.len() && i == key_index::<T>(views(v@), k@),
{
    let n = v.len();
    let mut i: usize = 0;
    while i < n
        invariant
            n == v@.len(),
            i <= n,
            keys_unique::<T>(views(v@)),
            forall|m: int| 0 <= m < i ==> T::key_of(#[trigger] views(v@)[m]) != k@,
        decreases n - i,
    {
        let ki: &String = v[i].key();
        assert(views(v@)[i as int] == v@[i as int]@);
        if ki.eq(k) {
            proof {
                lemma_key_index_unique::<T>(views(v@), i as int);
            }
            return Some(i);
        }
        i = i + 1;
    }
    None
}

/// Stores `item` under its key, replacing the record with that key if there is one.
pub fn upsert_key<T: Keyed>(v: &mut Vec<T>, item: T)
    requires
        keys_unique::<T>(views(old(v)@)),
    ensures
        views(final(v)@) == upsert::<T>(views(old(v)@), item@),
        keys_unique::<T>(views(final(v)@)),
{
    let ghost before = views(v@);
    let ghost iv = item@;
    match find_key(v, item.key()) {
        Some(i) => {
            v.set(i, item);
            assert(views(v@) =~= before.update(i as int, iv));
        },
        None => {
            v.push(item);
            assert(views(v@) =~= before.push(iv));
        },
    }
}

/// Removes and returns the record with key `k`, if any.
pub fn remove_by_key<T: Keyed>(v: &mut Vec<T>, k: &String) -> (r: Option<T>)
    requires
        keys_unique::<T>(views(old(v)@)),
    ensures
        views(final(v)@) == remove_key::<T>(views(old(v)@), k@),
        keys_unique::<T>(views(final(v)@)),
        r is Some <==> has_key::<T>(views(old(v)@), k@),
        r matches Some(t) ==> Some(t@) == lookup::<T>(views(old(v)@), k@),
{
    let ghost before = views(v@);
    match find_key(v, k) {
        Some(i) => {
            let t = v.remove(i);
            assert(views(v@) =~= before.remove(i as int));
            Some(t)
        },
        None => None,
    }
}

/// After storing `v`, looking up its key gives `v`, and other keys are unaffected.
pub proof fn lemma_lookup_upsert<T: Keyed>(s: Seq<T::V>, v: T::V, k: Seq<char>)
    requires
        keys_unique::<T>(s),
    ensures
        keys_unique::<T>(upsert::<T>(s, v)),
        lookup::<T>(upsert::<T>(s, v), k) == if k == T::key_of(v) {
            Some(v)
        } else {
            lookup::<T>(s, k)
        },
{
    let u = upsert::<T>(s, v);
    if has_key::<T>(s, T::key_of(v)) {
        let i = key_index::<T>(s, T::key_of(v));
        assert(u == s.update(i, v));
        assert forall|a: int, b: int| 0 <= a < u.len() && 0 <= b < u.len() && a != b implies
            T::key_of(u[a]) != T::key_of(u[b]) by {
            if a != i && b != i {
                assert(u[a] == s[a] && u[b] == s[b]);
            }
        }
        assert(0 <= i < u.len() && T::key_of(u[i]) == T::key_of(v));
        lemma_key_index_unique::<T>(u, i);
        if k != T::key_of(v) {
            if has_key::<T>(s, k) {
                let j = key_index::<T>(s, k);
                assert(j != i);
                assert(u[j] == s[j]);
                lemma_key_index_unique::<T>(u, j);
            } else {
                assert forall|m: int| 0 <= m < u.len() implies T::key_of(u[m]) != k by {
                    if m != i {
                        assert(u[m] == s[m]);
                    }
                }
            }
        }
    } else {
        assert(u == s.push(v));
        let i = s.len() as int;
        assert forall|a: int, b: int| 0 <= a < u.len() && 0 <= b < u.len() && a != b implies
            T::key_of(u[a]) != T::key_of(u[b]) by {
            if a != i && b != i {
                assert(u[a] == s[a] && u[b] == s[b]);
            } else if a == i {
                assert(u[b] == s[b]);
            } else {
                assert(u[a] == s[a]);
            }
        }
        lemma_key_index_unique::<T>(u, i);
        if k != T::key_of(v) {
            if has_key::<T>(s, k) {
                let j = key_index::<T>(s, k);
                assert(u[j] == s[j]);
                lemma_key_index_unique::<T>(u, j);
            } else {
                assert forall|m: int| 0 <= m < u.len() implies T::key_of(u[m]) != k by {
                    if m != i {
                        assert(u[m] == s[m]);
                    }
                }
            }
        }
    }
}

/// After removing key `k`, it is gone, and other keys are unaffected.
pub proof fn lemma_lookup_remove<T: Keyed>(s: Seq<T::V>, k: Seq<char>, other: Seq<char>)
    requires
        keys_unique::<T>(s),
    ensures
        keys_unique::<T>(remove_key::<T>(s, k)),
        lookup::<T>(remove_key::<T>(s, k), other) == if other == k {
            None
        } else {
            lookup::<T>(s, other)
        },
{
    let r = remove_key::<T>(s, k);
    if has_key::<T>(s, k) {
        let i = key_index::<T>(s, k);
        assert(r == s.remove(i));
        assert forall|a: int, b: int| 0 <= a < r.len() && 0 <= b < r.len() && a != b implies
            T::key_of(r[a]) != T::key_of(r[b]) by {
            let a0 = if a < i { a } else { a + 1 };
            let b0 = if b < i { b } else { b + 1 };
            assert(r[a] == s[a0] && r[b] == s[b0]);
        }
        if other == k {
            assert forall|m: int| 0 <= m < r.len() implies T::key_of(r[m]) != other by {
                let m0 = if m < i { m } else { m + 1 };
                assert(r[m] == s[m0]);
            }
        } else if has_key::<T>(s, other) {
            let j = key_index::<T>(s, other);
            assert(j != i);
            let j1 = if j < i { j } else { j - 1 };
            assert(r[j1] == s[j]);
            lemma_key_index_unique::<T>(r, j1);
        } else {
            assert forall|m: int| 0 <= m < r.len() implies T::key_of(r[m]) != other by {
                let m0 = if m < i { m } else { m + 1 };
                assert(r[m] == s[m0]);
            }
        }
    }
}

/// Filtering keeps keys unique.
pub proof fn lemma_filter_keeps_unique<T: Keyed>(s: Seq<T::V>, p: spec_fn(T::V) -> bool)
    requires
        keys_unique::<T>(s),
    ensures
        keys_unique::<T>(s.filter(p)),
        forall|i: int| 0 <= i < s.filter(p).len() ==> s.contains(#[trigger] s.filter(p)[i]),
    decreases s.len(),
{
    reveal(Seq::filter);
    assert forall|i: int| 0 <= i < s.filter(p).len() implies s.contains(#[trigger] s.filter(p)[i]) by {
        assert(s.filter(p).contains(s.filter(p)[i]));
        s.lemma_filter_contains_rev(p, s.filter(p)[i]);
    }
    if s.len() > 0 {
        let init = s.drop_last();
        assert(keys_unique::<T>(init));
        lemma_filter_keeps_unique::<T>(init, p);
        if p(s.last()) {
            let f = init.filter(p);
            assert forall|i: int| 0 <= i < f.len() implies T::key_of(f[i]) != T::key_of(s.last()) by {
                assert(init.contains(f[i]));
                let j = choose|j: int| 0 <= j < init.len() && init[j] == f[i];
                assert(s[j] == f[i]);
            }
            assert(s.filter(p) == f.push(s.last()));
        }
    }
}

/// Looking up a key in a filtered sequence finds the record the unfiltered one holds, if it
/// passes the filter.
pub proof fn lemma_lookup_filter<T: Keyed>(s: Seq<T::V>, p: spec_fn(T::V) -> bool, k: Seq<char>)
    requires
        keys_unique::<T>(s),
    ensures
        lookup::<T>(s.filter(p), k) == match lookup::<T>(s, k) {
            Some(v) => if p(v) {
                Some(v)
            } else {
                None
            },
            None => None,
        },
    decreases s.len(),
{
    reveal(Seq::filter);
    if s.len() == 0 {
        assert(!has_key::<T>(s.filter(p), k));
    } else {
        let init = s.drop_last();
        let x = s.last();
        assert(keys_unique::<T>(init));
        lemma_lookup_filter::<T>(init, p, k);
        lemma_lookup_filter::<T>(init, p, T::key_of(x));
        let f = init.filter(p);
        lemma_filter_keeps_unique::<T>(init, p);
        assert forall|m: int| 0 <= m < init.len() implies T::key_of(init[m]) != T::key_of(x) by {
            assert(init[m] == s[m]);
        }
        assert(!has_key::<T>(init, T::key_of(x)));
        assert(s == init.push(x));
        assert(upsert::<T>(init, x) == s);
        lemma_lookup_upsert::<T>(init, x, k);
        if p(x) {
            assert(s.filter(p) == f.push(x));
            assert(lookup::<T>(f, T::key_of(x)) is None);
            assert(!has_key::<T>(f, T::key_of(x)));
            assert(upsert::<T>(f, x) == f.push(x));
            lemma_lookup_upsert::<T>(f, x, k);
        } else {
            assert(s.filter(p) == f);
        }
    }
}

} // verus!
