use vstd::prelude::*;

verus! {

#[verifier::external_type_specification]
#[verifier::external_body]
#[verifier::reject_recursive_types(K)]
#[verifier::reject_recursive_types(V)]
#[verifier::reject_recursive_types(S)]
pub struct ExLruCache<K, V, S>(lru::LruCache<K, V, S>);

/// What the bounded least-recently-used cache holds: its (key, value) entries in
/// recency order, the most recently used first.
pub uninterp spec fn lru_entries(c: lru::LruCache<u64, u64, std::collections::hash_map::RandomState>) -> Seq<(u64, u64)>;

/// The capacity bound the cache was created with.
pub uninterp spec fn lru_capacity(c: lru::LruCache<u64, u64, std::collections::hash_map::RandomState>) -> nat;

/// Some entry carries this key.
pub open spec fn has_key(s: Seq<(u64, u64)>, k: u64) -> bool {
    exists|i: int| 0 <= i < s.len() && (#[trigger] s[i]).0 == k
}

/// The position of the entry carrying this key.
pub open spec fn key_index(s: Seq<(u64, u64)>, k: u64) -> int {
    choose|i: int| 0 <= i < s.len() && (#[trigger] s[i]).0 == k
}

/// The value stored under this key.
pub open spec fn lookup(s: Seq<(u64, u64)>, k: u64) -> u64 {
    s[key_index(s, k)].1
}

/// No two entries carry the same key.
pub open spec fn unique_keys(s: Seq<(u64, u64)>) -> bool {
    forall|i: int, j: int| 0 <= i < j < s.len() ==> (#[trigger] s[i]).0 != (#[trigger] s[j]).0
}

/// Relies on lru::LruCache::new: a fresh, empty cache holding at most `cap` entries.
#[verifier::external_body]
fn lru_new(cap: usize) -> (c: lru::LruCache<u64, u64, std::collections::hash_map::RandomState>)
    requires
        1 <= cap,
    ensures
        lru_entries(c) == Seq::<(u64, u64)>::empty(),
        lru_capacity(c) == cap,
{
    lru::LruCache::with_hasher(
        std::num::NonZeroUsize::new(cap).unwrap(),
        std::collections::hash_map::RandomState::new(),
    )
}

/// Relies on lru::LruCache::get: returns the value stored under the key and marks
/// the entry most-recently used, or returns nothing and changes nothing.
#[verifier::external_body]
fn lru_get(c: &mut lru::LruCache<u64, u64, std::collections::hash_map::RandomState>, k: u64) -> (r: Option<u64>)
    requires
        unique_keys(lru_entries(*old(c))),
    ensures
        lru_capacity(*final(c)) == lru_capacity(*old(c)),
        ({
            let s = lru_entries(*old(c));
            let t = lru_entries(*final(c));
            if has_key(s, k) {
                let i = key_index(s, k);
                r == Some(s[i].1) && t == seq![s[i]] + s.remove(i)
            } else {
                r == None::<u64> && t == s
            }
        }),
{
    c.get(&k).copied()
}

/// Relies on lru::LruCache::put: refreshes an existing key with the new value and
/// returns the old one, or inserts the key in front, evicting the least-recently
/// used entry when the cache is at capacity.
#[verifier::external_body]
fn lru_put(c: &mut lru::LruCache<u64, u64, std::collections::hash_map::RandomState>, k: u64, v: u64) -> (r: Option<u64>)
    requires
        unique_keys(lru_entries(*old(c))),
        lru_entries(*old(c)).len() <= lru_capacity(*old(c)),
    ensures
        lru_capacity(*final(c)) == lru_capacity(*old(c)),
        ({
            let s = lru_entries(*old(c));
            let t = lru_entries(*final(c));
            if has_key(s, k) {
                let i = key_index(s, k);
                r == Some(s[i].1) && t == seq![(k, v)] + s.remove(i)
            } else {
                r == None::<u64> && t == seq![(k, v)] + (if s.len() == lru_capacity(*old(c)) {
                    s.drop_last()
                } else {
                    s
                })
            }
        }),
{
    c.put(k, v)
}

/// Putting an entry with a fresh key in front of entries with unique keys, none
/// of which carries that key, keeps the keys unique.
proof fn lemma_front_insert_unique(rest: Seq<(u64, u64)>, k: u64, v: u64)
    requires
        unique_keys(rest),
        forall|x: int| 0 <= x < rest.len() ==> (#[trigger] rest[x]).0 != k,
    ensures
        unique_keys(seq![(k, v)] + rest),
{
    let t = seq![(k, v)] + rest;
    assert forall|i: int, j: int| 0 <= i < j < t.len() implies (#[trigger] t[i]).0 != (
    #[trigger] t[j]).0 by {
        if i == 0 {
            assert(t[j] == rest[j - 1]);
        } else {
            assert(t[i] == rest[i - 1] && t[j] == rest[j - 1]);
        }
    }
}

/// Removing the one entry that carries a key leaves unique keys, none of which
/// carries the removed key.
proof fn lemma_remove_entries(s: Seq<(u64, u64)>, i: int)
    requires
        unique_keys(s),
        0 <= i < s.len(),
    ensures
        unique_keys(s.remove(i)),
        forall|x: int| 0 <= x < s.remove(i).len() ==> (#[trigger] s.remove(i)[x]).0 != s[i].0,
{
    let r = s.remove(i);
    s.remove_ensures(i);
    assert forall|x: int| 0 <= x < r.len() implies (#[trigger] r[x]).0 != s[i].0 by {
        if x < i {
            assert(r[x] == s[x]);
        } else {
            assert(r[x] == s[x + 1]);
        }
    }
    assert forall|x: int, y: int| 0 <= x < y < r.len() implies (#[trigger] r[x]).0 != (
    #[trigger] r[y]).0 by {
        if y < i {
        } else if x < i {
            assert(r[x] == s[x] && r[y] == s[y + 1]);
        } else {
            assert(r[x] == s[x + 1] && r[y] == s[y + 1]);
        }
    }
}

/// With unique keys, the key's position and stored value are those of any entry
/// that carries the key.
pub proof fn lemma_key_index_of(s: Seq<(u64, u64)>, k: u64, i0: int)
    requires
        unique_keys(s),
        0 <= i0 < s.len(),
        s[i0].0 == k,
    ensures
        has_key(s, k),
        key_index(s, k) == i0,
        lookup(s, k) == s[i0].1,
{
    assert(has_key(s, k));
    let i = key_index(s, k);
    assert(0 <= i < s.len() && s[i].0 == k);
    if i != i0 {
        if i < i0 {
            assert(s[i].0 != s[i0].0);
        } else {
            assert(s[i0].0 != s[i].0);
        }
    }
}

/// A bounded, least-recently-used cache of compiled verifier programs keyed by
/// witness-shape fingerprint, with its process-wide miss counter. Program
/// handles are the caller's: the cache stores and returns them unchanged.
pub struct ShapeCache {
    /// The bounded cache of (shape key, program handle) entries.
    pub cache: lru::LruCache<u64, u64, std::collections::hash_map::RandomState>,
    /// How many requests missed and had to build; monotonically increasing,
    /// used only for observability.
    pub misses: u64,
}

impl ShapeCache {
    /// The cached (shape key, program handle) entries, most recently used first.
    pub open spec fn entries(self) -> Seq<(u64, u64)> {
        lru_entries(self.cache)
    }

    /// The capacity bound of the cache.
    pub open spec fn capacity(self) -> nat {
        lru_capacity(self.cache)
    }

    pub open spec fn wf(self) -> bool {
        &&& unique_keys(self.entries())
        &&& self.entries().len() <= self.capacity()
        &&& self.capacity() >= 1
    }

    /// A fresh, empty cache holding at most `cap` programs.
    pub fn new(cap: usize) -> (c: ShapeCache)
        requires
            1 <= cap,
        ensures
            c.wf(),
            c.entries() == Seq::<(u64, u64)>::empty(),
            c.capacity() == cap,
            c.misses == 0,
    {
        ShapeCache { cache: lru_new(cap), misses: 0 }
    }

    /// Looks the shape up; on a hit returns the cached program handle, on a miss
    /// counts the miss, stores the freshly built program under the shape and
    /// returns it. Either way the shape maps to the returned program afterwards,
    /// as the most recently used entry. A hit only refreshes the entry's
    /// position; a miss inserts in front and, when the cache is at capacity,
    /// evicts the least-recently-used entry — the last one.
    pub fn get_or_build(&mut self, shape_key: u64, built: u64) -> (program: u64)
        requires
            old(self).wf(),
            old(self).misses < u64::MAX,
        ensures
            final(self).wf(),
            final(self).capacity() == old(self).capacity(),
            // a hit returns the cached program and does not count a miss;
            // the entry moves to the front and every other entry stays
            has_key(old(self).entries(), shape_key) ==> program == lookup(
                old(self).entries(),
                shape_key,
            ) && final(self).misses == old(self).misses && final(self).entries() == seq![
                (shape_key, program),
            ] + old(self).entries().remove(key_index(old(self).entries(), shape_key)),
            // a miss returns the freshly built program and counts once; the new
            // entry goes in front, evicting the last entry only at capacity
            !has_key(old(self).entries(), shape_key) ==> program == built && final(self).misses
                == old(self).misses + 1 && final(self).entries() == seq![(shape_key, program)] + (
            if old(self).entries().len() == old(self).capacity() {
                old(self).entries().drop_last()
            } else {
                old(self).entries()
            }),
            // afterwards the shape is cached in front, mapped to what was returned
            final(self).entries().len() >= 1,
            final(self).entries()[0] == (shape_key, program),
            has_key(final(self).entries(), shape_key),
            lookup(final(self).entries(), shape_key) == program,
    {
        let ghost s = old(self).entries();
        let hit = lru_get(&mut self.cache, shape_key);
        match hit {
            Some(program) => {
                proof {
                    let i = key_index(s, shape_key);
                    let rest = s.remove(i);
                    let t = self.entries();
                    lemma_remove_entries(s, i);
                    lemma_front_insert_unique(rest, shape_key, s[i].1);
                    assert(t[0] == s[i]);
                    assert(t[0].0 == shape_key && t[0].1 == program);
                    assert(t[0] == (shape_key, program));
                    assert(t == seq![s[i]] + rest && seq![s[i]].len() == 1);
                    assert(unique_keys(t)) by {
                        assert(seq![(shape_key, s[i].1)] + rest =~= seq![s[i]] + rest);
                    }
                    lemma_key_index_of(t, shape_key, 0);
                }
                program
            },
            None => {
                self.misses = self.misses + 1;
                lru_put(&mut self.cache, shape_key, built);
                proof {
                    let rest = if s.len() == old(self).capacity() {
                        s.drop_last()
                    } else {
                        s
                    };
                    let t = self.entries();
                    assert forall|x: int| 0 <= x < rest.len() implies exists|j: int|
                        0 <= j < s.len() && #[trigger] rest[x] == s[j] && rest[x].0
                            != shape_key by {
                        assert(rest[x] == s[x]);
                        assert(s[x].0 != shape_key);
                    }
                    assert(unique_keys(rest)) by {
                        assert(forall|x: int| 0 <= x < rest.len() ==> rest[x] == s[x]);
                    }
                    lemma_front_insert_unique(rest, shape_key, built);
                    assert(t == seq![(shape_key, built)] + rest);
                    assert(t[0] == (shape_key, built));
                    lemma_key_index_of(t, shape_key, 0);
                }
                built
            },
        }
    }
}

} // verus!
