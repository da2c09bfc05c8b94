//! A one-entry memo.
//!
//! `SingleCache` holds at most one `(key, value)` pair.  A request under the
//! stored key returns the stored value without recomputation; a request under
//! any other key recomputes and replaces the sole entry.

use vstd::prelude::*;
use vstd::std_specs::cmp::PartialEqSpec;

verus! {

/// A cache of capacity exactly one: zero or one `(key, value)` pair.
pub struct SingleCache<K, V> {
    cache_pair: Option<(K, V)>,
}

impl<K, V> View for SingleCache<K, V> {
    type V = Option<(K, V)>;

    closed spec fn view(&self) -> Option<(K, V)> {
        self.cache_pair
    }
}

impl<K: PartialEq, V: Clone> SingleCache<K, V> {
    /// Whether the stored key equals `key` under the key type's equality.
    pub open spec fn spec_hit(&self, key: K) -> bool {
        self@ matches Some(p) && key.eq_spec(&p.0)
    }

    /// Whether the entry is exactly `(key, c)` with `c` a clone of `value`.
    pub open spec fn stores(&self, key: K, value: V) -> bool {
        self@ matches Some(p) && p.0 == key && cloned::<V>(value, p.1)
    }

    /// Builds an empty cache.
    pub fn new() -> (r: Self)
        ensures
            r@ is None,
    {
        SingleCache { cache_pair: None }
    }

    /// Returns the stored value when `key` equals the stored key.
    pub fn get(&self, key: &K) -> (r: Option<&V>)
        ensures
            K::obeys_eq_spec() ==> {
                &&& (r is Some <==> self.spec_hit(*key))
                &&& match r {
                    Some(v) => self@ matches Some(p) && *v == p.1,
                    None => true,
                }
            },
    {
        match &self.cache_pair {
            Some(pair) => {
                if *key == pair.0 {
                    Some(&pair.1)
                } else {
                    None
                }
            },
            None => None,
        }
    }

    /// Stores `(key, value)`, discarding any previous entry.
    pub fn set(&mut self, key: K, value: V)
        ensures
            final(self)@ == Some((key, value)),
    {
        self.cache_pair = Some((key, value));
    }

    /// Returns the cached value when `key` matches the cached key; otherwise
    /// invokes `func` once, stores its result under `key` — evicting any
    /// previous entry — and returns that result.  On a hit the entry is left
    /// unchanged and `func` is not invoked.
    pub fn get_or_set<F: Fn() -> V>(&mut self, key: K, func: F) -> (r: V)
        requires
            func.requires(()),
        ensures
            K::obeys_eq_spec() ==> {
                &&& (old(self).spec_hit(key) ==> final(self)@ == old(self)@ && (old(self)@ matches Some(p)
                    && cloned::<V>(p.1, r)))
                &&& (!old(self).spec_hit(key) ==> func.ensures((), r) && final(self).stores(key, r))
            },
    {
        match &self.cache_pair {
            Some(old_pair) => {
                if key == old_pair.0 {
                    return old_pair.1.clone();
                }
            },
            None => {},
        }
        let new_value: V = func();
        self.cache_pair = Some((key, new_value.clone()));
        new_value
    }
}

} // verus!
