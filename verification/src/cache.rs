//! The compiled-module cache policy.
//!
//! A cache entry is a byte blob standing for the serialized form of a
//! compiled guest module, keyed one-to-one by the module it was compiled
//! from (callers key by the module's catalog handle).  The policy is
//! deliberately simple: a load first consults the cache, and only a miss
//! makes the caller invoke the compiler, after which the fresh artifact is
//! installed, overwriting any previous entry.  No staleness check is ever
//! performed — an entry that is present is used even if the source
//! changed, so callers must invalidate by hand after rebuilding a module.

use vstd::prelude::*;

verus! {

/// The blob stored for `key`, if any (keys are unique, so the first match
/// is the only one).
pub open spec fn cache_lookup(s: Seq<(u64, Seq<u8>)>, key: u64) -> Option<Seq<u8>>
    decreases s.len(),
{
    if s.len() == 0 {
        None
    } else if s[0].0 == key {
        Some(s[0].1)
    } else {
        cache_lookup(s.drop_first(), key)
    }
}

/// What a load does once the cache has been consulted.
pub enum CacheDecision {
    /// The stored artifact is returned; the compiler is not invoked.
    UseCached(Vec<u8>),
    /// Nothing usable is stored; the caller must compile, then `install`.
    Recompile,
}

/// An in-memory image of the on-disk cache directory: one entry per
/// module key.
pub struct ModuleCache {
    entries: Vec<(u64, Vec<u8>)>,
}

impl View for ModuleCache {
    type V = Seq<(u64, Seq<u8>)>;

    closed spec fn view(&self) -> Seq<(u64, Seq<u8>)> {
        Seq::new(self.entries@.len(), |i: int| (self.entries@[i].0, self.entries@[i].1@))
    }
}

impl ModuleCache {
    /// Keys are unique: each module has at most one cached artifact.
    pub open spec fn wf(&self) -> bool {
        forall|i: int, j: int| 0 <= i < j < self@.len() ==> self@[i].0 != self@[j].0
    }

    /// An empty cache: every load compiles.
    pub fn new() -> (c: Self)
        ensures
            c.wf(),
            c@ == Seq::<(u64, Seq<u8>)>::empty(),
    {
        ModuleCache { entries: Vec::new() }
    }

    /// The load half of `loadOrCompile`: returns the cached artifact when
    /// one is stored for `key`, and asks for a compilation exactly when
    /// none is.
    pub fn load_or_compile(&self, key: u64) -> (d: CacheDecision)
        requires
            self.wf(),
        ensures
            match d {
                CacheDecision::UseCached(module) => cache_lookup(self@, key) == Some(module@),
                CacheDecision::Recompile => cache_lookup(self@, key) is None,
            },
    {
        let n = self.entries.len();
        let mut i: usize = 0;
        while i < n
            invariant
                i <= n,
                n == self@.len(),
                self.wf(),
                forall|j: int| 0 <= j < i ==> (#[trigger] self@[j]).0 != key,
            decreases n - i,
        {
            if self.entries[i].0 == key {
                let module = self.entries[i].1.clone();
                proof {
                    lemma_cache_lookup_at(self@, key, i as int);
                }
                return CacheDecision::UseCached(module);
            }
            i = i + 1;
        }
        proof {
            lemma_cache_lookup_absent(self@, key);
        }
        CacheDecision::Recompile
    }

    /// Installs a freshly compiled artifact for `key`, overwriting any
    /// previous entry; entries for other keys are untouched.
    pub fn install(&mut self, key: u64, module: Vec<u8>)
        requires
            old(self).wf(),
        ensures
            final(self).wf(),
            cache_lookup(final(self)@, key) == Some(module@),
            forall|k: u64|
                k != key ==> #[trigger] cache_lookup(final(self)@, k) == cache_lookup(
                    old(self)@,
                    k,
                ),
    {
        let n = self.entries.len();
        let mut i: usize = 0;
        while i < n
            invariant
                i <= n,
                n == self@.len(),
                self.wf(),
                *self == *old(self),
                forall|j: int| 0 <= j < i ==> (#[trigger] self@[j]).0 != key,
            decreases n - i,
        {
            if self.entries[i].0 == key {
                let ghost before = self@;
                self.entries[i] = (key, module);
                proof {
                    assert(self@ =~= before.update(i as int, (key, module@)));
                    lemma_cache_lookup_update(before, key, module@, i as int);
                }
                return ;
            }
            i = i + 1;
        }
        let ghost before = self@;
        self.entries.push((key, module));
        proof {
            assert(self@ =~= before.push((key, module@)));
            lemma_cache_lookup_push(before, key, module@);
        }
    }
}

/// A match at position `i` of a unique-keyed cache is what lookup finds.
proof fn lemma_cache_lookup_at(s: Seq<(u64, Seq<u8>)>, key: u64, i: int)
    requires
        forall|p: int, q: int| 0 <= p < q < s.len() ==> s[p].0 != s[q].0,
        0 <= i < s.len(),
        s[i].0 == key,
        forall|j: int| 0 <= j < i ==> (#[trigger] s[j]).0 != key,
    ensures
        cache_lookup(s, key) == Some(s[i].1),
    decreases i,
{
    if i > 0 {
        assert(s.drop_first()[i - 1] == s[i]);
        assert(forall|j: int| 0 <= j < i - 1 ==> (#[trigger] s.drop_first()[j]).0 != key);
        lemma_cache_lookup_at(s.drop_first(), key, i - 1);
    }
}

/// A key that matches no entry misses.
proof fn lemma_cache_lookup_absent(s: Seq<(u64, Seq<u8>)>, key: u64)
    requires
        forall|j: int| 0 <= j < s.len() ==> (#[trigger] s[j]).0 != key,
    ensures
        cache_lookup(s, key) is None,
    decreases s.len(),
{
    if s.len() > 0 {
        assert(forall|j: int| 0 <= j < s.drop_first().len() ==> (#[trigger] s.drop_first()[j]).0
            != key);
        lemma_cache_lookup_absent(s.drop_first(), key);
    }
}

/// Overwriting the entry at the key's position changes that key's lookup
/// and no other.
proof fn lemma_cache_lookup_update(s: Seq<(u64, Seq<u8>)>, key: u64, v: Seq<u8>, i: int)
    requires
        forall|p: int, q: int| 0 <= p < q < s.len() ==> s[p].0 != s[q].0,
        0 <= i < s.len(),
        s[i].0 == key,
        forall|j: int| 0 <= j < i ==> (#[trigger] s[j]).0 != key,
    ensures
        cache_lookup(s.update(i, (key, v)), key) == Some(v),
        forall|k: u64|
            k != key ==> #[trigger] cache_lookup(s.update(i, (key, v)), k) == cache_lookup(s, k),
        forall|p: int, q: int|
            0 <= p < q < s.update(i, (key, v)).len() ==> s.update(i, (key, v))[p].0 != s.update(
                i,
                (key, v),
            )[q].0,
    decreases i,
{
    let t = s.update(i, (key, v));
    assert forall|p: int, q: int| 0 <= p < q < t.len() implies t[p].0 != t[q].0 by {
        assert(t[p].0 == s[p].0);
        assert(t[q].0 == s[q].0);
    }
    if i == 0 {
        assert(t[0] == (key, v));
        assert(t.drop_first() =~= s.drop_first());
        assert(cache_lookup(t, key) == Some(v));
        assert forall|k: u64| k != key implies cache_lookup(t, k) == cache_lookup(s, k) by {
            assert(cache_lookup(t, k) == cache_lookup(t.drop_first(), k));
            assert(s[0].0 == key);
            assert(cache_lookup(s, k) == cache_lookup(s.drop_first(), k));
        }
    } else {
        assert(t[0] == s[0]);
        assert(t.drop_first() =~= s.drop_first().update(i - 1, (key, v)));
        assert(s.drop_first()[i - 1] == s[i]);
        assert(forall|j: int| 0 <= j < i - 1 ==> (#[trigger] s.drop_first()[j]).0 != key);
        assert forall|p: int, q: int|
            0 <= p < q < s.drop_first().len() implies s.drop_first()[p].0 != s.drop_first()[q].0 by {
            assert(s.drop_first()[p] == s[p + 1]);
            assert(s.drop_first()[q] == s[q + 1]);
        }
        lemma_cache_lookup_update(s.drop_first(), key, v, i - 1);
        assert(s[0].0 != key);
        assert(cache_lookup(t, key) == cache_lookup(t.drop_first(), key));
        assert forall|k: u64| k != key implies cache_lookup(t, k) == cache_lookup(s, k) by {
            if t[0].0 != k {
                assert(cache_lookup(t, k) == cache_lookup(t.drop_first(), k));
                assert(cache_lookup(s, k) == cache_lookup(s.drop_first(), k));
            }
        }
    }
}

/// Appending a new key changes that key's lookup and no other.
proof fn lemma_cache_lookup_push(s: Seq<(u64, Seq<u8>)>, key: u64, v: Seq<u8>)
    requires
        forall|j: int| 0 <= j < s.len() ==> (#[trigger] s[j]).0 != key,
    ensures
        cache_lookup(s.push((key, v)), key) == Some(v),
        forall|k: u64|
            k != key ==> #[trigger] cache_lookup(s.push((key, v)), k) == cache_lookup(s, k),
    decreases s.len(),
{
    let t = s.push((key, v));
    if s.len() == 0 {
        assert(t[0] == (key, v));
        assert(t.drop_first() =~= Seq::<(u64, Seq<u8>)>::empty());
        assert forall|k: u64| k != key implies cache_lookup(t, k) == cache_lookup(s, k) by {
            assert(cache_lookup(t, k) == cache_lookup(t.drop_first(), k));
        }
    } else {
        assert(t[0] == s[0]);
        assert(t.drop_first() =~= s.drop_first().push((key, v)));
        assert(forall|j: int| 0 <= j < s.drop_first().len() ==> (#[trigger] s.drop_first()[j]).0
            != key);
        lemma_cache_lookup_push(s.drop_first(), key, v);
        assert(s[0].0 != key);
        assert(cache_lookup(t, key) == cache_lookup(t.drop_first(), key));
        assert forall|k: u64| k != key implies cache_lookup(t, k) == cache_lookup(s, k) by {
            if t[0].0 != k {
                assert(cache_lookup(t, k) == cache_lookup(t.drop_first(), k));
                assert(cache_lookup(s, k) == cache_lookup(s.drop_first(), k));
            }
        }
    }
}

/// Whether a load for `key` against cache contents `s` must invoke the
/// compiler: exactly when nothing is stored (see `load_or_compile`).
pub open spec fn recompiles(s: Seq<(u64, Seq<u8>)>, key: u64) -> bool {
    cache_lookup(s, key) is None
}

/// Law: compiling once is enough while the source is unchanged.  Once an
/// artifact is installed for a key — `install` guarantees its lookup —
/// a later load for that key returns that artifact and never invokes the
/// compiler again.
pub proof fn lemma_no_recompile_after_install(s: Seq<(u64, Seq<u8>)>, key: u64, module: Seq<u8>)
    requires
        cache_lookup(s, key) == Some(module),
    ensures
        !recompiles(s, key),
        cache_lookup(s, key)->Some_0 == module,
{
}

} // verus!
