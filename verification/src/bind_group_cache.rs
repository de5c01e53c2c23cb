//! Per-material bind group cache.
//!
//! Bind groups are requested every draw call with a set of resource bindings.
//! Re-creating a `wgpu::BindGroup` every draw is wasteful — the same
//! texture/sampler/buffer combination is common across frames.
//!
//! `BindGroupCache` stores `Arc<wgpu::BindGroup>` entries keyed by the identities
//! of the resources in the binding list. Entries persist for the lifetime of the
//! cache (no eviction): Fyrox creates a finite, stable set of
//! texture/sampler/buffer objects per scene load.
use crate::gpu::arc_clone;
use crate::metrics::BindGroupMetrics;
use std::sync::Arc;
use vstd::prelude::*;
use wgpu::BindGroup;

verus! {

/// Which part of a buffer a binding uses.
#[derive(Debug, Clone, Copy, PartialEq, Eq, Hash, Structural)]
pub enum BufferDataUsage {
    /// The whole buffer.
    UseEverything,
    /// `size` bytes starting at byte `offset`.
    UseSegment { offset: usize, size: usize },
}

/// A resource binding of a draw call, with each GPU object given by its
/// identity: the address of the object behind the shared handle, which is
/// the same for all clones of the handle.
#[derive(Debug, Clone, Copy, PartialEq, Eq, Hash, Structural)]
pub enum ResourceBinding {
    /// A texture and its sampler bound at `binding`.
    Texture { texture_ptr: usize, sampler_ptr: usize, binding: usize },
    /// A buffer (or a segment of it) bound at `binding`.
    Buffer { buffer_ptr: usize, binding: usize, data_usage: BufferDataUsage },
}

/// A cache key entry for a single resource binding.
#[derive(Debug, Clone, Copy, PartialEq, Eq, Hash, Structural)]
pub enum BindingKey {
    Texture { texture_ptr: usize, sampler_ptr: usize, binding: usize },
    Buffer { buffer_ptr: usize, binding: usize, offset: u64, size: Option<u64> },
}

/// The key entry of one binding: a whole buffer is offset 0 with no size.
pub open spec fn binding_key(b: ResourceBinding) -> BindingKey {
    match b {
        ResourceBinding::Texture { texture_ptr, sampler_ptr, binding } =>
            BindingKey::Texture { texture_ptr, sampler_ptr, binding },
        ResourceBinding::Buffer { buffer_ptr, binding, data_usage } => match data_usage {
            BufferDataUsage::UseEverything =>
                BindingKey::Buffer { buffer_ptr, binding, offset: 0, size: None },
            BufferDataUsage::UseSegment { offset, size } =>
                BindingKey::Buffer { buffer_ptr, binding, offset: offset as u64, size: Some(size as u64) },
        },
    }
}

/// The part of a buffer a binding uses, as the key records it: a whole
/// buffer is offset 0 with no size.
pub open spec fn usage_range(u: BufferDataUsage) -> (u64, Option<u64>) {
    match u {
        BufferDataUsage::UseEverything => (0u64, None),
        BufferDataUsage::UseSegment { offset, size } => (offset as u64, Some(size as u64)),
    }
}

/// Two bindings that a cache treats as the same: the same kind, the same
/// objects and slot, and for buffers the same used part.
pub open spec fn same_binding(x: ResourceBinding, y: ResourceBinding) -> bool {
    match (x, y) {
        (
            ResourceBinding::Texture { texture_ptr: t1, sampler_ptr: s1, binding: b1 },
            ResourceBinding::Texture { texture_ptr: t2, sampler_ptr: s2, binding: b2 },
        ) => t1 == t2 && s1 == s2 && b1 == b2,
        (
            ResourceBinding::Buffer { buffer_ptr: p1, binding: b1, data_usage: u1 },
            ResourceBinding::Buffer { buffer_ptr: p2, binding: b2, data_usage: u2 },
        ) => p1 == p2 && b1 == b2 && usage_range(u1) == usage_range(u2),
        _ => false,
    }
}

/// Law: two bindings give the same key entry exactly when they are the same
/// binding in the cache's sense.
pub proof fn lemma_binding_key_eq(x: ResourceBinding, y: ResourceBinding)
    ensures
        binding_key(x) == binding_key(y) <==> same_binding(x, y),
{
}

/// Law: the keys built from two binding lists are equal exactly when the
/// lists have the same length and are pairwise the same binding.
pub proof fn lemma_keys_equal(a: Seq<ResourceBinding>, b: Seq<ResourceBinding>)
    ensures
        a.map_values(|x: ResourceBinding| binding_key(x)) == b.map_values(|x: ResourceBinding| binding_key(x))
            <==> (a.len() == b.len() && forall|i: int| 0 <= i < a.len() ==> same_binding(#[trigger] a[i], b[i])),
{
    let ka = a.map_values(|x: ResourceBinding| binding_key(x));
    let kb = b.map_values(|x: ResourceBinding| binding_key(x));
    if a.len() == b.len() && forall|i: int| 0 <= i < a.len() ==> same_binding(#[trigger] a[i], b[i]) {
        assert forall|i: int| 0 <= i < a.len() implies ka[i] == kb[i] by {
            lemma_binding_key_eq(a[i], b[i]);
        }
        assert(ka =~= kb);
    }
    assert(ka.len() == a.len() && kb.len() == b.len());
    if ka == kb {
        assert forall|i: int| 0 <= i < a.len() implies same_binding(#[trigger] a[i], b[i]) by {
            assert(ka[i] == binding_key(a[i]));
            assert(kb[i] == binding_key(b[i]));
            assert(ka[i] == kb[i]);
            lemma_binding_key_eq(a[i], b[i]);
        }
    }
}

/// A cache key for a full set of resource bindings.
#[derive(Debug, Clone, PartialEq, Eq, Hash)]
pub struct BindGroupCacheKey {
    bindings: Vec<BindingKey>,
}

impl View for BindGroupCacheKey {
    type V = Seq<BindingKey>;

    closed spec fn view(&self) -> Seq<BindingKey> {
        self.bindings@
    }
}

impl BindGroupCacheKey {
    /// Creates a cache key from a slice of `ResourceBinding` references:
    /// one key entry per binding, in order.
    ///
    /// This is called once per draw call to build the lookup key.
    pub fn new(bindings: &[&ResourceBinding]) -> (r: Self)
        ensures
            r@.len() == bindings@.len(),
            forall|i: int| 0 <= i < bindings@.len() ==> r@[i] == binding_key(*bindings@[i]),
            r@ == bindings@.map_values(|b: &ResourceBinding| *b).map_values(|x: ResourceBinding| binding_key(x)),
    {
        let mut keys: Vec<BindingKey> = Vec::new();
        let mut i: usize = 0;
        while i < bindings.len()
            invariant
                0 <= i <= bindings@.len(),
                keys@.len() == i,
                forall|k: int| 0 <= k < i ==> keys@[k] == binding_key(*bindings@[k]),
            decreases bindings@.len() - i,
        {
            let b: &ResourceBinding = bindings[i];
            let key = match *b {
                ResourceBinding::Texture { texture_ptr, sampler_ptr, binding } =>
                    BindingKey::Texture { texture_ptr, sampler_ptr, binding },
                ResourceBinding::Buffer { buffer_ptr, binding, data_usage } => {
                    let (offset, size) = match data_usage {
                        BufferDataUsage::UseEverything => (0u64, None),
                        BufferDataUsage::UseSegment { offset, size } => (offset as u64, Some(size as u64)),
                    };
                    BindingKey::Buffer { buffer_ptr, binding, offset, size }
                },
            };
            keys.push(key);
            i = i + 1;
        }
        Self { bindings: keys }
    }

    /// Whether two keys hold the same entries in the same order.
    pub fn same_as(&self, other: &Self) -> (r: bool)
        ensures
            r == (self@ == other@),
    {
        if self.bindings.len() != other.bindings.len() {
            return false;
        }
        let mut i: usize = 0;
        while i < self.bindings.len()
            invariant
                self.bindings@.len() == other.bindings@.len(),
                0 <= i <= self.bindings@.len(),
                forall|k: int| 0 <= k < i ==> self.bindings@[k] == other.bindings@[k],
            decreases self.bindings@.len() - i,
        {
            if self.bindings[i] != other.bindings[i] {
                return false;
            }
            i = i + 1;
        }
        assert(self.bindings@ =~= other.bindings@);
        true
    }
}

/// A cache of `wgpu::BindGroup` objects keyed by resource identity combination.
///
/// Reduces per-draw bind group creation overhead by caching and reusing bind
/// groups for identical resource sets.
pub struct BindGroupCache {
    entries: Vec<(BindGroupCacheKey, Arc<BindGroup>)>,
    metrics: BindGroupMetrics,
}

impl BindGroupCache {
    /// No key is cached twice.
    #[verifier::type_invariant]
    spec fn distinct_keys(self) -> bool {
        forall|a: int, b: int| 0 <= a < b < self.entries@.len() ==> self.entries@[a].0@ != self.entries@[b].0@
    }

    proof fn lemma_wf(&self)
        requires
            self.distinct_keys(),
        ensures
            self.wf(),
    {
        assert forall|a: int, b: int| 0 <= a < self.keys().len() && 0 <= b < self.keys().len() && a != b
            implies self.keys()[a] != self.keys()[b] by {
            if a > b {
                assert(self.entries@[b].0@ != self.entries@[a].0@);
            }
        }
    }

    /// The keys of the cached entries, in insertion order.
    pub closed spec fn keys(&self) -> Seq<Seq<BindingKey>> {
        Seq::new(self.entries@.len(), |i: int| self.entries@[i].0@)
    }

    /// The cached groups, in insertion order (parallel to `keys`).
    pub closed spec fn groups(&self) -> Seq<BindGroup> {
        Seq::new(self.entries@.len(), |i: int| *self.entries@[i].1)
    }

    /// Well-formedness: no key is cached twice.
    pub open spec fn wf(&self) -> bool {
        self.keys().no_duplicates()
    }

    /// The group cached for `key`, if any.
    pub open spec fn lookup(&self, key: Seq<BindingKey>) -> Option<BindGroup> {
        if self.keys().contains(key) {
            Some(self.groups()[self.keys().index_of(key)])
        } else {
            None
        }
    }

    /// The hit/miss counters.
    pub closed spec fn metrics_view(&self) -> BindGroupMetrics {
        self.metrics
    }

    /// What `insert(key, bg)` leaves behind: an existing entry is kept and
    /// returned, otherwise `bg` is added and returned; no other key changes.
    pub open spec fn inserted(old: &Self, new: &Self, key: Seq<BindingKey>, bg: BindGroup, r: BindGroup) -> bool {
        &&& new.wf()
        &&& forall|k: Seq<BindingKey>| k != key ==> new.lookup(k) == old.lookup(k)
        &&& match old.lookup(key) {
            Some(g) => r == g && new.lookup(key) == Some(g) && new.keys().len() == old.keys().len(),
            None => r == bg && new.lookup(key) == Some(bg) && new.keys().len() == old.keys().len() + 1,
        }
    }

    /// Looks up a cached bind group, if one exists for the given key.
    ///
    /// Records a hit if found, or a miss if not found.
    pub fn get(&mut self, key: &BindGroupCacheKey) -> (r: Option<Arc<BindGroup>>)
        ensures
            final(self).wf(),
            final(self).keys() == old(self).keys(),
            final(self).groups() == old(self).groups(),
            match r {
                Some(g) => old(self).lookup(key@) == Some(*g)
                    && final(self).metrics_view().hits() == old(self).metrics_view().hits().wrapping_add(1)
                    && final(self).metrics_view().misses() == old(self).metrics_view().misses(),
                None => old(self).lookup(key@) is None
                    && final(self).metrics_view().misses() == old(self).metrics_view().misses().wrapping_add(1)
                    && final(self).metrics_view().hits() == old(self).metrics_view().hits(),
            },
    {
        proof {
            use_type_invariant(&*self);
            self.lemma_wf();
        }
        let result = match self.position(key) {
            Some(i) => Some(arc_clone(&self.entries[i].1)),
            None => None,
        };
        let mut metrics = BindGroupMetrics::default();
        std::mem::swap(&mut metrics, &mut self.metrics);
        if result.is_some() {
            metrics.record_hit();
        } else {
            metrics.record_miss();
        }
        self.metrics = metrics;
        result
    }

    /// Inserts a bind group into the cache, returning the `Arc` that the caller should use.
    ///
    /// If a group was already cached, returns the existing `Arc` instead.
    pub fn insert(&mut self, key: BindGroupCacheKey, bg: BindGroup) -> (r: Arc<BindGroup>)
        ensures
            Self::inserted(old(self), final(self), key@, bg, *r),
            final(self).metrics_view() == old(self).metrics_view(),
    {
        proof {
            use_type_invariant(&*self);
            self.lemma_wf();
        }
        match self.position(&key) {
            Some(i) => {
                let r = arc_clone(&self.entries[i].1);
                proof {
                    assert(self.lookup(key@) == Some(*r));
                }
                r
            },
            None => {
                let ghost old_keys = self.keys();
                let ghost old_groups = self.groups();
                let ghost kv = key@;
                let arc = Arc::new(bg);
                let r = arc_clone(&arc);
                let ghost old_entries = self.entries@;
                assert(forall|a: int, b: int| 0 <= a < b < old_entries.len() ==> old_entries[a].0@ != old_entries[b].0@);
                let mut entries: Vec<(BindGroupCacheKey, Arc<BindGroup>)> = Vec::new();
                std::mem::swap(&mut entries, &mut self.entries);
                entries.push((key, arc));
                proof {
                    assert forall|a: int, b: int| 0 <= a < b < entries@.len() implies entries@[a].0@ != entries@[b].0@ by {
                        if b == old_entries.len() {
                            assert(old_keys[a] == old_entries[a].0@);
                            assert(old_keys[a] != kv);
                        } else {
                            assert(old_entries[a].0@ != old_entries[b].0@);
                        }
                    }
                }
                self.entries = entries;
                proof {
                    assert(self.keys() =~= old_keys.push(kv));
                    assert(self.groups() =~= old_groups.push(bg));
                    assert(self.keys().no_duplicates()) by {
                        assert forall|a: int, b: int| 0 <= a < b < self.keys().len() implies self.keys()[a] != self.keys()[b] by {
                            if b == old_keys.len() {
                                assert(old_keys[a] != kv);
                            } else {
                                assert(old_keys[a] != old_keys[b]);
                            }
                        }
                    }
                    assert(self.keys()[old_keys.len() as int] == kv);
                    assert(self.keys().contains(kv));
                    assert(self.keys().index_of(kv) == old_keys.len() as int) by {
                        let j = self.keys().index_of(kv);
                        if j != old_keys.len() as int {
                            assert(old_keys[j] == kv);
                        }
                    }
                    assert forall|k: Seq<BindingKey>| k != kv implies self.lookup(k) == old(self).lookup(k) by {
                        if old_keys.contains(k) {
                            let j = old_keys.index_of(k);
                            assert(self.keys()[j] == k);
                            assert(self.keys().contains(k));
                            let j2 = self.keys().index_of(k);
                            assert(j2 == j);
                        }
                        if self.keys().contains(k) {
                            let j2 = self.keys().index_of(k);
                            assert(j2 < old_keys.len());
                            assert(old_keys[j2] == k);
                        }
                    }
                }
                r
            },
        }
    }

    /// Returns the number of cached bind groups.
    pub fn len(&self) -> (r: usize)
        ensures
            r == self.keys().len(),
    {
        self.entries.len()
    }

    /// Returns true if the cache is empty.
    pub fn is_empty(&self) -> (r: bool)
        ensures
            r == (self.keys().len() == 0),
    {
        self.entries.len() == 0
    }

    /// Snapshots and resets the hit/miss counters, as `(hits, misses)`.
    pub fn metrics_snapshot_and_reset(&mut self) -> (r: (u64, u64))
        ensures
            r == (old(self).metrics_view().hits(), old(self).metrics_view().misses()),
            final(self).metrics_view().hits() == 0,
            final(self).metrics_view().misses() == 0,
            final(self).keys() == old(self).keys(),
            final(self).groups() == old(self).groups(),
    {
        proof {
            use_type_invariant(&*self);
        }
        let mut metrics = BindGroupMetrics::default();
        std::mem::swap(&mut metrics, &mut self.metrics);
        let r = metrics.snapshot_and_reset();
        self.metrics = metrics;
        r
    }

    /// The index of the entry for `key`, if any.
    fn position(&self, key: &BindGroupCacheKey) -> (r: Option<usize>)
        ensures
            match r {
                Some(i) => i < self.keys().len() && self.keys().contains(key@)
                    && self.keys().index_of(key@) == i as int,
                None => !self.keys().contains(key@),
            },
    {
        proof {
            use_type_invariant(self);
            self.lemma_wf();
        }
        let mut i: usize = 0;
        while i < self.entries.len()
            invariant
                0 <= i <= self.entries@.len(),
                self.wf(),
                forall|k: int| 0 <= k < i ==> self.keys()[k] != key@,
            decreases self.entries@.len() - i,
        {
            if self.entries[i].0.same_as(key) {
                proof {
                    assert(self.keys()[i as int] == key@);
                    assert(self.keys().contains(key@));
                }
                return Some(i);
            }
            i = i + 1;
        }
        proof {
            if self.keys().contains(key@) {
                let k = choose|k: int| 0 <= k < self.keys().len() && self.keys()[k] == key@;
                assert(self.keys()[k] != key@);
            }
        }
        None
    }
}

impl Default for BindGroupCache {
    /// An empty cache with zeroed counters.
    fn default() -> (r: Self)
        ensures
            r.wf(),
            r.keys().len() == 0,
            r.metrics_view().hits() == 0,
            r.metrics_view().misses() == 0,
    {
        let r = BindGroupCache { entries: Vec::new(), metrics: BindGroupMetrics::default() };
        assert(r.keys() =~= Seq::empty());
        r
    }
}

/// Law: a lookup right after an insert finds the group that `insert`
/// returned, and inserting a key that is already cached changes nothing.
pub proof fn lemma_lookup_after_insert(old_cache: &BindGroupCache, new_cache: &BindGroupCache, key: Seq<BindingKey>, bg: BindGroup, r: BindGroup)
    requires
        BindGroupCache::inserted(old_cache, new_cache, key, bg, r),
    ensures
        new_cache.lookup(key) == Some(r),
        old_cache.lookup(key) is Some ==> forall|k: Seq<BindingKey>| new_cache.lookup(k) == old_cache.lookup(k),
{
}

} // verus!
