//! Cache of the render pipelines of draw calls, by pipeline key.
use crate::framebuffer::{
    depth_state, spec_cull_code, CullFace, spec_depth_state, BlendParameters, DepthState, PipelineKey, PrimitiveTopology,
};
use crate::pipeline::Face;
use crate::server::PolygonFillMode;
use crate::gpu::arc_clone;
use std::sync::Arc;
use vstd::prelude::*;
use wgpu::{RenderPipeline, TextureFormat};

verus! {

/// Calls `PartialEq::eq` on two texture formats. `TextureFormat` derives
/// `PartialEq` over its variants and their plain fields, so two formats are
/// equal exactly when they are the same value.
#[verifier::external_body]
fn formats_equal(a: TextureFormat, b: TextureFormat) -> (r: bool)
    ensures
        r == (a == b),
{
    a == b
}

fn option_formats_equal(a: Option<TextureFormat>, b: Option<TextureFormat>) -> (r: bool)
    ensures
        r == (a == b),
{
    match (a, b) {
        (Some(x), Some(y)) => formats_equal(x, y),
        (None, None) => true,
        _ => false,
    }
}

fn blends_equal(a: Option<BlendParameters>, b: Option<BlendParameters>) -> (r: bool)
    ensures
        r == (a == b),
{
    match (a, b) {
        (Some(x), Some(y)) => x == y,
        (None, None) => true,
        _ => false,
    }
}

/// Whether two pipeline keys are equal, field by field.
pub fn keys_equal(a: &PipelineKey, b: &PipelineKey) -> (r: bool)
    ensures
        r == (*a == *b),
{
    let same_depth_test = match (a.depth_test, b.depth_test) {
        (Some(x), Some(y)) => x == y,
        (None, None) => true,
        _ => false,
    };
    a.program_ptr == b.program_ptr && formats_equal(a.color_format, b.color_format)
        && option_formats_equal(a.depth_format, b.depth_format) && a.sample_count == b.sample_count
        && blends_equal(a.blend, b.blend) && same_depth_test && a.depth_write == b.depth_write
        && a.cull == b.cull && a.fill_mode == b.fill_mode && a.topology == b.topology
}

/// Winding of a front-facing triangle (wgpu's `FrontFace`).
#[derive(Debug, Clone, Copy, PartialEq, Eq, Structural)]
pub enum FrontFace {
    /// Counter-clockwise.
    Ccw,
    /// Clockwise.
    Cw,
}

/// The fixed-function state a draw's render pipeline is created with. The
/// shader modules, the layout and the attachment formats come from the key's
/// program and formats.
#[derive(Debug, Clone, Copy, PartialEq, Eq, Structural)]
pub struct DrawPipelinePlan {
    /// Blend equation and factors of the color target.
    pub blend: Option<BlendParameters>,
    /// Whether all color channels are written.
    pub write_all_colors: bool,
    /// Winding of front faces.
    pub front_face: FrontFace,
    /// The face culled, if any.
    pub cull: Option<Face>,
    /// How polygons are rasterized.
    pub fill_mode: PolygonFillMode,
    /// The primitive topology.
    pub topology: PrimitiveTopology,
    /// The depth-stencil state, if any.
    pub depth: Option<DepthState>,
    /// Samples per pixel.
    pub sample_count: u32,
}

/// The face culled for a key's cull code: 2 back, 1 front, otherwise none.
pub open spec fn cull_of_code(code: u8) -> Option<Face> {
    if code == 2 { Some(Face::Back) } else if code == 1 { Some(Face::Front) } else { None }
}

/// The state of the pipeline for `key`: the key's blend, fill mode, topology
/// and sample count, its culled face, the depth state of its depth test and
/// write flag on its depth format, all color channels written and
/// counter-clockwise front faces. It depends on the key alone.
pub open spec fn spec_draw_pipeline_plan(key: PipelineKey) -> DrawPipelinePlan {
    DrawPipelinePlan {
        blend: key.blend,
        write_all_colors: true,
        front_face: FrontFace::Ccw,
        cull: cull_of_code(key.cull),
        fill_mode: key.fill_mode,
        topology: key.topology,
        depth: spec_depth_state(key.depth_test, key.depth_write, key.depth_format is Some),
        sample_count: key.sample_count,
    }
}

/// Law: the face a key culls is the face of the cull setting the key was
/// built with.
pub proof fn lemma_cull_code_round_trip(c: Option<CullFace>)
    ensures
        cull_of_code(spec_cull_code(c)) == match c {
            Some(CullFace::Back) => Some(Face::Back),
            Some(CullFace::Front) => Some(Face::Front),
            None => None::<Face>,
        },
{
}

/// Decides the state of the pipeline for `key`.
pub fn draw_pipeline_plan(key: &PipelineKey) -> (r: DrawPipelinePlan)
    ensures
        r == spec_draw_pipeline_plan(*key),
{
    let cull = if key.cull == 2 {
        Some(Face::Back)
    } else if key.cull == 1 {
        Some(Face::Front)
    } else {
        None
    };
    DrawPipelinePlan {
        blend: key.blend,
        write_all_colors: true,
        front_face: FrontFace::Ccw,
        cull,
        fill_mode: key.fill_mode,
        topology: key.topology,
        depth: depth_state(key.depth_test, key.depth_write, key.depth_format.is_some()),
        sample_count: key.sample_count,
    }
}

/// The render pipelines created for draw calls, by key; a key is cached once.
pub struct PipelineCache {
    entries: Vec<(PipelineKey, Arc<RenderPipeline>)>,
}

impl PipelineCache {
    /// No key is cached twice.
    #[verifier::type_invariant]
    spec fn distinct_keys(self) -> bool {
        forall|a: int, b: int| 0 <= a < b < self.entries@.len() ==> self.entries@[a].0 != self.entries@[b].0
    }

    /// The cached keys, in insertion order.
    pub closed spec fn keys(&self) -> Seq<PipelineKey> {
        Seq::new(self.entries@.len(), |i: int| self.entries@[i].0)
    }

    /// The cached pipelines, in insertion order (parallel to `keys`).
    pub closed spec fn pipelines(&self) -> Seq<RenderPipeline> {
        Seq::new(self.entries@.len(), |i: int| *self.entries@[i].1)
    }

    /// The pipeline cached for `key`, if any.
    pub open spec fn lookup(&self, key: PipelineKey) -> Option<RenderPipeline> {
        if self.keys().contains(key) {
            Some(self.pipelines()[self.keys().index_of(key)])
        } else {
            None
        }
    }

    proof fn lemma_keys_distinct(&self)
        requires
            self.distinct_keys(),
        ensures
            self.keys().no_duplicates(),
    {
        assert forall|a: int, b: int| 0 <= a < self.keys().len() && 0 <= b < self.keys().len() && a != b
            implies self.keys()[a] != self.keys()[b] by {
            if a > b {
                assert(self.entries@[b].0 != self.entries@[a].0);
            }
        }
    }

    /// The index of the entry for `key`, if any.
    fn position(&self, key: &PipelineKey) -> (r: Option<usize>)
        ensures
            match r {
                Some(i) => i < self.keys().len() && self.keys().contains(*key) && self.keys().index_of(*key) == i as int,
                None => !self.keys().contains(*key),
            },
    {
        proof {
            use_type_invariant(self);
            self.lemma_keys_distinct();
        }
        let mut i: usize = 0;
        while i < self.entries.len()
            invariant
                0 <= i <= self.entries@.len(),
                self.keys().no_duplicates(),
                forall|k: int| 0 <= k < i ==> self.keys()[k] != *key,
            decreases self.entries@.len() - i,
        {
            if keys_equal(&self.entries[i].0, key) {
                proof {
                    assert(self.keys()[i as int] == *key);
                    assert(self.keys().contains(*key));
                }
                return Some(i);
            }
            i = i + 1;
        }
        proof {
            if self.keys().contains(*key) {
                let k = choose|k: int| 0 <= k < self.keys().len() && self.keys()[k] == *key;
                assert(self.keys()[k] != *key);
            }
        }
        None
    }

    /// The pipeline cached for `key`, if any.
    pub fn get(&self, key: &PipelineKey) -> (r: Option<Arc<RenderPipeline>>)
        ensures
            match r {
                Some(p) => self.lookup(*key) == Some(*p),
                None => self.lookup(*key) is None,
            },
    {
        match self.position(key) {
            Some(i) => Some(arc_clone(&self.entries[i].1)),
            None => None,
        }
    }

    /// Caches `p` for `key` and returns the cached pipeline; if `key` is
    /// cached already, the cached pipeline stays and is returned.
    pub fn insert(&mut self, key: PipelineKey, p: RenderPipeline) -> (r: Arc<RenderPipeline>)
        ensures
            final(self).lookup(key) == Some(*r),
            old(self).lookup(key) matches Some(q) ==> *r == q && final(self).keys() == old(self).keys()
                && final(self).pipelines() == old(self).pipelines(),
            old(self).lookup(key) is None ==> *r == p && final(self).keys() == old(self).keys().push(key)
                && final(self).pipelines() == old(self).pipelines().push(p),
    {
        proof {
            use_type_invariant(&*self);
            self.lemma_keys_distinct();
        }
        match self.position(&key) {
            Some(i) => arc_clone(&self.entries[i].1),
            None => {
                let ghost old_keys = self.keys();
                let ghost old_pipelines = self.pipelines();
                let ghost old_entries = self.entries@;
                assert(forall|a: int, b: int| 0 <= a < b < old_entries.len() ==> old_entries[a].0 != old_entries[b].0);
                let arc = Arc::new(p);
                let r = arc_clone(&arc);
                let mut entries: Vec<(PipelineKey, Arc<RenderPipeline>)> = Vec::new();
                std::mem::swap(&mut entries, &mut self.entries);
                entries.push((key, arc));
                proof {
                    assert forall|a: int, b: int| 0 <= a < b < entries@.len() implies entries@[a].0 != entries@[b].0 by {
                        if b == old_entries.len() {
                            assert(old_keys[a] == old_entries[a].0);
                            assert(!old_keys.contains(key));
                        } else {
                            assert(old_entries[a].0 != old_entries[b].0);
                        }
                    }
                }
                self.entries = entries;
                proof {
                    assert(self.keys() =~= old_keys.push(key));
                    assert(self.pipelines() =~= old_pipelines.push(p));
                    assert(self.keys()[old_keys.len() as int] == key);
                    assert(self.keys().contains(key));
                    use_type_invariant(&*self);
                    self.lemma_keys_distinct();
                    assert(self.keys().index_of(key) == old_keys.len() as int) by {
                        let j = self.keys().index_of(key);
                        if j != old_keys.len() as int {
                            assert(old_keys[j] == key);
                        }
                    }
                }
                r
            },
        }
    }

    /// Drops every cached pipeline (when the surface format changes).
    pub fn clear(&mut self)
        ensures
            final(self).keys().len() == 0,
    {
        self.entries = Vec::new();
        assert(self.keys() =~= Seq::<PipelineKey>::empty());
    }

    /// The number of cached pipelines.
    pub fn len(&self) -> (r: usize)
        ensures
            r == self.keys().len(),
    {
        self.entries.len()
    }

    /// Whether nothing is cached.
    pub fn is_empty(&self) -> (r: bool)
        ensures
            r == (self.keys().len() == 0),
    {
        self.entries.len() == 0
    }
}

impl Default for PipelineCache {
    /// An empty cache.
    fn default() -> (r: Self)
        ensures
            r.keys().len() == 0,
    {
        let r = PipelineCache { entries: Vec::new() };
        assert(r.keys() =~= Seq::<PipelineKey>::empty());
        r
    }
}

} // verus!
