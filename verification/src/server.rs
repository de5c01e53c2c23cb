//! Decisions of the wgpu graphics server: adapter selection tiers, surface
//! settings, the back buffer's depth-stencil cache, fill-mode changes and
//! mipmap generation. The server object itself (window, surface, device) is
//! built and driven by the application, which performs what these functions
//! decide.
use vstd::prelude::*;

verus! {

/// Controls which GPU is preferred when selecting a WGPU adapter.
#[derive(Debug, Clone, Copy, PartialEq, Eq, Default, Structural)]
pub enum AdapterPreference {
    /// Automatically select a suitable adapter. Prefers high-performance GPUs.
    #[default]
    Auto,
    /// Prefer the most powerful available GPU (discrete GPU if present).
    PreferHighPerformance,
    /// Prefer the least powerful GPU (integrated GPU) to conserve power.
    PreferLowPower,
}

/// Power preference of an adapter request (wgpu's `PowerPreference`).
#[derive(Debug, Clone, Copy, PartialEq, Eq, Structural)]
pub enum PowerPreference {
    /// Power usage is not considered when choosing an adapter
    /// (wgpu's `PowerPreference::None`).
    NoPreference,
    /// Adapter that uses the least possible power. This is often an integrated GPU.
    LowPower,
    /// Adapter that has the highest performance. This is often a discrete GPU.
    HighPerformance,
}

/// `Auto` and `PreferHighPerformance` ask for high performance,
/// `PreferLowPower` for low power.
pub open spec fn spec_power_preference(pref: AdapterPreference) -> PowerPreference {
    match pref {
        AdapterPreference::PreferLowPower => PowerPreference::LowPower,
        _ => PowerPreference::HighPerformance,
    }
}

/// Maps an adapter preference to the power preference requested from wgpu.
pub fn power_preference(pref: AdapterPreference) -> (r: PowerPreference)
    ensures
        r == spec_power_preference(pref),
{
    match pref {
        AdapterPreference::Auto | AdapterPreference::PreferHighPerformance => PowerPreference::HighPerformance,
        AdapterPreference::PreferLowPower => PowerPreference::LowPower,
    }
}

/// One adapter request: the options handed to `Instance::request_adapter`
/// (the compatible surface is always the server's surface).
#[derive(Debug, Clone, Copy, PartialEq, Eq, Structural)]
pub struct AdapterRequest {
    pub power_preference: PowerPreference,
    pub force_fallback_adapter: bool,
}

/// The fallback tiers, tried in order until one yields an adapter:
/// the preferred adapter; then, if high performance was explicitly
/// preferred, a low-power adapter; last, the fallback (software) adapter
/// with the preferred power setting.
pub open spec fn spec_adapter_requests(pref: AdapterPreference) -> Seq<AdapterRequest> {
    let first = AdapterRequest { power_preference: spec_power_preference(pref), force_fallback_adapter: false };
    let last = AdapterRequest { power_preference: spec_power_preference(pref), force_fallback_adapter: true };
    if pref == AdapterPreference::PreferHighPerformance {
        seq![first, AdapterRequest { power_preference: PowerPreference::LowPower, force_fallback_adapter: false }, last]
    } else {
        seq![first, last]
    }
}

/// Returns the adapter requests to try, in order; the first that yields an
/// adapter wins, and no adapter is found if all of them fail.
pub fn adapter_requests(pref: AdapterPreference) -> (r: Vec<AdapterRequest>)
    ensures
        r@ == spec_adapter_requests(pref),
{
    let power = power_preference(pref);
    let mut r: Vec<AdapterRequest> = Vec::new();
    r.push(AdapterRequest { power_preference: power, force_fallback_adapter: false });
    if pref == AdapterPreference::PreferHighPerformance {
        r.push(AdapterRequest { power_preference: PowerPreference::LowPower, force_fallback_adapter: false });
    }
    r.push(AdapterRequest { power_preference: power, force_fallback_adapter: true });
    r
}

/// Law: the last tier always forces the fallback adapter, and every earlier
/// tier does not.
pub proof fn lemma_fallback_is_last(pref: AdapterPreference)
    ensures
        spec_adapter_requests(pref).last().force_fallback_adapter,
        forall|i: int| 0 <= i < spec_adapter_requests(pref).len() - 1
            ==> !(#[trigger] spec_adapter_requests(pref)[i]).force_fallback_adapter,
{
}

/// What the adapter search does next.
#[derive(Debug, Clone, Copy, PartialEq, Eq, Structural)]
pub enum AdapterStep {
    /// Ask for an adapter with these options.
    Request(AdapterRequest),
    /// The last request yielded an adapter: the search ends with it.
    Found,
    /// Every tier failed: no adapter is found.
    Exhausted,
}

/// The search step after `tried` requests, the last of which yielded an
/// adapter when `found`: stop at the first success, else try the next tier.
pub open spec fn spec_adapter_step(pref: AdapterPreference, tried: int, found: bool) -> AdapterStep {
    if found {
        AdapterStep::Found
    } else if 0 <= tried < spec_adapter_requests(pref).len() {
        AdapterStep::Request(spec_adapter_requests(pref)[tried])
    } else {
        AdapterStep::Exhausted
    }
}

/// Decides the next step of the adapter search (see `spec_adapter_step`).
pub fn adapter_step(pref: AdapterPreference, tried: usize, found: bool) -> (r: AdapterStep)
    ensures
        r == spec_adapter_step(pref, tried as int, found),
{
    if found {
        return AdapterStep::Found;
    }
    let requests = adapter_requests(pref);
    if tried < requests.len() {
        AdapterStep::Request(requests[tried])
    } else {
        AdapterStep::Exhausted
    }
}

/// Law: a search whose requests all fail asks every tier once, in order,
/// and then ends without an adapter.
pub proof fn lemma_failed_search_tries_every_tier(pref: AdapterPreference)
    ensures
        forall|i: int| 0 <= i < spec_adapter_requests(pref).len()
            ==> #[trigger] spec_adapter_step(pref, i, false) == AdapterStep::Request(spec_adapter_requests(pref)[i]),
        spec_adapter_step(pref, spec_adapter_requests(pref).len() as int, false) == AdapterStep::Exhausted,
{
}

/// The debug group a server is in: a name while one is open, none otherwise.
/// Pushing a group replaces the name; popping clears it.
pub struct DebugGroupLabel {
    current: Option<String>,
}

impl DebugGroupLabel {
    /// The name of the open group, if any.
    pub closed spec fn label(&self) -> Option<Seq<char>> {
        match self.current {
            Some(s) => Some(s@),
            None => None,
        }
    }

    /// No group is open.
    pub fn new() -> (r: DebugGroupLabel)
        ensures
            r.label() is None,
    {
        DebugGroupLabel { current: None }
    }

    /// Opens the group `name`.
    pub fn push_debug_group(&mut self, name: &str)
        ensures
            final(self).label() == Some(name@),
    {
        self.current = Some(name.to_owned());
    }

    /// Closes the open group, if any.
    pub fn pop_debug_group(&mut self)
        ensures
            final(self).label() is None,
    {
        self.current = None;
    }

    /// The name of the open group, if any.
    pub fn current_debug_group_label(&self) -> (r: Option<String>)
        ensures
            match r {
                Some(s) => self.label() == Some(s@),
                None => self.label() is None,
            },
    {
        match &self.current {
            Some(s) => Some(s.clone()),
            None => None,
        }
    }
}

/// Presentation mode of the surface (the two automatic modes of wgpu's
/// `PresentMode`).
#[derive(Debug, Clone, Copy, PartialEq, Eq, Structural)]
pub enum PresentMode {
    /// Vsync on; chooses `FifoRelaxed` or `Fifo`.
    AutoVsync,
    /// Vsync off; chooses `Immediate`, `Mailbox` or `Fifo`.
    AutoNoVsync,
}

/// The present mode for a vsync setting.
pub fn present_mode(vsync: bool) -> (r: PresentMode)
    ensures
        r == (if vsync { PresentMode::AutoVsync } else { PresentMode::AutoNoVsync }),
{
    if vsync { PresentMode::AutoVsync } else { PresentMode::AutoNoVsync }
}

/// The MSAA sample count: the requested count, at least 1, 1 if none was requested.
pub fn msaa_sample_count(requested: Option<u8>) -> (r: u32)
    ensures
        r == match requested {
            Some(n) => if n >= 1 { n as u32 } else { 1u32 },
            None => 1u32,
        },
        r >= 1,
{
    let n: u8 = match requested {
        Some(n) => n,
        None => 1,
    };
    let n: u8 = if n >= 1 { n } else { 1 };
    n as u32
}

/// What to do with the back buffer's cached depth-stencil texture.
#[derive(Debug, Clone, Copy, PartialEq, Eq, Structural)]
pub enum DepthStencilAction {
    /// The cached texture matches the surface size; keep it.
    Keep,
    /// Create a new texture of the surface size and cache it.
    Recreate,
    /// The surface has a zero dimension; drop the cache.
    Drop,
}

/// Decides the back buffer's depth-stencil action from the size of the cached
/// texture (if any) and the surface size: keep it if the sizes match,
/// else recreate it if both dimensions are nonzero, else drop it.
pub fn depth_stencil_action(cached: Option<(u32, u32)>, width: u32, height: u32) -> (r: DepthStencilAction)
    ensures
        r == if cached == Some((width, height)) {
            DepthStencilAction::Keep
        } else if width > 0 && height > 0 {
            DepthStencilAction::Recreate
        } else {
            DepthStencilAction::Drop
        },
{
    let needs_recreate = match cached {
        Some((cw, ch)) => cw != width || ch != height,
        None => true,
    };
    if needs_recreate {
        if width > 0 && height > 0 {
            DepthStencilAction::Recreate
        } else {
            DepthStencilAction::Drop
        }
    } else {
        DepthStencilAction::Keep
    }
}

/// Polygon rasterization mode (Fyrox's `PolygonFillMode`).
#[derive(Debug, Clone, Copy, PartialEq, Eq, Hash, Structural)]
pub enum PolygonFillMode {
    /// Only vertices of polygons are rendered.
    Point,
    /// Only edges of polygons are rendered.
    Line,
    /// The whole polygon surface is rendered.
    Fill,
}

/// Decides a fill-mode change: returns the mode to keep and whether the
/// pipeline cache must be cleared (exactly when the mode changes).
pub fn fill_mode_change(current: PolygonFillMode, requested: PolygonFillMode) -> (r: (PolygonFillMode, bool))
    ensures
        r == (requested, current != requested),
{
    if current != requested {
        (requested, true)
    } else {
        (current, false)
    }
}

/// A resize is applied only when both dimensions are nonzero; when the
/// surface format then differs from before, the pipeline cache is cleared.
pub fn frame_resize_plan(width: u32, height: u32, format_changed: bool) -> (r: (bool, bool))
    ensures
        r == (width > 0 && height > 0, width > 0 && height > 0 && format_changed),
{
    let apply = width > 0 && height > 0;
    (apply, apply && format_changed)
}

/// The blits that generate a mip chain: level `l - 1` into level `l` for
/// every level `l` from 1 to `mip_level_count - 1`, in order.
pub open spec fn spec_mip_blits(mip_level_count: u32) -> Seq<(u32, u32)> {
    Seq::new(
        if mip_level_count <= 1 { 0nat } else { (mip_level_count - 1) as nat },
        |i: int| (i as u32, (i + 1) as u32),
    )
}

/// Decides which blits `generate_mipmap` submits for a texture: none unless
/// the texture is a 2D rectangle with more than one mip level.
pub fn mipmap_blits(is_rectangle: bool, mip_level_count: u32) -> (r: Vec<(u32, u32)>)
    ensures
        r@ == if is_rectangle { spec_mip_blits(mip_level_count) } else { Seq::empty() },
{
    let mut r: Vec<(u32, u32)> = Vec::new();
    if !is_rectangle || mip_level_count <= 1 {
        assert(r@ =~= if is_rectangle { spec_mip_blits(mip_level_count) } else { Seq::empty() });
        return r;
    }
    let mut level: u32 = 1;
    while level < mip_level_count
        invariant
            1 <= level <= mip_level_count,
            r@ =~= spec_mip_blits(mip_level_count).take(level - 1),
        decreases mip_level_count - level,
    {
        r.push((level - 1, level));
        level = level + 1;
    }
    r
}

} // verus!
