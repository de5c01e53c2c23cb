use fyrox_graphics_wgpu::server::{
    adapter_requests, adapter_step, depth_stencil_action, fill_mode_change, frame_resize_plan, mipmap_blits, msaa_sample_count,
    power_preference, present_mode, AdapterPreference, AdapterRequest, AdapterStep, DebugGroupLabel, DepthStencilAction, PolygonFillMode,
    PowerPreference, PresentMode,
};

#[test]
fn auto_maps_to_high_performance() {
    assert_eq!(
        power_preference(AdapterPreference::Auto),
        PowerPreference::HighPerformance
    );
}

#[test]
fn prefer_high_performance_maps_to_high_performance() {
    assert_eq!(
        power_preference(AdapterPreference::PreferHighPerformance),
        PowerPreference::HighPerformance
    );
}

#[test]
fn prefer_low_power_maps_to_low_power() {
    assert_eq!(
        power_preference(AdapterPreference::PreferLowPower),
        PowerPreference::LowPower
    );
}

#[test]
fn default_adapter_preference_is_auto() {
    assert_eq!(AdapterPreference::default(), AdapterPreference::Auto);
}

#[test]
fn adapter_tiers_for_high_performance() {
    assert_eq!(
        adapter_requests(AdapterPreference::PreferHighPerformance),
        vec![
            AdapterRequest { power_preference: PowerPreference::HighPerformance, force_fallback_adapter: false },
            AdapterRequest { power_preference: PowerPreference::LowPower, force_fallback_adapter: false },
            AdapterRequest { power_preference: PowerPreference::HighPerformance, force_fallback_adapter: true },
        ]
    );
}

#[test]
fn adapter_tiers_for_auto_and_low_power() {
    assert_eq!(
        adapter_requests(AdapterPreference::Auto),
        vec![
            AdapterRequest { power_preference: PowerPreference::HighPerformance, force_fallback_adapter: false },
            AdapterRequest { power_preference: PowerPreference::HighPerformance, force_fallback_adapter: true },
        ]
    );
    assert_eq!(
        adapter_requests(AdapterPreference::PreferLowPower),
        vec![
            AdapterRequest { power_preference: PowerPreference::LowPower, force_fallback_adapter: false },
            AdapterRequest { power_preference: PowerPreference::LowPower, force_fallback_adapter: true },
        ]
    );
}

#[test]
fn present_mode_follows_vsync() {
    assert_eq!(present_mode(true), PresentMode::AutoVsync);
    assert_eq!(present_mode(false), PresentMode::AutoNoVsync);
}

#[test]
fn msaa_count_is_at_least_one() {
    assert_eq!(msaa_sample_count(None), 1);
    assert_eq!(msaa_sample_count(Some(0)), 1);
    assert_eq!(msaa_sample_count(Some(4)), 4);
}

#[test]
fn depth_stencil_cache_decisions() {
    assert_eq!(depth_stencil_action(Some((800, 600)), 800, 600), DepthStencilAction::Keep);
    assert_eq!(depth_stencil_action(Some((800, 600)), 1024, 768), DepthStencilAction::Recreate);
    assert_eq!(depth_stencil_action(None, 1024, 768), DepthStencilAction::Recreate);
    assert_eq!(depth_stencil_action(Some((800, 600)), 0, 768), DepthStencilAction::Drop);
    assert_eq!(depth_stencil_action(None, 0, 0), DepthStencilAction::Drop);
}

#[test]
fn fill_mode_change_clears_cache_only_on_change() {
    assert_eq!(fill_mode_change(PolygonFillMode::Fill, PolygonFillMode::Line), (PolygonFillMode::Line, true));
    assert_eq!(fill_mode_change(PolygonFillMode::Fill, PolygonFillMode::Fill), (PolygonFillMode::Fill, false));
}

#[test]
fn resize_needs_nonzero_dimensions() {
    assert_eq!(frame_resize_plan(800, 600, false), (true, false));
    assert_eq!(frame_resize_plan(800, 600, true), (true, true));
    assert_eq!(frame_resize_plan(0, 600, true), (false, false));
    assert_eq!(frame_resize_plan(800, 0, false), (false, false));
}

#[test]
fn mipmap_blits_chain_levels() {
    assert_eq!(mipmap_blits(true, 4), vec![(0, 1), (1, 2), (2, 3)]);
    assert_eq!(mipmap_blits(true, 1), vec![]);
    assert_eq!(mipmap_blits(true, 0), vec![]);
    assert_eq!(mipmap_blits(false, 4), vec![]);
}

#[test]
fn adapter_search_stops_at_first_success() {
    let pref = AdapterPreference::PreferHighPerformance;
    let first = AdapterRequest { power_preference: PowerPreference::HighPerformance, force_fallback_adapter: false };
    let second = AdapterRequest { power_preference: PowerPreference::LowPower, force_fallback_adapter: false };
    let last = AdapterRequest { power_preference: PowerPreference::HighPerformance, force_fallback_adapter: true };
    assert_eq!(adapter_step(pref, 0, false), AdapterStep::Request(first));
    assert_eq!(adapter_step(pref, 1, false), AdapterStep::Request(second));
    assert_eq!(adapter_step(pref, 2, false), AdapterStep::Request(last));
    assert_eq!(adapter_step(pref, 3, false), AdapterStep::Exhausted);
    assert_eq!(adapter_step(pref, 1, true), AdapterStep::Found);
    assert_eq!(adapter_step(AdapterPreference::Auto, 2, false), AdapterStep::Exhausted);
}

#[test]
fn debug_group_push_and_pop() {
    let mut label = DebugGroupLabel::new();
    assert_eq!(label.current_debug_group_label(), None);
    label.push_debug_group("Shadows");
    assert_eq!(label.current_debug_group_label(), Some("Shadows".to_string()));
    label.push_debug_group("GBuffer");
    assert_eq!(label.current_debug_group_label(), Some("GBuffer".to_string()));
    label.pop_debug_group();
    assert_eq!(label.current_debug_group_label(), None);
}
