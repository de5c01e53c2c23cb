use fyrox_graphics_wgpu::color_space::{preferred_format_index, surface_format_for};
use wgpu::TextureFormat;

#[test]
fn prefers_linear_over_srgb() {
    let caps = vec![
        TextureFormat::Rgba8UnormSrgb,
        TextureFormat::Rgba8Unorm,
        TextureFormat::Bgra8Unorm,
    ];
    assert_eq!(surface_format_for(&caps), Some(TextureFormat::Rgba8Unorm));
}

#[test]
fn falls_back_to_first_when_no_linear() {
    let caps = vec![TextureFormat::Rgba8UnormSrgb, TextureFormat::Bgra8UnormSrgb];
    // When no linear format is available, fall back to the first listed.
    // The fallback is suboptimal but not fatal.
    assert_eq!(
        surface_format_for(&caps),
        Some(TextureFormat::Rgba8UnormSrgb)
    );
}

#[test]
fn empty_returns_none() {
    let caps: Vec<TextureFormat> = vec![];
    assert_eq!(surface_format_for(&caps), None);
}

#[test]
fn single_linear_format_returned() {
    let caps = vec![TextureFormat::Rgba8Unorm];
    assert_eq!(surface_format_for(&caps), Some(TextureFormat::Rgba8Unorm));
}

#[test]
fn bgra_linear_preferred_over_rgba_srgb() {
    let caps = vec![TextureFormat::Rgba8UnormSrgb, TextureFormat::Bgra8Unorm];
    // Bgra8Unorm is linear and should be selected.
    assert_eq!(surface_format_for(&caps), Some(TextureFormat::Bgra8Unorm));
}

#[test]
fn srgb_first_is_not_chosen_when_linear_later() {
    // The first entry is sRGB: a pass-through of the first element would fail here.
    let caps = vec![TextureFormat::Bgra8UnormSrgb, TextureFormat::Rgba8UnormSrgb, TextureFormat::Rgba16Float];
    assert_eq!(surface_format_for(&caps), Some(TextureFormat::Rgba16Float));
}

#[test]
fn preferred_index_picks_first_linear_flag() {
    assert_eq!(preferred_format_index(&[true, false, false]), Some(1));
    assert_eq!(preferred_format_index(&[true, true]), Some(0));
    assert_eq!(preferred_format_index(&[false]), Some(0));
    assert_eq!(preferred_format_index(&[]), None);
}
