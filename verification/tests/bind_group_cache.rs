use fyrox_graphics_wgpu::bind_group_cache::{BindGroupCache, BindGroupCacheKey, BufferDataUsage, ResourceBinding};
use std::hash::Hash;
use std::sync::Arc;

fn empty_bind_group(device: &wgpu::Device) -> wgpu::BindGroup {
    let layout = device.create_bind_group_layout(&wgpu::BindGroupLayoutDescriptor { label: None, entries: &[] });
    device.create_bind_group(&wgpu::BindGroupDescriptor { label: None, layout: &layout, entries: &[] })
}

#[test]
fn cache_key_equality() {
    // Two empty keys should be equal
    let k1 = BindGroupCacheKey::new(&[]);
    let k2 = BindGroupCacheKey::new(&[]);
    assert_eq!(k1, k2);
    assert_eq!(k1.hash(&mut std::collections::hash_map::DefaultHasher::new()),
               k2.hash(&mut std::collections::hash_map::DefaultHasher::new()));
}

#[test]
fn keys_distinguish_bindings_and_segments() {
    let tex = ResourceBinding::Texture { texture_ptr: 1, sampler_ptr: 2, binding: 0 };
    let whole = ResourceBinding::Buffer { buffer_ptr: 3, binding: 1, data_usage: BufferDataUsage::UseEverything };
    let seg = ResourceBinding::Buffer {
        buffer_ptr: 3,
        binding: 1,
        data_usage: BufferDataUsage::UseSegment { offset: 0, size: 64 },
    };
    let a = BindGroupCacheKey::new(&[&tex, &whole]);
    let b = BindGroupCacheKey::new(&[&tex, &whole]);
    let c = BindGroupCacheKey::new(&[&tex, &seg]);
    let d = BindGroupCacheKey::new(&[&whole, &tex]);
    assert!(a.same_as(&b));
    assert_eq!(a, b);
    assert!(!a.same_as(&c));
    assert!(!a.same_as(&d));
    assert!(!a.same_as(&BindGroupCacheKey::new(&[&tex])));
}

#[test]
fn cache_miss_then_hit() {
    let (device, _queue) = wgpu::Device::noop(&wgpu::DeviceDescriptor::default());
    let tex = ResourceBinding::Texture { texture_ptr: 10, sampler_ptr: 20, binding: 0 };
    let key = BindGroupCacheKey::new(&[&tex]);
    let mut cache = BindGroupCache::default();
    assert!(cache.is_empty());
    assert!(cache.get(&key).is_none());
    let inserted = cache.insert(BindGroupCacheKey::new(&[&tex]), empty_bind_group(&device));
    assert_eq!(cache.len(), 1);
    let found = cache.get(&key).unwrap();
    assert!(Arc::ptr_eq(&found, &inserted));
    assert_eq!(cache.metrics_snapshot_and_reset(), (1, 1));
    assert_eq!(cache.metrics_snapshot_and_reset(), (0, 0));
}

#[test]
fn inserting_a_cached_key_keeps_the_first_group() {
    let (device, _queue) = wgpu::Device::noop(&wgpu::DeviceDescriptor::default());
    let buf = ResourceBinding::Buffer { buffer_ptr: 5, binding: 2, data_usage: BufferDataUsage::UseEverything };
    let mut cache = BindGroupCache::default();
    let first = cache.insert(BindGroupCacheKey::new(&[&buf]), empty_bind_group(&device));
    let second = cache.insert(BindGroupCacheKey::new(&[&buf]), empty_bind_group(&device));
    assert!(Arc::ptr_eq(&first, &second));
    assert_eq!(cache.len(), 1);
    let other = ResourceBinding::Buffer { buffer_ptr: 6, binding: 2, data_usage: BufferDataUsage::UseEverything };
    let third = cache.insert(BindGroupCacheKey::new(&[&other]), empty_bind_group(&device));
    assert!(!Arc::ptr_eq(&first, &third));
    assert_eq!(cache.len(), 2);
    // insert records neither hits nor misses
    assert_eq!(cache.metrics_snapshot_and_reset(), (0, 0));
}
