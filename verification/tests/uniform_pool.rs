use fyrox_graphics_wgpu::gpu::GpuDevice;
use fyrox_graphics_wgpu::uniform_pool::{aligned_size, Suballocation, UniformBufferPool, UNIFORM_ALIGNMENT};

fn noop_device() -> (wgpu::Device, wgpu::Queue) {
    wgpu::Device::noop(&wgpu::DeviceDescriptor::default())
}

#[test]
fn first_allocation_at_zero() {
    // Simulate allocation logic without GPU.
    let mut next_offset = 0u64;
    let size = 64u64;
    let aligned = (size + 255) & !255;
    let offset = next_offset;
    next_offset += aligned;
    assert_eq!(offset, 0);
    assert_eq!(next_offset, 256);
    assert_eq!(aligned_size(size), aligned);
}

#[test]
fn second_allocation_aligned() {
    let mut next_offset = 0u64;
    // First: 64 bytes -> aligned to 256
    next_offset += (64 + 255) & !255;
    // Second: 64 bytes -> aligned to 256
    let second_offset = next_offset;
    next_offset += (64 + 255) & !255;
    assert_eq!(second_offset, 256);
    assert_eq!(next_offset, 512);
    assert_eq!(aligned_size(64) + aligned_size(64), 512);
}

#[test]
fn overflow_returns_none() {
    // 64 bytes aligned to 256 = 256. capacity = 200. 0 + 256 > 200 is true.
    let capacity = 200u64;
    let size = 64u64;
    let aligned = (size + 255) & !255;
    assert!(aligned > capacity);
    assert!(aligned_size(size) > capacity);
}

#[test]
fn suballocation_offset_and_size() {
    let sub = Suballocation { offset: 512, size: 64 };
    assert_eq!(sub.offset, 512);
    assert_eq!(sub.size, 64);
}

#[test]
fn aligned_size_rounds_up_to_256() {
    assert_eq!(UNIFORM_ALIGNMENT, 256);
    assert_eq!(aligned_size(0), 0);
    assert_eq!(aligned_size(1), 256);
    assert_eq!(aligned_size(256), 256);
    assert_eq!(aligned_size(257), 512);
    assert_eq!(aligned_size(u64::MAX - 255), u64::MAX - 255);
}

#[test]
fn pool_allocates_consecutive_aligned_regions() {
    let (device, _queue) = noop_device();
    let mut pool = UniformBufferPool::new(&device, 1024);
    assert!(pool.is_empty());
    let a = pool.allocate(64).unwrap();
    assert_eq!((a.offset, a.size), (0, 64));
    assert_eq!(pool.used(), 256);
    let b = pool.allocate(300).unwrap();
    assert_eq!((b.offset, b.size), (256, 300));
    assert_eq!(pool.used(), 768);
    assert!(!pool.is_empty());
    assert_eq!(pool.buffer().size(), 1024);
}

#[test]
fn pool_refuses_what_does_not_fit_and_keeps_cursor() {
    let (device, _queue) = noop_device();
    let mut pool = UniformBufferPool::new(&device, 512);
    assert!(pool.allocate(256).is_some());
    assert!(pool.allocate(257).is_none());
    assert_eq!(pool.used(), 256);
    let c = pool.allocate(256).unwrap();
    assert_eq!(c.offset, 256);
    assert!(pool.allocate(1).is_none());
    assert_eq!(pool.used(), 512);
}

#[test]
fn pool_of_200_bytes_cannot_hold_64() {
    let (device, _queue) = noop_device();
    let mut pool = UniformBufferPool::new(&device, 200);
    assert!(pool.allocate(64).is_none());
    assert!(pool.is_empty());
}

#[test]
fn pool_reset_rewinds_cursor() {
    let (device, _queue) = noop_device();
    let mut pool = UniformBufferPool::new(&device, 1024);
    pool.allocate(10).unwrap();
    pool.allocate(10).unwrap();
    pool.reset();
    assert!(pool.is_empty());
    assert_eq!(pool.used(), 0);
    assert_eq!(pool.allocate(10).unwrap().offset, 0);
}

#[test]
fn suballocation_slice_and_write() {
    let gpu = GpuDevice::noop();
    let (device, queue) = (gpu.device(), gpu.queue());
    let mut pool = UniformBufferPool::new(device, 1024);
    let _first = pool.allocate(16).unwrap();
    let sub = pool.allocate(16).unwrap();
    let slice = sub.slice(pool.buffer());
    assert_eq!(slice.size(), 16);
    assert_eq!(slice.offset(), 256);
    sub.write(queue, pool.buffer(), &[1u8, 2, 3, 4, 5, 6, 7, 8]);
}

#[test]
fn try_new_respects_device_buffer_limit() {
    let (device, _queue) = noop_device();
    let limit = device.limits().max_buffer_size;
    let pool = UniformBufferPool::try_new(&device, 4096).unwrap();
    assert_eq!(pool.used(), 0);
    assert_eq!(pool.buffer().size(), 4096);
    assert_eq!(pool.buffer().usage(), wgpu::BufferUsages::UNIFORM | wgpu::BufferUsages::COPY_DST);
    assert!(UniformBufferPool::try_new(&device, limit + 1).is_none());
}
