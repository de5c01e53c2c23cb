//! GPU handles of wgpu that the library carries, and the trusted calls on them.
//!
//! The handles are opaque to the verifier. Each function here makes exactly one
//! call into wgpu (or std); its contract is believed, not proved, and its doc
//! comment says what it claims.
use std::sync::Arc;
use vstd::prelude::*;

verus! {

#[verifier::external_type_specification]
#[verifier::external_body]
pub struct ExDevice(wgpu::Device);

#[verifier::external_type_specification]
#[verifier::external_body]
pub struct ExQueue(wgpu::Queue);

#[verifier::external_type_specification]
#[verifier::external_body]
pub struct ExAdapter(wgpu::Adapter);

#[verifier::external_type_specification]
#[verifier::external_body]
pub struct ExBuffer(wgpu::Buffer);

#[verifier::external_type_specification]
#[verifier::external_body]
pub struct ExBufferSlice<'a>(wgpu::BufferSlice<'a>);

#[verifier::external_type_specification]
#[verifier::external_body]
pub struct ExRenderPipeline(wgpu::RenderPipeline);

#[verifier::external_type_specification]
#[verifier::external_body]
pub struct ExBindGroup(wgpu::BindGroup);

#[verifier::external_type_specification]
#[verifier::external_body]
pub struct ExTextureFormat(wgpu::TextureFormat);

/// The size in bytes of a GPU buffer: the size it was created with. A wgpu
/// buffer never changes size.
pub uninterp spec fn buffer_size(buffer: wgpu::Buffer) -> u64;

/// The usage bits a buffer was created with (`wgpu::Buffer::usage`); a
/// buffer's usage never changes.
pub uninterp spec fn buffer_usage(buffer: wgpu::Buffer) -> u32;

/// The largest buffer, in bytes, that a device accepts: the `max_buffer_size`
/// of the limits the device was created with, which never change.
pub uninterp spec fn max_buffer_size(device: wgpu::Device) -> u64;

/// `max_buffer_size` of `wgpu::Limits::default()` (`256 << 20`, 256 MiB).
pub const DEFAULT_MAX_BUFFER_SIZE: u64 = 268435456;

/// Whether a buffer was created mapped (`mapped_at_creation` of the
/// descriptor it was created with).
pub uninterp spec fn buffer_mapped_at_creation(buffer: wgpu::Buffer) -> bool;

/// Usage bit of `wgpu::BufferUsages::MAP_READ` (`1 << 0`).
pub const BUFFER_USAGE_MAP_READ: u32 = 1;

/// Usage bit of `wgpu::BufferUsages::MAP_WRITE` (`1 << 1`).
pub const BUFFER_USAGE_MAP_WRITE: u32 = 2;

/// Usage bit of `wgpu::BufferUsages::COPY_DST` (`1 << 3`).
pub const BUFFER_USAGE_COPY_DST: u32 = 8;

/// Usage bit of `wgpu::BufferUsages::UNIFORM` (`1 << 6`).
pub const BUFFER_USAGE_UNIFORM: u32 = 64;

/// The buffer a slice refers to (what `wgpu::BufferSlice::buffer` returns).
pub uninterp spec fn slice_buffer(slice: wgpu::BufferSlice<'_>) -> wgpu::Buffer;

/// The byte offset in its buffer at which a slice starts (what
/// `wgpu::BufferSlice::offset` returns).
pub uninterp spec fn slice_offset(slice: wgpu::BufferSlice<'_>) -> u64;

/// The size in bytes of a slice (what `wgpu::BufferSlice::size` returns).
pub uninterp spec fn slice_size(slice: wgpu::BufferSlice<'_>) -> u64;

/// The device a buffer was created on (wgpu keeps it in the buffer).
pub uninterp spec fn buffer_device(buffer: wgpu::Buffer) -> wgpu::Device;

/// The device a queue submits to (wgpu keeps it in the queue).
pub uninterp spec fn queue_device(queue: wgpu::Queue) -> wgpu::Device;

/// Calls `wgpu::Adapter::request_device` (no label, no extra features,
/// default limits, performance memory hints) and waits for it with
/// `fyrox_core::futures::executor::block_on`; a failure is rendered with
/// `Display`.
///
/// Claims: the queue returned belongs to the device returned (wgpu creates
/// them as a pair), and a granted device has the requested limits (wgpu-core
/// keeps `required_limits`), so its largest buffer is `Limits::default()`'s
/// `max_buffer_size`, 256 MiB. Not stated: whether a device is granted (it
/// depends on the adapter and the driver).
#[verifier::external_body]
pub(crate) fn request_device(adapter: &wgpu::Adapter) -> (r: Result<(wgpu::Device, wgpu::Queue), String>)
    ensures
        r matches Ok((d, q)) ==> queue_device(q) == d && max_buffer_size(d) == DEFAULT_MAX_BUFFER_SIZE,
{
    match fyrox_core::futures::executor::block_on(adapter.request_device(&wgpu::DeviceDescriptor {
        label: None,
        required_features: wgpu::Features::empty(),
        required_limits: wgpu::Limits::default(),
        memory_hints: wgpu::MemoryHints::Performance,
        ..Default::default()
    })) {
        Ok(pair) => Ok(pair),
        Err(e) => Err(format!("{e}")),
    }
}

/// Calls `wgpu::Device::noop` with the default descriptor: a device of
/// wgpu's no-op backend and its queue.
///
/// Claims: the queue belongs to the device, and the device has the default
/// limits that the default descriptor requests (largest buffer 256 MiB).
#[verifier::external_body]
pub(crate) fn noop_device() -> (r: (wgpu::Device, wgpu::Queue))
    ensures
        queue_device(r.1) == r.0,
        max_buffer_size(r.0) == DEFAULT_MAX_BUFFER_SIZE,
{
    wgpu::Device::noop(&wgpu::DeviceDescriptor::default())
}

/// Calls `wgpu::Device::limits` and returns its `max_buffer_size`.
#[verifier::external_body]
pub(crate) fn device_max_buffer_size(device: &wgpu::Device) -> (r: u64)
    ensures
        r == max_buffer_size(*device),
{
    device.limits().max_buffer_size
}

/// Calls `wgpu::Device::create_buffer` for an unmapped buffer of `size`
/// bytes with `UNIFORM | COPY_DST` usage.
///
/// Claims: the returned buffer belongs to `device`, has exactly `size`
/// bytes and that usage, and was not created mapped (wgpu stores the
/// device, `desc.size` and `desc.usage` in the buffer). `requires` keeps the
/// size within the device's limit: a larger size is a validation error, which
/// wgpu's default error handler turns into a panic.
#[verifier::external_body]
pub(crate) fn create_uniform_buffer(device: &wgpu::Device, label: &str, size: u64) -> (r: wgpu::Buffer)
    requires
        size <= max_buffer_size(*device),
    ensures
        buffer_device(r) == *device,
        !buffer_mapped_at_creation(r),
        buffer_size(r) == size,
        buffer_usage(r) == BUFFER_USAGE_UNIFORM | BUFFER_USAGE_COPY_DST,
{
    device.create_buffer(&wgpu::BufferDescriptor {
        label: Some(label),
        size,
        usage: wgpu::BufferUsages::UNIFORM | wgpu::BufferUsages::COPY_DST,
        mapped_at_creation: false,
    })
}

/// Calls `wgpu::Buffer::slice` with the half-open byte range `start..end`.
///
/// `Buffer::slice` panics when the range does not lie within the buffer;
/// `requires` leaves those ranges out. Claims: the slice refers to `buffer`,
/// starts at `start` and is `end - start` bytes long (`Buffer::slice` stores
/// the buffer, the range's start and its length in the slice).
#[verifier::external_body]
pub(crate) fn buffer_slice<'a>(buffer: &'a wgpu::Buffer, start: u64, end: u64) -> (r: wgpu::BufferSlice<'a>)
    requires
        start <= end <= buffer_size(*buffer),
    ensures
        slice_buffer(r) == *buffer,
        slice_offset(r) == start,
        slice_size(r) == end - start,
{
    buffer.slice(start..end)
}

/// Calls `wgpu::Queue::write_buffer`, which schedules a copy of `data` into
/// `buffer` at byte `offset`.
///
/// `requires` states the rules that wgpu validates (a buffer of the queue's
/// device; a buffer that is not mapped, which holds of one created unmapped
/// whose usage has neither `MAP_READ` nor `MAP_WRITE`, since such a buffer can
/// never be mapped; a `COPY_DST` buffer; 4-byte alignment of offset and
/// length; the range within the buffer); a violation is a validation error,
/// which wgpu's default error handler turns into a panic.
/// Left unsaid: wgpu also refuses a buffer destroyed with `Buffer::destroy`
/// and a lost device. Neither state is visible here (destruction goes through
/// a shared reference, loss comes from the driver); nothing in the library
/// destroys a buffer. The write only takes effect on the GPU at the next
/// submission, so nothing is claimed of the buffer's contents.
#[verifier::external_body]
pub(crate) fn queue_write_buffer(queue: &wgpu::Queue, buffer: &wgpu::Buffer, offset: u64, data: &[u8])
    requires
        queue_device(*queue) == buffer_device(*buffer),
        !buffer_mapped_at_creation(*buffer),
        buffer_usage(*buffer) & (BUFFER_USAGE_MAP_READ | BUFFER_USAGE_MAP_WRITE) == 0,
        buffer_usage(*buffer) & BUFFER_USAGE_COPY_DST == BUFFER_USAGE_COPY_DST,
        offset % 4 == 0,
        data@.len() % 4 == 0,
        offset + data@.len() <= buffer_size(*buffer),
{
    queue.write_buffer(buffer, offset, data)
}

/// Calls `Arc::clone`: another pointer to the same allocation.
#[verifier::external_body]
pub(crate) fn arc_clone<T>(a: &Arc<T>) -> (r: Arc<T>)
    ensures
        r == *a,
{
    Arc::clone(a)
}

/// A device together with its queue.
pub struct GpuDevice {
    device: wgpu::Device,
    queue: wgpu::Queue,
}

impl GpuDevice {
    /// The queue submits to the device.
    #[verifier::type_invariant]
    spec fn paired(self) -> bool {
        queue_device(self.queue) == self.device
    }

    /// The device.
    pub closed spec fn device_view(&self) -> wgpu::Device {
        self.device
    }

    /// Requests a device and its queue from `adapter`, with no extra
    /// features and wgpu's default limits (no label, performance memory
    /// hints). Whether one is granted depends on the adapter and the driver.
    pub fn request(adapter: &wgpu::Adapter) -> (r: Result<GpuDevice, String>)
        ensures
            r matches Ok(g) ==> max_buffer_size(g.device_view()) == DEFAULT_MAX_BUFFER_SIZE,
    {
        match request_device(adapter) {
            Ok((device, queue)) => Ok(GpuDevice { device, queue }),
            Err(e) => Err(e),
        }
    }

    /// A device of wgpu's no-op backend, with its queue and default limits.
    pub fn noop() -> (r: GpuDevice)
        ensures
            max_buffer_size(r.device_view()) == DEFAULT_MAX_BUFFER_SIZE,
    {
        let (device, queue) = noop_device();
        GpuDevice { device, queue }
    }

    /// The device.
    pub fn device(&self) -> (r: &wgpu::Device)
        ensures
            *r == self.device_view(),
    {
        &self.device
    }

    /// The queue, which submits to the device.
    pub fn queue(&self) -> (r: &wgpu::Queue)
        ensures
            queue_device(*r) == self.device_view(),
    {
        proof {
            use_type_invariant(self);
        }
        &self.queue
    }
}

} // verus!
