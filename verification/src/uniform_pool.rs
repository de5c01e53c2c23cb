//! GPU-side uniform buffer pool with sub-allocation.
//!
//! Instead of creating a new `wgpu::Buffer` for each uniform upload, the pool
//! maintains a single large buffer that is partitioned into aligned sub-regions.
//! `allocate()` reserves a region and returns the byte offset. Data is uploaded
//! via `queue.write_buffer()` at that offset.
//!
//! `reset()` clears the allocation cursor at the start of each frame, allowing
//! the same buffer memory to be reused.
use crate::gpu::{
    buffer_device, buffer_mapped_at_creation, buffer_size, buffer_slice, buffer_usage, queue_device, slice_buffer, slice_offset, slice_size, create_uniform_buffer, device_max_buffer_size, max_buffer_size,
    queue_write_buffer, BUFFER_USAGE_COPY_DST, BUFFER_USAGE_UNIFORM,
};
use std::sync::Arc;
use vstd::prelude::*;
use wgpu::{Buffer, BufferSlice, Device, Queue};

verus! {

/// Minimum alignment for uniform buffer bindings in wgpu.
pub const UNIFORM_ALIGNMENT: u64 = 256;

/// `size` rounded up to the next multiple of [`UNIFORM_ALIGNMENT`].
pub open spec fn align_up(size: int) -> int {
    ((size + 255) / 256) * 256
}

/// Rounds `size` up to the next multiple of [`UNIFORM_ALIGNMENT`] (256 bytes).
pub fn aligned_size(size: u64) -> (r: u64)
    requires
        size <= u64::MAX - 255,
    ensures
        r == align_up(size as int),
{
    let sum: u64 = size + 255;
    let r: u64 = sum & !255u64;
    assert(sum & !255u64 == (sum / 256) * 256) by (bit_vector);
    r
}

/// Law: an aligned size is a multiple of 256, at least the requested size,
/// and less than 256 bytes more than it.
pub proof fn lemma_align_up(size: int)
    requires
        size >= 0,
    ensures
        align_up(size) % 256 == 0,
        size <= align_up(size) < size + 256,
{
}

/// A sub-allocation within a uniform buffer pool.
///
/// Tracks the byte offset of the allocated region. Use `slice()` to get
/// a `wgpu::BufferSlice` for binding, and `write()` to upload data.
#[derive(Debug, Clone, Copy)]
pub struct Suballocation {
    /// Byte offset from the start of the pool's buffer.
    pub offset: u32,
    /// Byte size of the allocated region.
    pub size: u32,
}

impl Suballocation {
    /// Returns a `BufferSlice` covering this suballocation's region,
    /// the bytes `offset .. offset + size` of `buffer`.
    pub fn slice(self, buffer: &Arc<Buffer>) -> (r: BufferSlice<'_>)
        requires
            self.offset + self.size <= u32::MAX,
            self.offset + self.size <= buffer_size(**buffer),
        ensures
            slice_buffer(r) == **buffer,
            slice_offset(r) == self.offset,
            slice_size(r) == self.size,
    {
        let end: u32 = self.offset + self.size;
        let b: &Buffer = &**buffer;
        buffer_slice(b, self.offset as u64, end as u64)
    }

    /// Writes data into this suballocation's region of the pool buffer,
    /// starting at byte `offset`.
    pub fn write(&self, queue: &Queue, buffer: &Arc<Buffer>, data: &[u8])
        requires
            queue_device(*queue) == buffer_device(**buffer),
            buffer_usage(**buffer) == BUFFER_USAGE_UNIFORM | BUFFER_USAGE_COPY_DST,
            !buffer_mapped_at_creation(**buffer),
            self.offset % 4 == 0,
            data@.len() % 4 == 0,
            self.offset + data@.len() <= buffer_size(**buffer),
    {
        let b: &Buffer = &**buffer;
        assert((64u32 | 8u32) & 8u32 == 8u32) by (bit_vector);
        assert((64u32 | 8u32) & (1u32 | 2u32) == 0u32) by (bit_vector);
        queue_write_buffer(queue, b, self.offset as u64, data)
    }
}

/// A pool of GPU uniform buffer memory that allocates sub-regions on demand.
///
/// The pool owns a single `wgpu::Buffer` (with `UNIFORM | COPY_DST` usage) and
/// carves it into sub-allocations. `allocate()` reserves the next aligned region.
/// `reset()` rewinds the allocation cursor so the same memory can be reused each
/// frame — callers must ensure all in-flight draws using previously allocated
/// suballocations have completed before calling `reset()`.
pub struct UniformBufferPool {
    buffer: Arc<Buffer>,
    capacity: u64,
    next_offset: u64,
}

impl UniformBufferPool {
    /// The pool's invariant: the cursor is aligned and within the buffer,
    /// and the buffer is exactly `capacity` bytes long.
    #[verifier::type_invariant]
    spec fn inv(self) -> bool {
        &&& self.next_offset <= self.capacity
        &&& self.next_offset % 256 == 0
        &&& buffer_size(*self.buffer) == self.capacity
        &&& buffer_usage(*self.buffer) == BUFFER_USAGE_UNIFORM | BUFFER_USAGE_COPY_DST
        &&& !buffer_mapped_at_creation(*self.buffer)
    }

    /// Total size of the pool's buffer in bytes.
    pub closed spec fn capacity(&self) -> u64 {
        self.capacity
    }

    /// Bytes handed out since the last reset (the allocation cursor).
    pub closed spec fn used_bytes(&self) -> u64 {
        self.next_offset
    }

    /// The pool's buffer.
    pub closed spec fn buffer_view(&self) -> Buffer {
        *self.buffer
    }

    /// Creates a new pool with a GPU buffer of the given capacity in bytes
    /// (`UNIFORM | COPY_DST` usage). The capacity must be within the device's
    /// buffer size limit.
    pub fn new(device: &Device, capacity: u64) -> (pool: Self)
        requires
            capacity <= max_buffer_size(*device),
        ensures
            pool.capacity() == capacity,
            pool.used_bytes() == 0,
            buffer_size(pool.buffer_view()) == capacity,
            buffer_usage(pool.buffer_view()) == BUFFER_USAGE_UNIFORM | BUFFER_USAGE_COPY_DST,
            !buffer_mapped_at_creation(pool.buffer_view()),
            buffer_device(pool.buffer_view()) == *device,
    {
        let buffer = create_uniform_buffer(device, "UniformBufferPool", capacity);
        Self { buffer: Arc::new(buffer), capacity, next_offset: 0 }
    }

    /// Creates a pool as `new` does when the capacity is within the device's
    /// buffer size limit, and `None` otherwise.
    pub fn try_new(device: &Device, capacity: u64) -> (r: Option<Self>)
        ensures
            r is Some <==> capacity <= max_buffer_size(*device),
            r matches Some(pool) ==> {
                &&& pool.capacity() == capacity
                &&& pool.used_bytes() == 0
                &&& buffer_size(pool.buffer_view()) == capacity
                &&& buffer_usage(pool.buffer_view()) == BUFFER_USAGE_UNIFORM | BUFFER_USAGE_COPY_DST
                &&& !buffer_mapped_at_creation(pool.buffer_view())
                &&& buffer_device(pool.buffer_view()) == *device
            },
    {
        if capacity <= device_max_buffer_size(device) {
            Some(Self::new(device, capacity))
        } else {
            None
        }
    }

    /// Returns the underlying buffer.
    pub fn buffer(&self) -> (r: &Arc<Buffer>)
        ensures
            **r == self.buffer_view(),
            buffer_size(**r) == self.capacity(),
            buffer_usage(**r) == BUFFER_USAGE_UNIFORM | BUFFER_USAGE_COPY_DST,
            !buffer_mapped_at_creation(**r),
    {
        proof {
            use_type_invariant(self);
        }
        &self.buffer
    }

    /// Attempts to allocate `size` bytes from the pool.
    ///
    /// Returns `None` if the pool is exhausted. The allocated region is
    /// aligned to [`UNIFORM_ALIGNMENT`] (256 bytes) per the WebGPU spec.
    pub fn allocate(&mut self, size: u64) -> (r: Option<Suballocation>)
        requires
            size <= u64::MAX - 255,
            old(self).used_bytes() + align_up(size as int) <= u64::MAX,
        ensures
            final(self).capacity() == old(self).capacity(),
            final(self).buffer_view() == old(self).buffer_view(),
            r is None <==> old(self).used_bytes() + align_up(size as int) > old(self).capacity(),
            r is None ==> final(self).used_bytes() == old(self).used_bytes(),
            r matches Some(s) ==> {
                &&& s.offset == old(self).used_bytes() as u32
                &&& s.size == size as u32
                &&& final(self).used_bytes() == old(self).used_bytes() + align_up(size as int)
                &&& old(self).used_bytes() % 256 == 0
                &&& old(self).used_bytes() + align_up(size as int) <= old(self).capacity()
            },
    {
        proof {
            use_type_invariant(&*self);
        }
        let aligned = aligned_size(size);
        if self.next_offset + aligned > self.capacity {
            return None;
        }
        let offset = self.next_offset as u32;
        self.next_offset = self.next_offset + aligned;
        Some(Suballocation { offset, size: size as u32 })
    }

    /// Resets the allocation cursor to the start of the buffer.
    ///
    /// Call this at the beginning of each frame. The caller must ensure that
    /// all draws using previously allocated suballocations have finished
    /// before resetting.
    pub fn reset(&mut self)
        ensures
            final(self).used_bytes() == 0,
            final(self).capacity() == old(self).capacity(),
            final(self).buffer_view() == old(self).buffer_view(),
    {
        proof {
            use_type_invariant(&*self);
        }
        self.next_offset = 0;
    }

    /// Returns true if the pool is empty (no allocations made this frame).
    pub fn is_empty(&self) -> (r: bool)
        ensures
            r == (self.used_bytes() == 0),
    {
        self.next_offset == 0
    }

    /// Returns the number of bytes used in the current frame's allocation.
    /// The cursor is always a multiple of 256 within the capacity.
    pub fn used(&self) -> (r: u64)
        ensures
            r == self.used_bytes(),
            r <= self.capacity(),
            r % 256 == 0,
    {
        proof {
            use_type_invariant(self);
        }
        self.next_offset
    }
}

/// Law: two allocations made one after the other from the same pool, the
/// second starting where the cursor was left by the first, do not overlap and
/// both start on a 256-byte boundary.
pub proof fn lemma_consecutive_allocations_disjoint(start: int, first_size: int)
    requires
        start >= 0,
        start % 256 == 0,
        first_size >= 0,
    ensures
        start + first_size <= start + align_up(first_size),
        (start + align_up(first_size)) % 256 == 0,
{
}

} // verus!
