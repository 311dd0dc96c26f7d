use vstd::prelude::*;
use std::sync::Arc;
use wgpu::{Buffer, BufferDescriptor, BufferSlice, BufferUsages, Device, IndexFormat, Queue, ShaderStages};

verus! {

#[verifier::external_type_specification]
#[verifier::external_body]
pub struct ExDevice(Device);

#[verifier::external_type_specification]
#[verifier::external_body]
pub struct ExQueue(Queue);

#[verifier::external_type_specification]
#[verifier::external_body]
pub struct ExBuffer(Buffer);

#[verifier::external_type_specification]
#[verifier::external_body]
pub struct ExBufferSlice<'a>(BufferSlice<'a>);

#[verifier::external_type_specification]
#[verifier::external_body]
pub struct ExShaderStages(ShaderStages);

#[verifier::external_type_specification]
#[verifier::external_body]
pub struct ExIndexFormat(IndexFormat);

/// Relies on the `Default` that wgpu-types derives for IndexFormat, whose
/// default variant is `Uint32`.
pub assume_specification[ <IndexFormat as core::default::Default>::default ]() -> IndexFormat;

/// Bits of the buffer usage flags, as wgpu numbers them.
pub const USAGE_MAP_READ: u32 = 1;
pub const USAGE_MAP_WRITE: u32 = 2;
pub const USAGE_COPY_SRC: u32 = 4;
pub const USAGE_COPY_DST: u32 = 8;
pub const USAGE_INDEX: u32 = 16;
pub const USAGE_VERTEX: u32 = 32;
pub const USAGE_UNIFORM: u32 = 64;
pub const USAGE_STORAGE: u32 = 128;
pub const USAGE_INDIRECT: u32 = 256;
pub const USAGE_QUERY_RESOLVE: u32 = 512;

/// Bytes of one vertex: position, color and normal (four floats each) and
/// texture coordinates (two floats).
pub const VERTEX_SIZE: u64 = 56;

/// Bytes of one index.
pub const INDEX_SIZE: u64 = 4;

/// A usage set that a buffer can be created with: not empty, only known
/// bits, never mapped, and an index buffer serves nothing else.
pub open spec fn valid_usage(usage: u32) -> bool {
    &&& usage != 0
    &&& usage & 0xffff_fc00u32 == 0
    &&& usage & 3u32 == 0
    &&& usage & 16u32 != 0 ==> usage & 0x01e0u32 == 0
}

/// Whether a buffer can be created with the usage set `usage`.
pub fn valid_usage_bits(usage: u32) -> (r: bool)
    ensures
        r == valid_usage(usage),
{
    usage != 0 && usage & 0xffff_fc00u32 == 0 && usage & 3u32 == 0 && (usage & 16u32 == 0 || usage
        & 0x01e0u32 == 0)
}

/// Relies on wgpu::Device::limits: the limits the device was created with
/// (a device gets exactly the limits it was requested with); its
/// `max_buffer_size` bounds every buffer made on it.
#[verifier::external_body]
fn device_max_buffer_size(device: &Device) -> u64 {
    device.limits().max_buffer_size
}

/// Relies on wgpu::Device::create_buffer: a new unmapped buffer of `size`
/// bytes on `wgpu`'s device, labelled "`label``role` buffer". Device
/// validation (the default handler panics) refuses sizes over the device's
/// `max_buffer_size` and invalid usage sets.
#[verifier::external_body]
fn create_buffer(wgpu: &Wgpu, label: &str, role: &str, size: u64, usage: u32) -> Buffer
    requires
        size <= wgpu.spec_max_buffer_size(),
        valid_usage(usage),
{
    wgpu.device.create_buffer(
        &BufferDescriptor {
            label: Some(format!("{}{} buffer", label, role).as_str()),
            size,
            usage: BufferUsages::from_bits_truncate(usage),
            mapped_at_creation: false,
        },
    )
}

/// Relies on wgpu::Buffer::slice with `..`: the whole buffer.
#[verifier::external_body]
fn whole_slice(buffer: &Buffer) -> BufferSlice<'_> {
    buffer.slice(..)
}

/// Relies on wgpu::Queue::write_buffer: schedules `data` to be copied into
/// the buffer at `offset`, through the queue of the device that made it.
/// Queue validation (the default handler panics) refuses unaligned offsets
/// and sizes, writes past the end, buffers without copy-destination usage,
/// and buffers of another device.
#[verifier::external_body]
fn queue_write_buffer(buffer: &WgpuBuffer, offset: u64, data: &[u8])
    requires
        offset % 4 == 0,
        data@.len() % 4 == 0,
        offset + data@.len() <= buffer.spec_size(),
        buffer.spec_usage() & USAGE_COPY_DST != 0,
{
    buffer.wgpu.queue.write_buffer(&buffer.buffer, offset, data)
}

/// A device, its command queue, and the largest buffer it grants.
pub struct Wgpu {
    device: Device,
    queue: Queue,
    max_buffer_size: u64,
}

impl Wgpu {
    pub closed spec fn spec_max_buffer_size(&self) -> u64 {
        self.max_buffer_size
    }

    /// Takes the device and queue as one `request_device` call returned them.
    pub fn new(device_and_queue: (Device, Queue)) -> (r: Wgpu) {
        let (device, queue) = device_and_queue;
        let max_buffer_size = device_max_buffer_size(&device);
        Wgpu { device, queue, max_buffer_size }
    }

    pub fn device(&self) -> &Device {
        &self.device
    }

    pub fn queue(&self) -> &Queue {
        &self.queue
    }

    pub fn max_buffer_size(&self) -> (r: u64)
        ensures
            r == self.spec_max_buffer_size(),
    {
        self.max_buffer_size
    }
}

/// Anything backed by one GPU buffer.
pub trait IWgpuBuffer {
    fn buffer(&self) -> &Buffer;
}

/// A GPU buffer with the device it lives on and the size and usage it was
/// created with.
pub struct WgpuBuffer {
    wgpu: Arc<Wgpu>,
    buffer: Buffer,
    size: u64,
    usage: u32,
}

impl WgpuBuffer {
    pub closed spec fn spec_size(&self) -> u64 {
        self.size
    }

    pub closed spec fn spec_usage(&self) -> u32 {
        self.usage
    }

    /// A buffer of `size` bytes on `wgpu`'s device; None where the device
    /// grants no buffer that large.
    pub fn new(wgpu: &Arc<Wgpu>, label: &str, size: u64, usage: u32) -> (r: Option<WgpuBuffer>)
        requires
            valid_usage(usage),
        ensures
            r is Some <==> size <= wgpu.spec_max_buffer_size(),
            r matches Some(b) ==> b.spec_size() == size && b.spec_usage() == usage,
    {
        WgpuBuffer::with_role(wgpu, label, "", size, usage)
    }

    /// As `new`, with a label that names the buffer's role (" vertex",
    /// " index") after `label`.
    fn with_role(wgpu: &Arc<Wgpu>, label: &str, role: &str, size: u64, usage: u32) -> (r: Option<
        WgpuBuffer,
    >)
        requires
            valid_usage(usage),
        ensures
            r is Some <==> size <= wgpu.spec_max_buffer_size(),
            r matches Some(b) ==> b.spec_size() == size && b.spec_usage() == usage,
    {
        if size > wgpu.max_buffer_size() {
            return None;
        }
        let buffer = create_buffer(wgpu, label, role, size, usage);
        Some(WgpuBuffer { wgpu: wgpu.clone(), buffer, size, usage })
    }

    pub fn size(&self) -> (r: u64)
        ensures
            r == self.spec_size(),
    {
        self.size
    }

    pub fn usage(&self) -> (r: u32)
        ensures
            r == self.spec_usage(),
    {
        self.usage
    }

    pub fn slice(&self) -> BufferSlice<'_> {
        whole_slice(&self.buffer)
    }

    /// Schedules `data` to be written at `offset`.
    pub fn write(&self, offset: u64, data: &[u8])
        requires
            offset % 4 == 0,
            data@.len() % 4 == 0,
            offset + data@.len() <= self.spec_size(),
            self.spec_usage() & USAGE_COPY_DST != 0,
    {
        queue_write_buffer(self, offset, data)
    }
}

impl IWgpuBuffer for WgpuBuffer {
    fn buffer(&self) -> &Buffer {
        &self.buffer
    }
}

/// A vertex buffer of `len` vertices.
pub struct WgpuVertexBuffer {
    buffer: WgpuBuffer,
    len: usize,
}

impl WgpuVertexBuffer {
    #[verifier::type_invariant]
    spec fn inv(&self) -> bool {
        self.buffer.usage == (USAGE_VERTEX | USAGE_COPY_DST)
    }

    pub closed spec fn spec_len(&self) -> usize {
        self.len
    }

    pub closed spec fn spec_buffer(&self) -> &WgpuBuffer {
        &self.buffer
    }

    /// Room for `len` vertices; None where the device grants no buffer that
    /// large.
    pub fn new(wgpu: &Arc<Wgpu>, label: &str, len: usize) -> (r: Option<WgpuVertexBuffer>)
        ensures
            r is Some <==> VERTEX_SIZE * len <= wgpu.spec_max_buffer_size(),
            r matches Some(v) ==> {
                &&& v.spec_len() == len
                &&& v.spec_buffer().spec_size() == VERTEX_SIZE * len
                &&& v.spec_buffer().spec_usage() == USAGE_VERTEX | USAGE_COPY_DST
            },
    {
        assert(valid_usage(32u32 | 8u32)) by (bit_vector);
        if len as u64 > wgpu.max_buffer_size() / VERTEX_SIZE {
            return None;
        }
        match WgpuBuffer::with_role(wgpu, label, " vertex", VERTEX_SIZE * len as u64, USAGE_VERTEX | USAGE_COPY_DST) {
            Some(buffer) => Some(WgpuVertexBuffer { buffer, len }),
            None => None,
        }
    }

    pub fn len(&self) -> (r: usize)
        ensures
            r == self.spec_len(),
    {
        self.len
    }

    pub fn slice(&self) -> BufferSlice<'_> {
        self.buffer.slice()
    }

    /// Schedules raw vertex bytes to be written from the start.
    pub fn write(&self, data: &[u8])
        requires
            data@.len() % 4 == 0,
            data@.len() <= self.spec_buffer().spec_size(),
    {
        proof {
            use_type_invariant(self);
        }
        assert((32u32 | 8u32) & 8u32 != 0) by (bit_vector);
        self.buffer.write(0, data)
    }
}

impl IWgpuBuffer for WgpuVertexBuffer {
    fn buffer(&self) -> &Buffer {
        &self.buffer.buffer
    }
}

/// An index buffer of `len` 32-bit indices.
pub struct WgpuIndexBuffer {
    buffer: WgpuBuffer,
    len: usize,
}

impl WgpuIndexBuffer {
    #[verifier::type_invariant]
    spec fn inv(&self) -> bool {
        self.buffer.usage == (USAGE_INDEX | USAGE_COPY_DST)
    }

    pub closed spec fn spec_len(&self) -> usize {
        self.len
    }

    pub closed spec fn spec_buffer(&self) -> &WgpuBuffer {
        &self.buffer
    }

    /// Room for `len` indices; None where the device grants no buffer that
    /// large.
    pub fn new(wgpu: &Arc<Wgpu>, label: &str, len: usize) -> (r: Option<WgpuIndexBuffer>)
        ensures
            r is Some <==> INDEX_SIZE * len <= wgpu.spec_max_buffer_size(),
            r matches Some(v) ==> {
                &&& v.spec_len() == len
                &&& v.spec_buffer().spec_size() == INDEX_SIZE * len
                &&& v.spec_buffer().spec_usage() == USAGE_INDEX | USAGE_COPY_DST
            },
    {
        assert(valid_usage(16u32 | 8u32)) by (bit_vector);
        if len as u64 > wgpu.max_buffer_size() / INDEX_SIZE {
            return None;
        }
        match WgpuBuffer::with_role(wgpu, label, " index", INDEX_SIZE * len as u64, USAGE_INDEX | USAGE_COPY_DST) {
            Some(buffer) => Some(WgpuIndexBuffer { buffer, len }),
            None => None,
        }
    }

    pub fn len(&self) -> (r: usize)
        ensures
            r == self.spec_len(),
    {
        self.len
    }

    pub fn slice(&self) -> BufferSlice<'_> {
        self.buffer.slice()
    }

    /// Schedules raw index bytes to be written from the start.
    pub fn write(&self, data: &[u8])
        requires
            data@.len() % 4 == 0,
            data@.len() <= self.spec_buffer().spec_size(),
    {
        proof {
            use_type_invariant(self);
        }
        assert((16u32 | 8u32) & 8u32 != 0) by (bit_vector);
        self.buffer.write(0, data)
    }

    /// The index format of this buffer: 32-bit indices.
    pub fn index_format() -> IndexFormat {
        IndexFormat::default()
    }
}

impl IWgpuBuffer for WgpuIndexBuffer {
    fn buffer(&self) -> &Buffer {
        &self.buffer.buffer
    }
}

/// How a bound buffer is seen by shaders.
#[derive(Clone, Copy, Debug, PartialEq, Eq, Structural)]
pub enum BufferBindingKind {
    Uniform,
    Storage { read_only: bool },
}

/// A buffer bound to a bind group slot.
pub struct WgpuBindBuffer {
    buffer: WgpuBuffer,
    visibility: ShaderStages,
    binding_type: BufferBindingKind,
}

impl WgpuBindBuffer {
    pub closed spec fn spec_binding_type(&self) -> BufferBindingKind {
        self.binding_type
    }

    pub closed spec fn spec_buffer(&self) -> &WgpuBuffer {
        &self.buffer
    }

    pub closed spec fn spec_visibility(&self) -> ShaderStages {
        self.visibility
    }

    /// A buffer with uniform usage binds as a uniform; otherwise one with
    /// storage usage binds as storage, read-only as asked. None where the
    /// device grants no buffer of `size` bytes.
    pub fn new(
        wgpu: &Arc<Wgpu>,
        label: &str,
        size: u64,
        usage: u32,
        visibility: ShaderStages,
        read_only: bool,
    ) -> (r: Option<WgpuBindBuffer>)
        requires
            valid_usage(usage),
            usage & USAGE_UNIFORM != 0 || usage & USAGE_STORAGE != 0,
        ensures
            r is Some <==> size <= wgpu.spec_max_buffer_size(),
            r matches Some(b) ==> {
                &&& b.spec_buffer().spec_size() == size
                &&& b.spec_buffer().spec_usage() == usage
                &&& b.spec_visibility() == visibility
                &&& usage & USAGE_UNIFORM != 0 ==> b.spec_binding_type() == BufferBindingKind::Uniform
                &&& usage & USAGE_UNIFORM == 0 ==> b.spec_binding_type() == (BufferBindingKind::Storage {
                    read_only,
                })
            },
    {
        let buffer = match WgpuBuffer::new(wgpu, label, size, usage) {
            Some(buffer) => buffer,
            None => return None,
        };
        let binding_type = if usage & USAGE_UNIFORM != 0 {
            BufferBindingKind::Uniform
        } else {
            BufferBindingKind::Storage { read_only }
        };
        Some(WgpuBindBuffer { buffer, visibility, binding_type })
    }

    pub fn binding_type(&self) -> (r: BufferBindingKind)
        ensures
            r == self.spec_binding_type(),
    {
        self.binding_type
    }

    pub fn visibility(&self) -> (r: &ShaderStages)
        ensures
            *r == self.spec_visibility(),
    {
        &self.visibility
    }

    pub fn size(&self) -> (r: u64)
        ensures
            r == self.spec_buffer().spec_size(),
    {
        self.buffer.size()
    }

    pub fn usage(&self) -> (r: u32)
        ensures
            r == self.spec_buffer().spec_usage(),
    {
        self.buffer.usage()
    }

    /// Schedules `data` to be written at `offset`.
    pub fn write(&self, offset: u64, data: &[u8])
        requires
            offset % 4 == 0,
            data@.len() % 4 == 0,
            offset + data@.len() <= self.spec_buffer().spec_size(),
            self.spec_buffer().spec_usage() & USAGE_COPY_DST != 0,
    {
        self.buffer.write(offset, data)
    }
}

impl IWgpuBuffer for WgpuBindBuffer {
    fn buffer(&self) -> &Buffer {
        &self.buffer.buffer
    }
}

} // verus!
