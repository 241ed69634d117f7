//! Linear GPU buffers: vertex, index, constant and structured.
use vstd::prelude::*;
use crate::backend::{Backend, Cmd, DeviceObject, MapError};
use crate::resource::{
    aligned_size, constant_buffer_size, no_bind_flags, BindFlags, BufferDesc, CpuAccessFlags,
    MiscFlags, ResourceDesc, ResourceError, Usage,
};

verus! {

/// A created buffer: its description and its handle.
#[derive(Clone, Copy, Debug, PartialEq, Eq, Structural)]
pub struct GPUBuffer {
    pub desc: BufferDesc,
    pub buffer: usize,
}

/// A dynamic, CPU-written buffer of `size` bytes bound in the role `bind`.
pub open spec fn dynamic_desc(size: u32, bind: BindFlags) -> BufferDesc {
    BufferDesc {
        byte_width: size,
        usage: Usage::Dynamic,
        bind_flags: bind,
        cpu_access_flags: CpuAccessFlags { read: false, write: true },
        misc_flags: MiscFlags { generate_mips: false, buffer_structured: false },
        structure_byte_stride: 0,
    }
}

/// A structured buffer of `count` elements of `stride` bytes: GPU-computed
/// (readable and compute-writable) or CPU-updated (readable only).
pub open spec fn structured_desc(stride: u32, count: u32, gpu_write: bool) -> BufferDesc {
    BufferDesc {
        byte_width: (stride * count) as u32,
        usage: if gpu_write { Usage::Default } else { Usage::Dynamic },
        bind_flags: BindFlags { shader_resource: true, unordered_access: gpu_write, ..no_bind_flags() },
        cpu_access_flags: CpuAccessFlags { read: false, write: !gpu_write },
        misc_flags: MiscFlags { generate_mips: false, buffer_structured: true },
        structure_byte_stride: stride,
    }
}

/// What creating a buffer described by `desc` did, going from `old` to `new`.
pub open spec fn buffer_created(
    new: &Backend,
    old: &Backend,
    desc: BufferDesc,
    r: Result<GPUBuffer, ResourceError>,
) -> bool {
    &&& new.commands@ == old.commands@
    &&& new.same_bindings(old)
    &&& match ResourceDesc::Buffer(desc).creation_error() {
        Some(e) => r == Err::<GPUBuffer, ResourceError>(e) && new.objects@ == old.objects@,
        None => {
            &&& r matches Ok(b) && b.desc == desc && b.buffer == old.objects@.len()
            &&& new.objects@ == old.objects@.push(DeviceObject::Resource(ResourceDesc::Buffer(desc)))
        },
    }
}

impl GPUBuffer {
    /// Creates a buffer from its description.
    pub fn new(backend: &mut Backend, desc: BufferDesc) -> (r: Result<GPUBuffer, ResourceError>)
        requires
            old(backend).wf(),
        ensures
            final(backend).wf(),
            buffer_created(final(backend), old(backend), desc, r),
    {
        match backend.create_resource(ResourceDesc::Buffer(desc)) {
            Ok(buffer) => Ok(GPUBuffer { desc, buffer }),
            Err(e) => Err(e),
        }
    }

    /// A CPU-written vertex buffer of `size_bytes` bytes.
    pub fn vertex_buffer(backend: &mut Backend, size_bytes: u32) -> (r: Result<GPUBuffer, ResourceError>)
        requires
            old(backend).wf(),
        ensures
            final(backend).wf(),
            buffer_created(
                final(backend),
                old(backend),
                dynamic_desc(size_bytes, BindFlags { vertex_buffer: true, ..no_bind_flags() }),
                r,
            ),
    {
        let bind = BindFlags { vertex_buffer: true, ..BindFlags::none() };
        GPUBuffer::new(
            backend,
            BufferDesc {
                byte_width: size_bytes,
                usage: Usage::Dynamic,
                bind_flags: bind,
                cpu_access_flags: CpuAccessFlags { read: false, write: true },
                misc_flags: MiscFlags { generate_mips: false, buffer_structured: false },
                structure_byte_stride: 0,
            },
        )
    }

    /// A CPU-written index buffer of `size_bytes` bytes.
    pub fn index_buffer(backend: &mut Backend, size_bytes: u32) -> (r: Result<GPUBuffer, ResourceError>)
        requires
            old(backend).wf(),
        ensures
            final(backend).wf(),
            buffer_created(
                final(backend),
                old(backend),
                dynamic_desc(size_bytes, BindFlags { index_buffer: true, ..no_bind_flags() }),
                r,
            ),
    {
        let bind = BindFlags { index_buffer: true, ..BindFlags::none() };
        GPUBuffer::new(
            backend,
            BufferDesc {
                byte_width: size_bytes,
                usage: Usage::Dynamic,
                bind_flags: bind,
                cpu_access_flags: CpuAccessFlags { read: false, write: true },
                misc_flags: MiscFlags { generate_mips: false, buffer_structured: false },
                structure_byte_stride: 0,
            },
        )
    }

    /// A CPU-written constant buffer holding at least `size_bytes` bytes; its
    /// size is rounded up to a multiple of 16.
    pub fn constant_buffer(backend: &mut Backend, size_bytes: u32) -> (r: Result<GPUBuffer, ResourceError>)
        requires
            old(backend).wf(),
        ensures
            final(backend).wf(),
            aligned_size(size_bytes as nat) > u32::MAX ==> r == Err::<GPUBuffer, ResourceError>(
                ResourceError::SizeOverflow,
            ) && *final(backend) == *old(backend),
            aligned_size(size_bytes as nat) <= u32::MAX ==> buffer_created(
                final(backend),
                old(backend),
                dynamic_desc(
                    aligned_size(size_bytes as nat) as u32,
                    BindFlags { constant_buffer: true, ..no_bind_flags() },
                ),
                r,
            ),
    {
        let size = match constant_buffer_size(size_bytes) {
            Some(n) => n,
            None => { return Err(ResourceError::SizeOverflow); },
        };
        let bind = BindFlags { constant_buffer: true, ..BindFlags::none() };
        GPUBuffer::new(
            backend,
            BufferDesc {
                byte_width: size,
                usage: Usage::Dynamic,
                bind_flags: bind,
                cpu_access_flags: CpuAccessFlags { read: false, write: true },
                misc_flags: MiscFlags { generate_mips: false, buffer_structured: false },
                structure_byte_stride: 0,
            },
        )
    }

    /// A structured buffer of `num_elements` elements of `element_size` bytes.
    /// With `gpu_write` it is computed on the GPU and never CPU-writable;
    /// without, it is CPU-updated and only readable on the GPU.
    pub fn structured_buffer(
        backend: &mut Backend,
        element_size: u32,
        num_elements: u32,
        gpu_write: bool,
    ) -> (r: Result<GPUBuffer, ResourceError>)
        requires
            old(backend).wf(),
        ensures
            final(backend).wf(),
            element_size * num_elements > u32::MAX ==> r == Err::<GPUBuffer, ResourceError>(
                ResourceError::SizeOverflow,
            ) && *final(backend) == *old(backend),
            element_size * num_elements <= u32::MAX ==> buffer_created(
                final(backend),
                old(backend),
                structured_desc(element_size, num_elements, gpu_write),
                r,
            ),
    {
        let size = match element_size.checked_mul(num_elements) {
            Some(n) => n,
            None => { return Err(ResourceError::SizeOverflow); },
        };
        let bind = BindFlags { shader_resource: true, unordered_access: gpu_write, ..BindFlags::none() };
        GPUBuffer::new(
            backend,
            BufferDesc {
                byte_width: size,
                usage: if gpu_write { Usage::Default } else { Usage::Dynamic },
                bind_flags: bind,
                cpu_access_flags: CpuAccessFlags { read: false, write: !gpu_write },
                misc_flags: MiscFlags { generate_mips: false, buffer_structured: true },
                structure_byte_stride: element_size,
            },
        )
    }

    /// Maps the buffer for writing, copies `data` to its start and unmaps it;
    /// the mapping never outlives this call.
    pub fn map(&self, backend: &mut Backend, data: &[u8]) -> (r: Result<(), MapError>)
        requires
            old(backend).wf(),
            old(backend).is_resource(self.buffer as int),
            old(backend).resource_desc(self.buffer as int) == ResourceDesc::Buffer(self.desc),
        ensures
            final(backend).wf(),
            r == (if !self.desc.cpu_access_flags.write {
                Err::<(), MapError>(MapError::NotCpuWritable)
            } else if data@.len() > self.desc.byte_width {
                Err::<(), MapError>(MapError::TooLarge)
            } else {
                Ok::<(), MapError>(())
            }),
            r is Err ==> *final(backend) == *old(backend),
            r is Ok ==> {
                &&& final(backend).trace() == old(backend).trace().push(
                    Cmd::UpdateBuffer { buffer: self.buffer, data: data@ },
                )
                &&& final(backend).same_state(old(backend))
                &&& final(backend).contents@ == old(backend).contents@.update(self.buffer as int, final(backend).contents@[self.buffer as int])
                &&& final(backend).contents@[self.buffer as int]@ == data@
            },
    {
        backend.update_buffer(self.buffer, data)
    }
}

} // verus!
