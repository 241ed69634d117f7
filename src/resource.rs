//! Descriptions of GPU resources and the rules that creation enforces.
use vstd::prelude::*;

verus! {

/// Minimum alignment, in bytes, of a constant (uniform) buffer's size.
pub const CONSTANT_ALIGNMENT: u32 = 16;

/// Element or pixel format of a resource.
#[derive(Clone, Copy, Debug, PartialEq, Eq, Structural)]
pub enum Format {
    Unknown,
    R32G32B32A32Float,
    R32G32B32Float,
    R32G32Float,
    R32Uint,
    R8G8B8A8Unorm,
    R8G8B8A8UnormSrgb,
    D24UnormS8Uint,
}

/// Usage class of a resource.
#[derive(Clone, Copy, Debug, PartialEq, Eq, Structural)]
pub enum Usage {
    /// GPU read and write.
    Default,
    /// GPU read only, filled at creation.
    Immutable,
    /// GPU read, CPU written per frame.
    Dynamic,
    /// CPU read-back copy.
    Staging,
}

/// The roles a resource may later be bound in.
#[derive(Clone, Copy, Debug, PartialEq, Eq, Structural)]
pub struct BindFlags {
    pub vertex_buffer: bool,
    pub index_buffer: bool,
    pub constant_buffer: bool,
    pub shader_resource: bool,
    pub unordered_access: bool,
    pub render_target: bool,
    pub depth_stencil: bool,
}

/// CPU access granted to a resource.
#[derive(Clone, Copy, Debug, PartialEq, Eq, Structural)]
pub struct CpuAccessFlags {
    pub read: bool,
    pub write: bool,
}

/// Miscellaneous creation options.
#[derive(Clone, Copy, Debug, PartialEq, Eq, Structural)]
pub struct MiscFlags {
    pub generate_mips: bool,
    pub buffer_structured: bool,
}

/// Multisampling of a texture.
#[derive(Clone, Copy, Debug, PartialEq, Eq, Structural)]
pub struct SampleDesc {
    pub count: u32,
    pub quality: u32,
}

/// Description of a linear buffer.
#[derive(Clone, Copy, Debug, PartialEq, Eq, Structural)]
pub struct BufferDesc {
    pub byte_width: u32,
    pub usage: Usage,
    pub bind_flags: BindFlags,
    pub cpu_access_flags: CpuAccessFlags,
    pub misc_flags: MiscFlags,
    pub structure_byte_stride: u32,
}

/// Description of a 2D texture.
#[derive(Clone, Copy, Debug, PartialEq, Eq, Structural)]
pub struct Texture2DDesc {
    pub width: u32,
    pub height: u32,
    pub mip_levels: u32,
    pub array_size: u32,
    pub format: Format,
    pub sample_desc: SampleDesc,
    pub usage: Usage,
    pub bind_flags: BindFlags,
    pub cpu_access_flags: CpuAccessFlags,
    pub misc_flags: MiscFlags,
}

/// Description of a 3D texture.
#[derive(Clone, Copy, Debug, PartialEq, Eq, Structural)]
pub struct Texture3DDesc {
    pub width: u32,
    pub height: u32,
    pub depth: u32,
    pub mip_levels: u32,
    pub format: Format,
    pub usage: Usage,
    pub bind_flags: BindFlags,
    pub cpu_access_flags: CpuAccessFlags,
    pub misc_flags: MiscFlags,
}

/// Any GPU resource description.
#[derive(Clone, Copy, Debug, PartialEq, Eq, Structural)]
pub enum ResourceDesc {
    Buffer(BufferDesc),
    Texture2D(Texture2DDesc),
    Texture3D(Texture3DDesc),
}

/// The role a view gives to the resource under it.
#[derive(Clone, Copy, Debug, PartialEq, Eq, Structural)]
pub enum ViewKind {
    RenderTarget,
    DepthStencil,
    /// Sampling-only access from a shader stage.
    Readable,
    /// General read-write access from a compute shader.
    Writable,
}

/// Why a resource or view could not be created.
#[derive(Clone, Copy, Debug, PartialEq, Eq, Structural)]
pub enum ResourceError {
    /// Both CPU-writable and GPU-writable were asked for.
    ConflictingAccess,
    /// A dimension or the byte size is zero.
    ZeroSize,
    /// The byte size does not fit in 32 bits.
    SizeOverflow,
    /// The resource was not created with the bind flag the view needs.
    UnsupportedView,
}

pub open spec fn no_bind_flags() -> BindFlags {
    BindFlags {
        vertex_buffer: false,
        index_buffer: false,
        constant_buffer: false,
        shader_resource: false,
        unordered_access: false,
        render_target: false,
        depth_stencil: false,
    }
}

impl BindFlags {
    /// No role at all.
    pub fn none() -> (r: BindFlags)
        ensures
            r == no_bind_flags(),
    {
        BindFlags {
            vertex_buffer: false,
            index_buffer: false,
            constant_buffer: false,
            shader_resource: false,
            unordered_access: false,
            render_target: false,
            depth_stencil: false,
        }
    }
}

impl ResourceDesc {
    pub open spec fn bind_flags(self) -> BindFlags {
        match self {
            ResourceDesc::Buffer(d) => d.bind_flags,
            ResourceDesc::Texture2D(d) => d.bind_flags,
            ResourceDesc::Texture3D(d) => d.bind_flags,
        }
    }

    pub open spec fn cpu_access(self) -> CpuAccessFlags {
        match self {
            ResourceDesc::Buffer(d) => d.cpu_access_flags,
            ResourceDesc::Texture2D(d) => d.cpu_access_flags,
            ResourceDesc::Texture3D(d) => d.cpu_access_flags,
        }
    }

    /// The CPU may map the resource for writing.
    pub open spec fn cpu_writable(self) -> bool {
        self.cpu_access().write
    }

    pub open spec fn usage(self) -> Usage {
        match self {
            ResourceDesc::Buffer(d) => d.usage,
            ResourceDesc::Texture2D(d) => d.usage,
            ResourceDesc::Texture3D(d) => d.usage,
        }
    }

    /// The resource belongs to the GPU-written class: default usage (GPU
    /// computed), or bindable as a compute-writable target.
    pub open spec fn gpu_writable(self) -> bool {
        self.usage() == Usage::Default || self.bind_flags().unordered_access
    }

    /// Some dimension (or the byte size) is zero.
    pub open spec fn has_zero_size(self) -> bool {
        match self {
            ResourceDesc::Buffer(d) => d.byte_width == 0,
            ResourceDesc::Texture2D(d) => d.width == 0 || d.height == 0,
            ResourceDesc::Texture3D(d) => d.width == 0 || d.height == 0 || d.depth == 0,
        }
    }

    /// What `create` decides for this description: `None` when it is accepted.
    pub open spec fn creation_error(self) -> Option<ResourceError> {
        if self.cpu_writable() && self.gpu_writable() {
            Some(ResourceError::ConflictingAccess)
        } else if self.has_zero_size() {
            Some(ResourceError::ZeroSize)
        } else {
            None
        }
    }

    /// The resource was created with the bind flag that a view of `kind` needs.
    pub open spec fn supports(self, kind: ViewKind) -> bool {
        let f = self.bind_flags();
        match kind {
            ViewKind::RenderTarget => f.render_target,
            ViewKind::DepthStencil => f.depth_stencil,
            ViewKind::Readable => f.shader_resource,
            ViewKind::Writable => f.unordered_access,
        }
    }

    /// Checks a description against the creation rules.
    pub fn validate(&self) -> (r: Option<ResourceError>)
        ensures
            r == self.creation_error(),
    {
        let (flags, usage, cpu, zero) = match self {
            ResourceDesc::Buffer(d) => (d.bind_flags, d.usage, d.cpu_access_flags, d.byte_width == 0),
            ResourceDesc::Texture2D(d) => (
                d.bind_flags,
                d.usage,
                d.cpu_access_flags,
                d.width == 0 || d.height == 0,
            ),
            ResourceDesc::Texture3D(d) => (
                d.bind_flags,
                d.usage,
                d.cpu_access_flags,
                d.width == 0 || d.height == 0 || d.depth == 0,
            ),
        };
        if cpu.write && (usage == Usage::Default || flags.unordered_access) {
            Some(ResourceError::ConflictingAccess)
        } else if zero {
            Some(ResourceError::ZeroSize)
        } else {
            None
        }
    }

    /// Whether a view of `kind` may be created over this resource.
    pub fn allows_view(&self, kind: ViewKind) -> (r: bool)
        ensures
            r == self.supports(kind),
    {
        let f = match self {
            ResourceDesc::Buffer(d) => d.bind_flags,
            ResourceDesc::Texture2D(d) => d.bind_flags,
            ResourceDesc::Texture3D(d) => d.bind_flags,
        };
        match kind {
            ViewKind::RenderTarget => f.render_target,
            ViewKind::DepthStencil => f.depth_stencil,
            ViewKind::Readable => f.shader_resource,
            ViewKind::Writable => f.unordered_access,
        }
    }
}

/// `size` rounded up to the next multiple of the constant-buffer alignment.
pub open spec fn aligned_size(size: nat) -> nat {
    ((size + 15) / 16 * 16) as nat
}

/// Rounds a constant-buffer size up to a multiple of 16 bytes; `None` when the
/// rounded size does not fit in 32 bits.
pub fn constant_buffer_size(size_bytes: u32) -> (r: Option<u32>)
    ensures
        r.is_some() <==> aligned_size(size_bytes as nat) <= u32::MAX,
        r matches Some(n) ==> n as nat == aligned_size(size_bytes as nat),
{
    if size_bytes > u32::MAX - 15 {
        None
    } else {
        let n = (size_bytes + 15) / CONSTANT_ALIGNMENT * CONSTANT_ALIGNMENT;
        Some(n)
    }
}

/// The size handed to the device for a constant buffer is a multiple of 16,
/// at least the size asked for, and less than 16 bytes larger.
pub proof fn lemma_constant_size_rounding(size: nat)
    ensures
        aligned_size(size) % 16 == 0,
        aligned_size(size) >= size,
        aligned_size(size) < size + 16,
        size % 16 == 0 ==> aligned_size(size) == size,
{
}

} // verus!
