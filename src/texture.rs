//! Texture descriptions, assembled with a builder.
use vstd::prelude::*;
use crate::backend::{Backend, DeviceObject};
use crate::resource::{
    BindFlags, CpuAccessFlags, Format, MiscFlags, ResourceDesc, ResourceError, SampleDesc,
    Texture2DDesc, Texture3DDesc, Usage, no_bind_flags,
};

verus! {

/// Builds 2D and 3D texture descriptions one field at a time.
#[derive(Clone, Copy, Debug)]
pub struct TextureDescBuilder {
    pub size: [u32; 3],
    pub mip_levels: u32,
    pub array_size: u32,
    pub format: Format,
    pub sample_desc: SampleDesc,
    pub usage: Usage,
    pub bind_flags: BindFlags,
    pub cpu_access_flags: CpuAccessFlags,
    pub misc_flags: MiscFlags,
}

pub open spec fn no_cpu_access() -> CpuAccessFlags {
    CpuAccessFlags { read: false, write: false }
}

pub open spec fn no_misc_flags() -> MiscFlags {
    MiscFlags { generate_mips: false, buffer_structured: false }
}

impl TextureDescBuilder {
    /// Zero size and mips, one array slice, unknown format, one sample,
    /// default usage, no flags.
    pub fn new() -> (b: TextureDescBuilder)
        ensures
            b.size@ == seq![0u32, 0u32, 0u32],
            b.mip_levels == 0,
            b.array_size == 1,
            b.format == Format::Unknown,
            b.sample_desc == (SampleDesc { count: 1, quality: 0 }),
            b.usage == Usage::Default,
            b.bind_flags == no_bind_flags(),
            b.cpu_access_flags == no_cpu_access(),
            b.misc_flags == no_misc_flags(),
    {
        let b = TextureDescBuilder {
            size: [0, 0, 0],
            mip_levels: 0,
            array_size: 1,
            format: Format::Unknown,
            sample_desc: SampleDesc { count: 1, quality: 0 },
            usage: Usage::Default,
            bind_flags: BindFlags::none(),
            cpu_access_flags: CpuAccessFlags { read: false, write: false },
            misc_flags: MiscFlags { generate_mips: false, buffer_structured: false },
        };
        assert(b.size@ =~= seq![0u32, 0u32, 0u32]);
        b
    }

    /// Width, height and depth.
    pub fn size(self, size: [u32; 3]) -> (b: TextureDescBuilder)
        ensures
            b == (TextureDescBuilder { size, ..self }),
    {
        TextureDescBuilder { size, ..self }
    }

    pub fn mip_levels(self, mip_levels: u32) -> (b: TextureDescBuilder)
        ensures
            b == (TextureDescBuilder { mip_levels, ..self }),
    {
        TextureDescBuilder { mip_levels, ..self }
    }

    pub fn array_size(self, array_size: u32) -> (b: TextureDescBuilder)
        ensures
            b == (TextureDescBuilder { array_size, ..self }),
    {
        TextureDescBuilder { array_size, ..self }
    }

    pub fn format(self, format: Format) -> (b: TextureDescBuilder)
        ensures
            b == (TextureDescBuilder { format, ..self }),
    {
        TextureDescBuilder { format, ..self }
    }

    pub fn sample_desc(self, sample_desc: SampleDesc) -> (b: TextureDescBuilder)
        ensures
            b == (TextureDescBuilder { sample_desc, ..self }),
    {
        TextureDescBuilder { sample_desc, ..self }
    }

    pub fn usage(self, usage: Usage) -> (b: TextureDescBuilder)
        ensures
            b == (TextureDescBuilder { usage, ..self }),
    {
        TextureDescBuilder { usage, ..self }
    }

    pub fn bind_flags(self, bind_flags: BindFlags) -> (b: TextureDescBuilder)
        ensures
            b == (TextureDescBuilder { bind_flags, ..self }),
    {
        TextureDescBuilder { bind_flags, ..self }
    }

    pub fn cpu_access_flags(self, cpu_access_flags: CpuAccessFlags) -> (b: TextureDescBuilder)
        ensures
            b == (TextureDescBuilder { cpu_access_flags, ..self }),
    {
        TextureDescBuilder { cpu_access_flags, ..self }
    }

    pub fn misc_flags(self, misc_flags: MiscFlags) -> (b: TextureDescBuilder)
        ensures
            b == (TextureDescBuilder { misc_flags, ..self }),
    {
        TextureDescBuilder { misc_flags, ..self }
    }

    pub open spec fn spec_texture2d(self) -> Texture2DDesc {
        Texture2DDesc {
            width: self.size@[0],
            height: self.size@[1],
            mip_levels: self.mip_levels,
            array_size: self.array_size,
            format: self.format,
            sample_desc: self.sample_desc,
            usage: self.usage,
            bind_flags: self.bind_flags,
            cpu_access_flags: self.cpu_access_flags,
            misc_flags: self.misc_flags,
        }
    }

    pub open spec fn spec_texture3d(self) -> Texture3DDesc {
        Texture3DDesc {
            width: self.size@[0],
            height: self.size@[1],
            depth: self.size@[2],
            mip_levels: self.mip_levels,
            format: self.format,
            usage: self.usage,
            bind_flags: self.bind_flags,
            cpu_access_flags: self.cpu_access_flags,
            misc_flags: self.misc_flags,
        }
    }

    /// The 2D description: width and height from the first two sizes.
    pub fn build_texture2d(&self) -> (d: Texture2DDesc)
        ensures
            d == self.spec_texture2d(),
    {
        Texture2DDesc {
            width: self.size[0],
            height: self.size[1],
            mip_levels: self.mip_levels,
            array_size: self.array_size,
            format: self.format,
            sample_desc: self.sample_desc,
            usage: self.usage,
            bind_flags: self.bind_flags,
            cpu_access_flags: self.cpu_access_flags,
            misc_flags: self.misc_flags,
        }
    }

    /// The 3D description: width, height and depth from the three sizes.
    pub fn build_texture3d(&self) -> (d: Texture3DDesc)
        ensures
            d == self.spec_texture3d(),
    {
        Texture3DDesc {
            width: self.size[0],
            height: self.size[1],
            depth: self.size[2],
            mip_levels: self.mip_levels,
            format: self.format,
            usage: self.usage,
            bind_flags: self.bind_flags,
            cpu_access_flags: self.cpu_access_flags,
            misc_flags: self.misc_flags,
        }
    }
}

impl From<Texture2DDesc> for TextureDescBuilder {
    fn from(desc: Texture2DDesc) -> (b: TextureDescBuilder) {
        TextureDescBuilder {
            size: [desc.width, desc.height, 0],
            mip_levels: desc.mip_levels,
            array_size: desc.array_size,
            format: desc.format,
            sample_desc: desc.sample_desc,
            usage: desc.usage,
            bind_flags: desc.bind_flags,
            cpu_access_flags: desc.cpu_access_flags,
            misc_flags: desc.misc_flags,
        }
    }
}

impl vstd::std_specs::convert::FromSpecImpl<Texture2DDesc> for TextureDescBuilder {
    open spec fn obeys_from_spec() -> bool {
        true
    }

    open spec fn from_spec(desc: Texture2DDesc) -> TextureDescBuilder {
        TextureDescBuilder {
            size: [desc.width, desc.height, 0],
            mip_levels: desc.mip_levels,
            array_size: desc.array_size,
            format: desc.format,
            sample_desc: desc.sample_desc,
            usage: desc.usage,
            bind_flags: desc.bind_flags,
            cpu_access_flags: desc.cpu_access_flags,
            misc_flags: desc.misc_flags,
        }
    }
}

/// What creating a resource described by `desc` did, going from `old` to
/// `new`; on success the new handle is `h`.
pub open spec fn resource_created(
    new: &Backend,
    old: &Backend,
    desc: ResourceDesc,
    r: Result<usize, ResourceError>,
) -> bool {
    &&& new.commands@ == old.commands@
    &&& new.same_bindings(old)
    &&& match desc.creation_error() {
        Some(e) => r == Err::<usize, ResourceError>(e) && new.objects@ == old.objects@,
        None => {
            &&& r matches Ok(h) && h == old.objects@.len()
            &&& new.objects@ == old.objects@.push(DeviceObject::Resource(desc))
        },
    }
}

/// A created 2D texture: its handle and its description.
#[derive(Clone, Copy, Debug, PartialEq, Eq, Structural)]
pub struct Tex2D {
    pub texture: usize,
    pub desc: Texture2DDesc,
}

/// A created 3D texture: its handle and its description.
#[derive(Clone, Copy, Debug, PartialEq, Eq, Structural)]
pub struct Tex3D {
    pub texture: usize,
    pub desc: Texture3DDesc,
}

impl Tex2D {
    /// Creates a 2D texture.
    pub fn new(backend: &mut Backend, desc: Texture2DDesc) -> (r: Result<Tex2D, ResourceError>)
        requires
            old(backend).wf(),
        ensures
            final(backend).wf(),
            resource_created(
                final(backend),
                old(backend),
                ResourceDesc::Texture2D(desc),
                match r {
                    Ok(t) => Ok(t.texture),
                    Err(e) => Err(e),
                },
            ),
            r matches Ok(t) ==> t.desc == desc,
    {
        match backend.create_resource(ResourceDesc::Texture2D(desc)) {
            Ok(texture) => Ok(Tex2D { texture, desc }),
            Err(e) => Err(e),
        }
    }
}

impl Tex3D {
    /// Creates a 3D texture.
    pub fn new(backend: &mut Backend, desc: Texture3DDesc) -> (r: Result<Tex3D, ResourceError>)
        requires
            old(backend).wf(),
        ensures
            final(backend).wf(),
            resource_created(
                final(backend),
                old(backend),
                ResourceDesc::Texture3D(desc),
                match r {
                    Ok(t) => Ok(t.texture),
                    Err(e) => Err(e),
                },
            ),
            r matches Ok(t) ==> t.desc == desc,
    {
        match backend.create_resource(ResourceDesc::Texture3D(desc)) {
            Ok(texture) => Ok(Tex3D { texture, desc }),
            Err(e) => Err(e),
        }
    }
}

} // verus!
