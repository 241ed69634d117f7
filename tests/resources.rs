use render_core::backend::{Backend, DeviceObject, MapError};
use render_core::gpu_buffer::GPUBuffer;
use render_core::resource::{
    constant_buffer_size, BindFlags, BufferDesc, CpuAccessFlags, Format, MiscFlags, ResourceDesc,
    ResourceError, SampleDesc, Usage, ViewKind,
};
use render_core::texture::{Tex2D, TextureDescBuilder};

fn flags() -> BindFlags {
    BindFlags::none()
}

fn buffer_desc(cpu_write: bool, gpu_write: bool, size: u32) -> BufferDesc {
    BufferDesc {
        byte_width: size,
        usage: if gpu_write { Usage::Default } else { Usage::Dynamic },
        bind_flags: BindFlags { shader_resource: true, unordered_access: gpu_write, ..flags() },
        cpu_access_flags: CpuAccessFlags { read: false, write: cpu_write },
        misc_flags: MiscFlags { generate_mips: false, buffer_structured: false },
        structure_byte_stride: 0,
    }
}

#[test]
fn cpu_and_gpu_writable_buffer_is_refused() {
    let mut b = Backend::new();
    let r = GPUBuffer::new(&mut b, buffer_desc(true, true, 64));
    assert_eq!(r, Err(ResourceError::ConflictingAccess));
    assert_eq!(b.objects.len(), 0);
}

#[test]
fn cpu_and_gpu_writable_texture_is_refused() {
    let mut b = Backend::new();
    let desc = TextureDescBuilder::new()
        .size([4, 4, 0])
        .mip_levels(1)
        .bind_flags(BindFlags { unordered_access: true, shader_resource: true, ..flags() })
        .cpu_access_flags(CpuAccessFlags { read: false, write: true })
        .build_texture2d();
    assert_eq!(Tex2D::new(&mut b, desc), Err(ResourceError::ConflictingAccess));
    // The conflict is reported before the zero size.
    let zero = TextureDescBuilder::new()
        .bind_flags(BindFlags { unordered_access: true, ..flags() })
        .cpu_access_flags(CpuAccessFlags { read: false, write: true })
        .build_texture2d();
    assert_eq!(Tex2D::new(&mut b, zero), Err(ResourceError::ConflictingAccess));
}

#[test]
fn single_access_classes_are_accepted() {
    let mut b = Backend::new();
    assert!(GPUBuffer::new(&mut b, buffer_desc(true, false, 64)).is_ok());
    assert!(GPUBuffer::new(&mut b, buffer_desc(false, true, 64)).is_ok());
    assert_eq!(b.objects.len(), 2);
}

#[test]
fn structured_buffers_never_get_both_access_rights() {
    let mut b = Backend::new();
    let gpu = GPUBuffer::structured_buffer(&mut b, 12, 100, true).unwrap();
    assert!(gpu.desc.bind_flags.unordered_access);
    assert!(!gpu.desc.cpu_access_flags.write);
    assert_eq!(gpu.desc.byte_width, 1200);
    assert_eq!(gpu.desc.structure_byte_stride, 12);
    let cpu = GPUBuffer::structured_buffer(&mut b, 12, 100, false).unwrap();
    assert!(!cpu.desc.bind_flags.unordered_access);
    assert!(cpu.desc.cpu_access_flags.write);
    assert_eq!(cpu.desc.usage, Usage::Dynamic);
}

#[test]
fn structured_buffer_size_overflow() {
    let mut b = Backend::new();
    let r = GPUBuffer::structured_buffer(&mut b, 16, u32::MAX / 8, true);
    assert_eq!(r, Err(ResourceError::SizeOverflow));
    assert_eq!(b.objects.len(), 0);
}

#[test]
fn zero_sized_buffer_is_refused() {
    let mut b = Backend::new();
    assert_eq!(GPUBuffer::vertex_buffer(&mut b, 0), Err(ResourceError::ZeroSize));
    assert_eq!(GPUBuffer::constant_buffer(&mut b, 0), Err(ResourceError::ZeroSize));
}

#[test]
fn constant_sizes_round_up_to_sixteen() {
    assert_eq!(constant_buffer_size(0), Some(0));
    assert_eq!(constant_buffer_size(1), Some(16));
    assert_eq!(constant_buffer_size(15), Some(16));
    assert_eq!(constant_buffer_size(16), Some(16));
    assert_eq!(constant_buffer_size(17), Some(32));
    assert_eq!(constant_buffer_size(60), Some(64));
    assert_eq!(constant_buffer_size(64), Some(64));
    assert_eq!(constant_buffer_size(u32::MAX - 15), Some(u32::MAX - 15));
    assert_eq!(constant_buffer_size(u32::MAX - 14), None);
    assert_eq!(constant_buffer_size(u32::MAX), None);
    for n in 0..1000u32 {
        let a = constant_buffer_size(n).unwrap();
        assert_eq!(a % 16, 0);
        assert!(a >= n && a - n < 16);
    }
}

#[test]
fn constant_buffer_allocates_aligned_size() {
    let mut b = Backend::new();
    let c = GPUBuffer::constant_buffer(&mut b, 60).unwrap();
    assert_eq!(c.desc.byte_width, 64);
    assert!(c.desc.bind_flags.constant_buffer);
    assert!(c.desc.cpu_access_flags.write);
    assert_eq!(GPUBuffer::constant_buffer(&mut b, u32::MAX), Err(ResourceError::SizeOverflow));
}

#[test]
fn mapped_write_reads_back() {
    let mut b = Backend::new();
    let v = GPUBuffer::vertex_buffer(&mut b, 8).unwrap();
    let data = vec![1u8, 2, 3, 4, 5, 6, 7, 8];
    assert_eq!(v.map(&mut b, &data), Ok(()));
    assert_eq!(b.read_back(v.buffer), data);
    let shorter = vec![9u8, 9];
    assert_eq!(v.map(&mut b, &shorter), Ok(()));
    assert_eq!(b.read_back(v.buffer), shorter);
    assert_eq!(b.commands.len(), 2);
}

#[test]
fn gpu_written_buffer_cannot_be_mapped() {
    let mut b = Backend::new();
    let g = GPUBuffer::structured_buffer(&mut b, 4, 4, true).unwrap();
    assert_eq!(g.map(&mut b, &[1u8, 2]), Err(MapError::NotCpuWritable));
    assert!(b.read_back(g.buffer).is_empty());
    assert!(b.commands.is_empty());
}

#[test]
fn oversized_write_is_refused() {
    let mut b = Backend::new();
    let i = GPUBuffer::index_buffer(&mut b, 4).unwrap();
    assert_eq!(i.map(&mut b, &[0u8; 5]), Err(MapError::TooLarge));
    assert_eq!(i.map(&mut b, &[0u8; 4]), Ok(()));
}

#[test]
fn views_need_matching_bind_flags() {
    let mut b = Backend::new();
    let t = Tex2D::new(
        &mut b,
        TextureDescBuilder::new()
            .size([8, 8, 0])
            .mip_levels(1)
            .format(Format::R32G32B32A32Float)
            .bind_flags(BindFlags { shader_resource: true, ..flags() })
            .build_texture2d(),
    )
    .unwrap();
    assert_eq!(b.render_target_view(t.texture), Err(ResourceError::UnsupportedView));
    assert_eq!(b.unordered_access_view(t.texture), Err(ResourceError::UnsupportedView));
    assert_eq!(b.depth_stencil_view(t.texture), Err(ResourceError::UnsupportedView));
    let srv = b.shader_resource_view(t.texture).unwrap();
    assert_eq!(srv, 1);
    assert!(matches!(
        b.objects[srv],
        DeviceObject::View { resource: 0, kind: ViewKind::Readable }
    ));
}

#[test]
fn texture_builder_fields() {
    let b = TextureDescBuilder::new();
    assert_eq!(b.size, [0, 0, 0]);
    assert_eq!(b.array_size, 1);
    assert_eq!(b.sample_desc, SampleDesc { count: 1, quality: 0 });
    let d = b
        .size([256, 128, 32])
        .mip_levels(1)
        .array_size(2)
        .format(Format::R8G8B8A8UnormSrgb)
        .usage(Usage::Immutable)
        .sample_desc(SampleDesc { count: 4, quality: 1 })
        .misc_flags(MiscFlags { generate_mips: true, buffer_structured: false });
    let t2 = d.build_texture2d();
    assert_eq!((t2.width, t2.height, t2.array_size, t2.mip_levels), (256, 128, 2, 1));
    assert_eq!(t2.sample_desc, SampleDesc { count: 4, quality: 1 });
    assert!(t2.misc_flags.generate_mips);
    let t3 = d.build_texture3d();
    assert_eq!((t3.width, t3.height, t3.depth), (256, 128, 32));
    assert_eq!(t3.format, Format::R8G8B8A8UnormSrgb);
    let back: TextureDescBuilder = TextureDescBuilder::from(t2);
    assert_eq!(back.build_texture2d(), t2);
    assert_eq!(back.size, [256, 128, 0]);
}

#[test]
fn resource_validation_order() {
    let d = ResourceDesc::Buffer(buffer_desc(true, true, 0));
    assert_eq!(d.validate(), Some(ResourceError::ConflictingAccess));
    let d = ResourceDesc::Buffer(buffer_desc(true, false, 0));
    assert_eq!(d.validate(), Some(ResourceError::ZeroSize));
    let d = ResourceDesc::Buffer(buffer_desc(false, true, 4));
    assert_eq!(d.validate(), None);
    assert!(d.allows_view(ViewKind::Writable));
    assert!(!d.allows_view(ViewKind::RenderTarget));
}

#[test]
fn cpu_writable_default_usage_is_refused() {
    let mut b = Backend::new();
    let mut d = buffer_desc(true, false, 16);
    d.usage = Usage::Default;
    d.bind_flags = BindFlags { shader_resource: true, ..flags() };
    assert_eq!(GPUBuffer::new(&mut b, d), Err(ResourceError::ConflictingAccess));
    let tex = TextureDescBuilder::new()
        .size([4, 4, 0])
        .mip_levels(1)
        .bind_flags(BindFlags { shader_resource: true, ..flags() })
        .cpu_access_flags(CpuAccessFlags { read: false, write: true })
        .build_texture2d();
    assert_eq!(Tex2D::new(&mut b, tex), Err(ResourceError::ConflictingAccess));
    let dynamic = TextureDescBuilder::new()
        .size([4, 4, 0])
        .mip_levels(1)
        .usage(Usage::Dynamic)
        .bind_flags(BindFlags { shader_resource: true, ..flags() })
        .cpu_access_flags(CpuAccessFlags { read: false, write: true })
        .build_texture2d();
    assert!(Tex2D::new(&mut b, dynamic).is_ok());
    assert_eq!(b.objects.len(), 1);
}

#[test]
fn draining_commands_keeps_state() {
    let mut b = Backend::new();
    let v = GPUBuffer::vertex_buffer(&mut b, 4).unwrap();
    v.map(&mut b, &[1u8, 2]).unwrap();
    b.present();
    let taken = b.take_commands();
    assert_eq!(taken.len(), 2);
    assert!(b.commands.is_empty());
    assert_eq!(b.read_back(v.buffer), vec![1, 2]);
    assert_eq!(b.objects.len(), 1);
}
