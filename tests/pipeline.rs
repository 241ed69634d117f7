use render_core::backend::{Backend, Command, DeviceObject, Stage, READABLE_SLOTS};
use render_core::gpu_buffer::GPUBuffer;
use render_core::precompute::{
    precompute_schedule, precompute_textures, validate_schedule, AtmosphericConstants,
    PrecomputeStage,
};
use render_core::renderer::{BasicRenderer, Flag, GpuMesh, ObjectTransform, RendererError, SceneObject};
use render_core::resource::{BindFlags, Format, ResourceDesc, ResourceError};
use render_core::texture::{Tex2D, TextureDescBuilder};

fn resource_of(b: &Backend, v: usize) -> usize {
    match &b.objects[v] {
        DeviceObject::View { resource, .. } => *resource,
        _ => panic!("not a view"),
    }
}

#[test]
fn default_constants_are_earth_like() {
    let c = AtmosphericConstants::default();
    assert_eq!(f32::from_bits(c.atmos_bottom), 6360.0);
    assert_eq!(f32::from_bits(c.atmos_top), 6420.0);
    assert_eq!(f32::from_bits(c.h_r), 8.0);
    assert_eq!(f32::from_bits(c.h_m), 1.2);
    assert_eq!(f32::from_bits(c.mu_s_min), -0.2);
    assert_eq!(f32::from_bits(c.beta_rayleigh[0]), 5.8e-3);
    assert_eq!(f32::from_bits(c.beta_rayleigh[1]), 1.35e-2);
    assert_eq!(f32::from_bits(c.beta_rayleigh[2]), 3.31e-2);
    assert_eq!(f32::from_bits(c.wave_lengths[0]), 680.0);
    assert_eq!(f32::from_bits(c.solar_irradiance[2]), 1.0);
    assert_eq!(c.num_scattering, 0);
}

#[test]
fn constants_bytes_are_little_endian_words() {
    let c = AtmosphericConstants::default();
    let bytes = c.to_bytes();
    assert_eq!(bytes.len(), 60);
    assert_eq!(&bytes[0..4], &c.beta_rayleigh[0].to_le_bytes());
    assert_eq!(&bytes[12..16], &[0, 0, 0, 0]);
    assert_eq!(&bytes[44..48], &6360.0f32.to_le_bytes());
    assert_eq!(&bytes[56..60], &8.0f32.to_le_bytes());
}

#[test]
fn precompute_yields_table_textures() {
    let mut b = Backend::new();
    let (t, i, s) = precompute_textures(&mut b, AtmosphericConstants::default()).unwrap();
    assert_eq!((t.desc.width, t.desc.height), (256, 64));
    assert_eq!((i.desc.width, i.desc.height), (64, 16));
    assert_eq!((s.desc.width, s.desc.height, s.desc.depth), (256, 128, 32));
    assert_eq!(t.desc.format, Format::R32G32B32A32Float);
    assert!(matches!(&b.objects[t.texture], DeviceObject::Resource(ResourceDesc::Texture2D(d)) if *d == t.desc));
    assert!(matches!(&b.objects[s.texture], DeviceObject::Resource(ResourceDesc::Texture3D(d)) if *d == s.desc));
    assert!(b.readable.iter().all(|s| s.is_none()));
    assert!(b.writable.iter().all(|s| s.is_none()));
    let dispatches: Vec<(u32, u32, u32)> = b
        .commands
        .iter()
        .filter_map(|c| match c {
            Command::Dispatch { x, y, z } => Some((*x, *y, *z)),
            _ => None,
        })
        .collect();
    assert_eq!(
        dispatches,
        vec![(8, 64, 1), (2, 16, 1), (8, 128, 32), (8, 64, 1), (2, 16, 1), (8, 128, 32)]
    );
}

#[test]
fn precompute_uploads_the_constants() {
    let mut b = Backend::new();
    let c = AtmosphericConstants::default();
    precompute_textures(&mut b, c).unwrap();
    assert_eq!(b.read_back(0), c.to_bytes());
    assert!(matches!(&b.objects[0], DeviceObject::Resource(ResourceDesc::Buffer(d)) if d.byte_width == 64));
    assert_eq!(b.commands[0], Command::UpdateBuffer { buffer: 0, data: c.to_bytes() });
}

#[test]
fn transmittance_is_computed_before_its_readers() {
    let mut b = Backend::new();
    precompute_textures(&mut b, AtmosphericConstants::default()).unwrap();
    // Every dispatch that reads a buffer comes after the dispatch that wrote it.
    let mut written: Vec<usize> = Vec::new();
    let mut writing: Vec<usize> = Vec::new();
    let mut reading: Vec<usize> = Vec::new();
    for c in &b.commands {
        match c {
            Command::SetWritable { views, .. } => writing = views.iter().map(|v| resource_of(&b, *v)).collect(),
            Command::SetReadable { views, .. } => reading = views.iter().map(|v| resource_of(&b, *v)).collect(),
            Command::Dispatch { .. } => {
                for r in &reading {
                    assert!(written.contains(r));
                }
                written.extend(writing.iter().copied());
            },
            _ => {},
        }
    }
    assert!(!written.is_empty());
}

#[test]
fn precompute_is_repeatable() {
    let mut a = Backend::new();
    let mut b = Backend::new();
    let c = AtmosphericConstants::default();
    let ra = precompute_textures(&mut a, c).unwrap();
    let rb = precompute_textures(&mut b, c).unwrap();
    assert_eq!(ra, rb);
    assert_eq!(a.commands, b.commands);
}

#[test]
fn schedule_order_is_checked() {
    let good = precompute_schedule();
    assert_eq!(good.len(), 8);
    assert_eq!(good[0], PrecomputeStage::UploadConstants);
    assert_eq!(good[1], PrecomputeStage::Transmittance);
    assert_eq!(good[7], PrecomputeStage::Done);
    assert!(validate_schedule(&good));
    let early_irradiance = vec![
        PrecomputeStage::UploadConstants,
        PrecomputeStage::SingleIrradiance,
        PrecomputeStage::Transmittance,
    ];
    assert!(!validate_schedule(&early_irradiance));
    let early_inscatter = vec![
        PrecomputeStage::UploadConstants,
        PrecomputeStage::SingleInscatter,
        PrecomputeStage::Transmittance,
        PrecomputeStage::SingleIrradiance,
    ];
    assert!(!validate_schedule(&early_inscatter));
    let no_constants = vec![PrecomputeStage::Transmittance];
    assert!(!validate_schedule(&no_constants));
    assert!(validate_schedule(&vec![]));
    assert_eq!(PrecomputeStage::Done.next(), None);
    assert_eq!(PrecomputeStage::SingleInscatter.next(), Some(PrecomputeStage::CopyTransmittanceToTexture));
    assert_eq!(PrecomputeStage::Transmittance.dependencies(), vec![PrecomputeStage::UploadConstants]);
}

#[test]
fn renderer_needs_a_nonzero_size() {
    let mut b = Backend::new();
    assert!(matches!(
        BasicRenderer::new(&mut b, 0, 600),
        Err(RendererError::Resource(ResourceError::ZeroSize))
    ));
    assert!(b.objects.is_empty());
}

fn scene_object(b: &mut Backend) -> SceneObject {
    let albedo = Tex2D::new(
        b,
        TextureDescBuilder::new()
            .size([4, 4, 0])
            .mip_levels(1)
            .format(Format::R8G8B8A8UnormSrgb)
            .bind_flags(BindFlags { shader_resource: true, ..BindFlags::none() })
            .build_texture2d(),
    )
    .unwrap();
    let srv = b.shader_resource_view(albedo.texture).unwrap();
    let vertex_buffer = GPUBuffer::vertex_buffer(b, 96).unwrap();
    let index_buffer = GPUBuffer::index_buffer(b, 12).unwrap();
    let constants = GPUBuffer::constant_buffer(b, 64).unwrap();
    SceneObject {
        mesh: Some(GpuMesh { vertex_buffer, index_buffer, num_indices: 3 }),
        textures: vec![srv],
        flags: vec![Flag::Opaque],
        constants: constants.buffer,
    }
}

#[test]
fn frame_ends_with_gbuffer_readable_only() {
    let mut b = Backend::new();
    let renderer = BasicRenderer::new(&mut b, 800, 600).unwrap();
    let objects = vec![scene_object(&mut b), scene_object(&mut b)];
    let camera = GPUBuffer::constant_buffer(&mut b, 64).unwrap();
    let start = b.commands.len();
    assert_eq!(renderer.render(&mut b, &objects, camera.buffer), Ok(()));
    let frame = &b.commands[start..];
    let draws = frame.iter().filter(|c| matches!(c, Command::DrawIndexed { index_count: 3 })).count();
    assert_eq!(draws, 2);
    assert_eq!(frame[frame.len() - 1], Command::Present);
    assert_eq!(frame[frame.len() - 2], Command::Draw { vertex_count: 6 });

    let gbuffer = [renderer.gbuffer.position, renderer.gbuffer.albedo, renderer.gbuffer.normal];
    let gbuffer_resources: Vec<usize> = gbuffer.iter().map(|v| resource_of(&b, *v)).collect();
    // Bound as the combination pass left things: the back buffer is the only target.
    assert_eq!(b.render_targets, vec![renderer.backbuffer_rtv]);
    for r in &gbuffer_resources {
        assert!(b.render_targets.iter().all(|t| resource_of(&b, *t) != *r));
    }
    // The G-buffer is readable in the pixel stage, slots 0 to 2.
    for k in 0..3 {
        let v = b.readable[READABLE_SLOTS + k].unwrap();
        assert_eq!(resource_of(&b, v), gbuffer_resources[k]);
    }
    // In the trace: the last destination bound before the full-screen draw is
    // the back buffer, and the G-buffer views are bound readable after it.
    let last_targets = frame
        .iter()
        .rposition(|c| matches!(c, Command::SetRenderTargets { targets, .. } if !targets.is_empty()))
        .unwrap();
    assert_eq!(
        frame[last_targets],
        Command::SetRenderTargets { targets: vec![renderer.backbuffer_rtv], depth: None }
    );
    let readable_after = frame[last_targets..].iter().any(|c| match c {
        Command::SetReadable { views, .. } => views.len() == 6 && views[..3].iter().map(|v| resource_of(&b, *v)).eq(gbuffer_resources.iter().copied()),
        _ => false,
    });
    assert!(readable_after);
}

#[test]
fn gbuffer_pass_runs_for_opaque_meshes_only() {
    let mut b = Backend::new();
    let renderer = BasicRenderer::new(&mut b, 64, 64).unwrap();
    let mut transparent = scene_object(&mut b);
    transparent.flags = vec![Flag::Transparent];
    let mut no_mesh = scene_object(&mut b);
    no_mesh.mesh = None;
    let opaque = scene_object(&mut b);
    assert!(opaque.has_flag(Flag::Opaque));
    assert!(!transparent.has_flag(Flag::Opaque));
    let objects = vec![transparent, no_mesh, opaque];
    let camera = GPUBuffer::constant_buffer(&mut b, 64).unwrap().buffer;
    let start = b.commands.len();
    assert_eq!(renderer.render(&mut b, &objects, camera), Ok(()));
    let draws = b.commands[start..].iter().filter(|c| matches!(c, Command::DrawIndexed { .. })).count();
    assert_eq!(draws, 1);
}

#[test]
fn frame_trace_has_one_segment_per_drawn_object() {
    let mut b = Backend::new();
    let renderer = BasicRenderer::new(&mut b, 32, 32).unwrap();
    let mut hidden = scene_object(&mut b);
    hidden.flags = vec![Flag::Light];
    let drawn = scene_object(&mut b);
    let mesh = drawn.mesh.unwrap();
    let objects = vec![hidden, drawn];
    let camera = GPUBuffer::constant_buffer(&mut b, 64).unwrap().buffer;
    b.take_commands();
    renderer.render(&mut b, &objects, camera).unwrap();
    let c = &b.commands;
    assert_eq!(c[0], Command::SetConstantBuffer { stage: Stage::Vertex, slot: 0, buffer: camera });
    assert_eq!(c[1], Command::SetConstantBuffer { stage: Stage::Pixel, slot: 0, buffer: camera });
    assert_eq!(c[2], Command::UnbindAllReadable);
    assert_eq!(c[3], Command::SetConstantBuffer { stage: Stage::Vertex, slot: 3, buffer: objects[1].constants });
    assert_eq!(c[5], Command::SetIndexBuffer { buffer: mesh.index_buffer.buffer });
    assert_eq!(c[6], Command::SetReadable { stage: Stage::Pixel, start_slot: 0, views: objects[1].textures.clone() });
    assert_eq!(c[7], Command::SetVertexBuffer { buffer: mesh.vertex_buffer.buffer, stride: 32 });
    assert_eq!(c.iter().filter(|x| matches!(x, Command::UnbindAllReadable)).count(), 2);
}

#[test]
fn acceptance_matches_the_renderer_rules() {
    let mut b = Backend::new();
    let renderer = BasicRenderer::new(&mut b, 16, 16).unwrap();
    let ok = scene_object(&mut b);
    assert!(renderer.accepts_object(&b, &ok));
    let mut wrong_constants = scene_object(&mut b);
    wrong_constants.constants = wrong_constants.mesh.unwrap().vertex_buffer.buffer;
    assert!(!renderer.accepts_object(&b, &wrong_constants));
    let mut bad = scene_object(&mut b);
    bad.textures = vec![renderer.gbuffer.position];
    assert!(!renderer.accepts_object(&b, &bad));
    let mut target_read = scene_object(&mut b);
    // a readable view of a G-buffer texture, which the write pass renders to
    let gbuffer_resource = resource_of(&b, renderer.gbuffer.albedo);
    let srv = b.shader_resource_view(gbuffer_resource).unwrap();
    target_read.textures = vec![srv];
    assert!(!renderer.accepts_object(&b, &target_read));
    target_read.flags = vec![Flag::Transparent];
    assert!(renderer.accepts_object(&b, &target_read));
}

#[test]
fn transform_uploads_only_when_dirty() {
    let mut b = Backend::new();
    let c = GPUBuffer::constant_buffer(&mut b, 64).unwrap();
    let mut t = ObjectTransform { constants: c, dirty: true };
    assert_eq!(t.upload(&mut b, &[7u8; 64]), Ok(()));
    assert!(!t.dirty);
    assert_eq!(b.read_back(c.buffer), vec![7u8; 64]);
    assert_eq!(t.upload(&mut b, &[9u8; 64]), Ok(()));
    assert_eq!(b.read_back(c.buffer), vec![7u8; 64]);
    assert_eq!(b.commands.len(), 1);
    t.dirty = true;
    assert!(t.upload(&mut b, &[0u8; 65]).is_err());
    assert!(t.dirty);
}

#[test]
fn image_texture_description() {
    let d = render_core::renderer::image_texture_desc(640, 480);
    assert_eq!((d.width, d.height, d.mip_levels), (640, 480, 0));
    assert_eq!(d.format, Format::R8G8B8A8UnormSrgb);
    assert!(d.misc_flags.generate_mips);
    assert!(d.bind_flags.shader_resource && d.bind_flags.render_target);
    assert!(!d.cpu_access_flags.write);
}

#[test]
fn precompute_releases_its_scratch_objects() {
    let mut b = Backend::new();
    let (t, i, s) = precompute_textures(&mut b, AtmosphericConstants::default()).unwrap();
    assert_eq!(b.objects.len(), 25);
    let live: Vec<usize> = (0..25).filter(|h| b.live[*h]).collect();
    assert_eq!(live, vec![t.texture, i.texture, s.texture]);
    assert_eq!((t.texture, i.texture, s.texture), (16, 19, 22));
    let released = b.commands.iter().filter(|c| matches!(c, Command::Release { .. })).count();
    assert_eq!(released, 22);
    let last_dispatch = b.commands.iter().rposition(|c| matches!(c, Command::Dispatch { .. })).unwrap();
    assert!(b.commands[last_dispatch + 1..].iter().any(|c| *c == Command::Release { handle: 0 }));
}

#[test]
fn released_objects_must_be_unbound() {
    let mut b = Backend::new();
    let v = GPUBuffer::vertex_buffer(&mut b, 4).unwrap();
    b.release(v.buffer);
    assert!(!b.live[v.buffer]);
    assert_eq!(b.commands, vec![Command::Release { handle: v.buffer }]);
}
