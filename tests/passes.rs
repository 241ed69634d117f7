use render_core::backend::{BindError, Backend, Command, Stage};
use render_core::render_pass::{Operation, PassError, RenderPass};
use render_core::resource::{BindFlags, Format};
use render_core::shader::Shader;
use render_core::texture::{Tex2D, TextureDescBuilder};

fn texture(b: &mut Backend, flags: BindFlags) -> usize {
    Tex2D::new(
        b,
        TextureDescBuilder::new()
            .size([16, 16, 0])
            .mip_levels(1)
            .format(Format::R32G32B32A32Float)
            .bind_flags(flags)
            .build_texture2d(),
    )
    .unwrap()
    .texture
}

fn readable_target(b: &mut Backend) -> (usize, usize) {
    let t = texture(b, BindFlags { shader_resource: true, render_target: true, ..BindFlags::none() });
    (b.render_target_view(t).unwrap(), b.shader_resource_view(t).unwrap())
}

#[test]
fn execute_without_operation_is_a_configuration_error() {
    let mut b = Backend::new();
    let (rtv, _) = readable_target(&mut b);
    let pass = RenderPass::new().render_target(&b, rtv).clear_rtv(true);
    assert_eq!(pass.execute(&mut b, 3), Err(PassError::NotConfigured));
    assert!(b.commands.is_empty());
    assert!(b.render_targets.is_empty());
}

#[test]
fn compute_pass_without_targets_binds_before_dispatch() {
    let mut b = Backend::new();
    let buf = texture(&mut b, BindFlags { unordered_access: true, ..BindFlags::none() });
    let uav = b.unordered_access_view(buf).unwrap();
    let cs = Shader::compute_shader(&mut b, "fill.hlsl".to_owned(), "main".to_owned());
    let pass = RenderPass::new()
        .compute_shader(cs)
        .unordered_access_view(&b, uav)
        .execution(Operation::Dispatch { x: 4, y: 2, z: 1 });
    assert_eq!(pass.execute(&mut b, 0), Ok(()));
    let expected = vec![
        Command::SetRenderTargets { targets: vec![], depth: None },
        Command::UnbindAllWritable,
        Command::SetShader { stage: Stage::Compute, shader: Some(cs.handle()) },
        Command::SetSamplers { samplers: vec![] },
        Command::SetRenderTargets { targets: vec![], depth: None },
        Command::SetWritable { start_slot: 0, views: vec![uav] },
        Command::SetReadable { stage: Stage::Compute, start_slot: 0, views: vec![] },
        Command::Dispatch { x: 4, y: 2, z: 1 },
    ];
    assert_eq!(b.commands, expected);
    assert_eq!(b.writable[0], Some(uav));
}

#[test]
fn raster_pass_clears_then_draws() {
    let mut b = Backend::new();
    let (rtv, _) = readable_target(&mut b);
    let depth = texture(&mut b, BindFlags { depth_stencil: true, ..BindFlags::none() });
    let dsv = b.depth_stencil_view(depth).unwrap();
    let state = b.create_depth_stencil_state();
    let vs = Shader::vertex_shader(&mut b, "v.hlsl".to_owned(), "main".to_owned());
    let ps = Shader::pixel_shader(&mut b, "p.hlsl".to_owned(), "main".to_owned());
    let pass = RenderPass::new()
        .enable_depth(true)
        .depth_state(state)
        .depth_stencil_view(&b, dsv)
        .render_target(&b, rtv)
        .clear_rtv(true)
        .vertex_shader(&mut b, vs, vec![], 0)
        .pixel_shader(ps)
        .execution(Operation::DrawIndexed);
    let layout = pass.input_layout.unwrap();
    assert_eq!(pass.execute(&mut b, 36), Ok(()));
    let n = b.commands.len();
    assert_eq!(b.commands[n - 1], Command::DrawIndexed { index_count: 36 });
    assert_eq!(b.commands[n - 2], Command::ClearDepthStencil { view: dsv });
    assert_eq!(b.commands[n - 3], Command::ClearRenderTarget { view: rtv });
    assert_eq!(b.commands[n - 4], Command::SetInputLayout { layout });
    assert_eq!(b.commands[2], Command::SetDepthStencilState { state });
    assert_eq!(b.render_targets, vec![rtv]);
    assert_eq!(b.depth_view, Some(dsv));
}

#[test]
fn disabled_depth_binds_no_depth_view() {
    let mut b = Backend::new();
    let (rtv, _) = readable_target(&mut b);
    let depth = texture(&mut b, BindFlags { depth_stencil: true, ..BindFlags::none() });
    let dsv = b.depth_stencil_view(depth).unwrap();
    let pass = RenderPass::new()
        .depth_stencil_view(&b, dsv)
        .render_target(&b, rtv)
        .clear_rtv(true)
        .execution(Operation::Draw { vertex_count: 3 });
    assert_eq!(pass.execute(&mut b, 99), Ok(()));
    assert_eq!(b.depth_view, None);
    assert_eq!(*b.commands.last().unwrap(), Command::Draw { vertex_count: 3 });
    assert!(!b.commands.contains(&Command::ClearDepthStencil { view: dsv }));
}

#[test]
fn pass_reading_its_own_target_is_refused() {
    let mut b = Backend::new();
    let (rtv, srv) = readable_target(&mut b);
    let pass = RenderPass::new()
        .render_target(&b, rtv)
        .shader_resource(&b, srv)
        .execution(Operation::Draw { vertex_count: 6 });
    assert_eq!(pass.execute(&mut b, 0), Err(PassError::Hazard));
    assert!(!b.commands.iter().any(|c| matches!(c, Command::Draw { .. })));
}

#[test]
fn stale_readable_binding_blocks_render_target() {
    let mut b = Backend::new();
    let (rtv, srv) = readable_target(&mut b);
    assert_eq!(b.set_shader_resources(Stage::Pixel, 0, &vec![srv]), Ok(()));
    assert_eq!(b.set_render_targets(&vec![rtv], None), Err(BindError::Hazard));
    let pass = RenderPass::new().render_target(&b, rtv).execution(Operation::Draw { vertex_count: 6 });
    assert_eq!(pass.execute(&mut b, 0), Err(PassError::Hazard));
    b.unbind_shader_resources();
    assert_eq!(pass.execute(&mut b, 0), Ok(()));
    assert_eq!(b.render_targets, vec![rtv]);
}

#[test]
fn bound_target_cannot_become_readable() {
    let mut b = Backend::new();
    let (rtv, srv) = readable_target(&mut b);
    assert_eq!(b.set_render_targets(&vec![rtv], None), Ok(()));
    let before = b.commands.len();
    assert_eq!(b.set_shader_resources(Stage::Vertex, 0, &vec![srv]), Err(BindError::Hazard));
    assert_eq!(b.commands.len(), before);
    assert!(b.readable.iter().all(|s| s.is_none()));
    assert_eq!(b.set_render_targets(&vec![], None), Ok(()));
    assert_eq!(b.set_shader_resources(Stage::Vertex, 0, &vec![srv]), Ok(()));
    assert_eq!(b.readable[0], Some(srv));
}

#[test]
fn writable_and_readable_roles_exclude_each_other() {
    let mut b = Backend::new();
    let t = texture(&mut b, BindFlags { unordered_access: true, shader_resource: true, ..BindFlags::none() });
    let uav = b.unordered_access_view(t).unwrap();
    let srv = b.shader_resource_view(t).unwrap();
    assert_eq!(b.set_unordered_access_views(0, &vec![uav]), Ok(()));
    assert_eq!(b.set_shader_resources(Stage::Compute, 0, &vec![srv]), Err(BindError::Hazard));
    b.unbind_unordered_access_views();
    assert_eq!(b.set_shader_resources(Stage::Compute, 0, &vec![srv]), Ok(()));
    assert_eq!(b.set_unordered_access_views(0, &vec![uav]), Err(BindError::Hazard));
}

#[test]
fn builders_record_configuration() {
    let mut b = Backend::new();
    let (rtv, srv) = readable_target(&mut b);
    let (_, srv2) = readable_target(&mut b);
    let depth = texture(&mut b, BindFlags { depth_stencil: true, ..BindFlags::none() });
    let dsv = b.depth_stencil_view(depth).unwrap();
    let state = b.create_depth_stencil_state();
    let sampler = b.create_sampler_state();
    let p = RenderPass::new()
        .enable_depth(true)
        .depth_state(state)
        .depth_stencil_view(&b, dsv)
        .shader_resource(&b, srv)
        .shader_resource(&b, srv2)
        .render_target(&b, rtv)
        .sampler_state(sampler)
        .clear_rtv(true)
        .execution(Operation::DrawIndexed);
    assert!(p.depth_attachment.bind_depth_buffer);
    assert_eq!(p.depth_attachment.depth_state, Some(state));
    assert_eq!(p.depth_attachment.depth_view, Some(dsv));
    assert_eq!(p.shader_resources, vec![srv, srv2]);
    assert_eq!(p.render_targets, vec![rtv]);
    assert_eq!(p.sampler_states, vec![sampler]);
    assert!(p.clear_rtv);
    assert_eq!(p.execution, Some(Operation::DrawIndexed));
}

#[test]
fn stage_binders_fill_their_own_slots() {
    let mut b = Backend::new();
    let (_, srv) = readable_target(&mut b);
    assert_eq!(b.set_pixel_shader_attachments(&vec![srv], 2), Ok(()));
    assert_eq!(b.set_vertex_shader_attachments(&vec![srv, srv], 0), Ok(()));
    let slots = render_core::backend::READABLE_SLOTS;
    assert_eq!(b.readable[slots + 2], Some(srv));
    assert_eq!(b.readable[slots], None);
    assert_eq!(b.readable[0], Some(srv));
    assert_eq!(b.readable[1], Some(srv));
    assert_eq!(
        b.commands[1],
        Command::SetReadable { stage: Stage::Vertex, start_slot: 0, views: vec![srv, srv] }
    );
}
