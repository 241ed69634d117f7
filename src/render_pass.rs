//! A pass: the complete set of bindings for one raster or compute step, built
//! declaratively and re-bound in full every time it runs.
use vstd::prelude::*;
use crate::backend::{
    lemma_roles_exclusive, lemma_same_readable, DeviceObject, lemma_wf_sizes, slot_update, stage_base, Backend, BindError, Cmd, InputElement, Stage,
    READABLE_SLOTS, WRITABLE_SLOTS,
};
use crate::resource::ViewKind;
use crate::shader::Shader;

verus! {

/// Depth testing of a pass.
#[derive(Clone, Copy, Debug, PartialEq, Eq, Structural)]
pub struct DepthAttachment {
    pub bind_depth_buffer: bool,
    pub depth_state: Option<usize>,
    pub depth_view: Option<usize>,
}

/// The work a pass issues once it is bound.
#[derive(Clone, Copy, Debug, PartialEq, Eq, Structural)]
pub enum Operation {
    /// An indexed draw of as many indices as the draw argument says.
    DrawIndexed,
    /// A draw of a fixed number of vertices.
    Draw { vertex_count: u32 },
    /// A compute dispatch of `x * y * z` thread groups.
    Dispatch { x: u32, y: u32, z: u32 },
}

/// Why a pass did not run.
#[derive(Clone, Copy, Debug, PartialEq, Eq, Structural)]
pub enum PassError {
    /// No operation was attached.
    NotConfigured,
    /// A binding would give a resource a readable and a writable role at once.
    Hazard,
}

/// The configuration of a pass, with its lists as sequences.
pub struct PassModel {
    pub depth: DepthAttachment,
    pub input_layout: Option<usize>,
    pub vertex_stride: u32,
    pub shader_resources: Seq<usize>,
    pub render_targets: Seq<usize>,
    pub unordered_access_views: Seq<usize>,
    pub sampler_states: Seq<usize>,
    pub pixel_shader: Option<Shader>,
    pub vertex_shader: Option<Shader>,
    pub compute_shader: Option<Shader>,
    pub execution: Option<Operation>,
    pub clear_rtv: bool,
}

/// A raster or compute pass.
pub struct RenderPass {
    pub depth_attachment: DepthAttachment,
    pub input_layout: Option<usize>,
    pub vertex_stride: u32,
    pub shader_resources: Vec<usize>,
    pub render_targets: Vec<usize>,
    pub unordered_access_views: Vec<usize>,
    pub sampler_states: Vec<usize>,
    pub pixel_shader: Option<Shader>,
    pub vertex_shader: Option<Shader>,
    pub compute_shader: Option<Shader>,
    pub execution: Option<Operation>,
    pub clear_rtv: bool,
}

impl View for RenderPass {
    type V = PassModel;

    open spec fn view(&self) -> PassModel {
        PassModel {
            depth: self.depth_attachment,
            input_layout: self.input_layout,
            vertex_stride: self.vertex_stride,
            shader_resources: self.shader_resources@,
            render_targets: self.render_targets@,
            unordered_access_views: self.unordered_access_views@,
            sampler_states: self.sampler_states@,
            pixel_shader: self.pixel_shader,
            vertex_shader: self.vertex_shader,
            compute_shader: self.compute_shader,
            execution: self.execution,
            clear_rtv: self.clear_rtv,
        }
    }
}

pub open spec fn opt_cmd(c: Option<Cmd>) -> Seq<Cmd> {
    match c {
        Some(c) => seq![c],
        None => Seq::empty(),
    }
}

pub open spec fn shader_cmd(stage: Stage, s: Option<Shader>) -> Seq<Cmd> {
    opt_cmd(
        match s {
            Some(s) => Some(Cmd::SetShader { stage, shader: Some(s.program()) }),
            None => None,
        },
    )
}

impl PassModel {
    /// The depth-stencil view the pass draws with.
    pub open spec fn bound_depth(self) -> Option<usize> {
        if self.depth.bind_depth_buffer {
            self.depth.depth_view
        } else {
            None
        }
    }

    pub open spec fn is_compute(self) -> bool {
        self.compute_shader is Some
    }

    /// Every binding names a view of the right kind in `b`.
    pub open spec fn valid_in(self, b: &Backend) -> bool {
        &&& b.all_views(self.render_targets, ViewKind::RenderTarget)
        &&& (self.bound_depth() matches Some(d) ==> b.is_view(d as int, ViewKind::DepthStencil))
        &&& b.all_views(self.shader_resources, ViewKind::Readable)
        &&& b.all_views(self.unordered_access_views, ViewKind::Writable)
        &&& self.shader_resources.len() <= READABLE_SLOTS
        &&& self.unordered_access_views.len() <= WRITABLE_SLOTS
        &&& self.objects_valid_in(b)
    }

    /// The depth state, programs, samplers and input layout are objects of
    /// the right kind in `b`.
    pub open spec fn objects_valid_in(self, b: &Backend) -> bool {
        &&& (self.depth.bind_depth_buffer && self.depth.depth_state is Some ==> b.is_depth_state(
            self.depth.depth_state->0 as int,
        ))
        &&& (self.pixel_shader matches Some(s) ==> b.is_shader(s.program() as int, Stage::Pixel))
        &&& (self.vertex_shader matches Some(s) ==> b.is_shader(s.program() as int, Stage::Vertex))
        &&& (self.compute_shader matches Some(s) ==> b.is_shader(s.program() as int, Stage::Compute))
        &&& forall|i: int| 0 <= i < self.sampler_states.len() ==> b.is_sampler(#[trigger] self.sampler_states[i] as int)
        &&& (self.input_layout matches Some(l) ==> b.is_layout(l as int))
    }

    /// The pass itself writes resource `r` (render target, depth or compute-writable).
    pub open spec fn writes(self, b: &Backend, r: int) -> bool {
        ||| b.views_cover(self.render_targets, r)
        ||| b.holds(self.bound_depth(), r)
        ||| b.views_cover(self.unordered_access_views, r)
    }

    /// The pass reads a resource that it also writes.
    pub open spec fn reads_what_it_writes(self, b: &Backend) -> bool {
        exists|i: int|
            0 <= i < self.shader_resources.len() && #[trigger] self.writes(
                b,
                b.resource_of(self.shader_resources[i] as int),
            )
    }

    /// Binding the pass on `b` is refused: a target or writable view of the
    /// pass is still bound readable, or the pass reads what it writes.
    pub open spec fn bind_refused(self, b: &Backend) -> bool {
        ||| b.targets_conflict(self.render_targets, self.bound_depth())
        ||| b.any_readable(self.unordered_access_views)
        ||| self.reads_what_it_writes(b)
    }

    /// The commands that binding the pass issues, in order.
    pub open spec fn bind_cmds(self) -> Seq<Cmd> {
        self.reset_cmds() + self.attach_cmds()
    }

    /// Unbinding the previous destination and writable views, then depth
    /// state, programs and samplers.
    pub open spec fn reset_cmds(self) -> Seq<Cmd> {
        seq![Cmd::SetRenderTargets { targets: Seq::empty(), depth: None }, Cmd::UnbindAllWritable]
            + opt_cmd(
            if self.depth.bind_depth_buffer && self.depth.depth_state is Some {
                Some(Cmd::SetDepthStencilState { state: self.depth.depth_state->0 })
            } else {
                None
            },
        ) + shader_cmd(Stage::Pixel, self.pixel_shader) + shader_cmd(Stage::Vertex, self.vertex_shader)
            + shader_cmd(Stage::Compute, self.compute_shader) + seq![
            Cmd::SetSamplers { samplers: self.sampler_states },
        ]
    }

    /// Targets, writable views, readable views and input layout.
    pub open spec fn attach_cmds(self) -> Seq<Cmd> {
        seq![Cmd::SetRenderTargets { targets: self.render_targets, depth: self.bound_depth() }]
            + opt_cmd(
            if self.unordered_access_views.len() > 0 {
                Some(Cmd::SetWritable { start_slot: 0, views: self.unordered_access_views })
            } else {
                None
            },
        ) + self.readable_cmds() + opt_cmd(
            match self.input_layout {
                Some(l) => Some(Cmd::SetInputLayout { layout: l }),
                None => None,
            },
        )
    }

    /// Readable views go to the compute stage of a compute pass, and to both
    /// the pixel and the vertex stage of a raster pass.
    pub open spec fn readable_cmds(self) -> Seq<Cmd> {
        if self.is_compute() {
            seq![Cmd::SetReadable { stage: Stage::Compute, start_slot: 0, views: self.shader_resources }]
        } else {
            seq![
                Cmd::SetReadable { stage: Stage::Pixel, start_slot: 0, views: self.shader_resources },
                Cmd::SetReadable { stage: Stage::Vertex, start_slot: 0, views: self.shader_resources },
            ]
        }
    }

    /// The commands that clearing the pass issues.
    pub open spec fn clear_cmds(self) -> Seq<Cmd> {
        self.render_targets.map_values(|v: usize| Cmd::ClearRenderTarget { view: v }) + opt_cmd(
            match self.bound_depth() {
                Some(d) => Some(Cmd::ClearDepthStencil { view: d }),
                None => None,
            },
        )
    }

    /// The command that the operation issues for draw argument `arg`.
    pub open spec fn operation_cmd(self, arg: u32) -> Cmd {
        match self.execution->0 {
            Operation::DrawIndexed => Cmd::DrawIndexed { index_count: arg },
            Operation::Draw { vertex_count } => Cmd::Draw { vertex_count },
            Operation::Dispatch { x, y, z } => Cmd::Dispatch { x, y, z },
        }
    }

    /// Everything a successful `execute` with argument `arg` issues.
    pub open spec fn execute_cmds(self, arg: u32) -> Seq<Cmd> {
        self.bind_cmds() + (if self.clear_rtv {
            self.clear_cmds()
        } else {
            Seq::empty()
        }) + seq![self.operation_cmd(arg)]
    }
}

impl RenderPass {
    /// A pass with nothing attached.
    pub fn new() -> (p: RenderPass)
        ensures
            p@ == (PassModel {
                depth: DepthAttachment { bind_depth_buffer: false, depth_state: None, depth_view: None },
                input_layout: None,
                vertex_stride: 0,
                shader_resources: Seq::empty(),
                render_targets: Seq::empty(),
                unordered_access_views: Seq::empty(),
                sampler_states: Seq::empty(),
                pixel_shader: None,
                vertex_shader: None,
                compute_shader: None,
                execution: None,
                clear_rtv: false,
            }),
    {
        RenderPass {
            depth_attachment: DepthAttachment { bind_depth_buffer: false, depth_state: None, depth_view: None },
            input_layout: None,
            vertex_stride: 0,
            shader_resources: Vec::new(),
            render_targets: Vec::new(),
            unordered_access_views: Vec::new(),
            sampler_states: Vec::new(),
            pixel_shader: None,
            vertex_shader: None,
            compute_shader: None,
            execution: None,
            clear_rtv: false,
        }
    }

    pub fn enable_depth(self, enable_depth: bool) -> (p: RenderPass)
        ensures
            p@ == (PassModel { depth: DepthAttachment { bind_depth_buffer: enable_depth, ..self@.depth }, ..self@ }),
    {
        let mut p = self;
        p.depth_attachment.bind_depth_buffer = enable_depth;
        p
    }

    pub fn depth_state(self, depth_state: usize) -> (p: RenderPass)
        ensures
            p@ == (PassModel { depth: DepthAttachment { depth_state: Some(depth_state), ..self@.depth }, ..self@ }),
    {
        let mut p = self;
        p.depth_attachment.depth_state = Some(depth_state);
        p
    }

    pub fn depth_stencil_view(self, backend: &Backend, depth_stencil_view: usize) -> (p: RenderPass)
        requires
            backend.is_view(depth_stencil_view as int, ViewKind::DepthStencil),
        ensures
            p@ == (PassModel { depth: DepthAttachment { depth_view: Some(depth_stencil_view), ..self@.depth }, ..self@ }),
    {
        let mut p = self;
        p.depth_attachment.depth_view = Some(depth_stencil_view);
        p
    }

    /// Appends a readable binding.
    pub fn shader_resource(self, backend: &Backend, srv: usize) -> (p: RenderPass)
        requires
            backend.is_view(srv as int, ViewKind::Readable),
        ensures
            p@ == (PassModel { shader_resources: self@.shader_resources.push(srv), ..self@ }),
    {
        let mut p = self;
        p.shader_resources.push(srv);
        p
    }

    /// Appends a render target.
    pub fn render_target(self, backend: &Backend, rtv: usize) -> (p: RenderPass)
        requires
            backend.is_view(rtv as int, ViewKind::RenderTarget),
        ensures
            p@ == (PassModel { render_targets: self@.render_targets.push(rtv), ..self@ }),
    {
        let mut p = self;
        p.render_targets.push(rtv);
        p
    }

    /// Appends a compute-writable binding.
    pub fn unordered_access_view(self, backend: &Backend, uav: usize) -> (p: RenderPass)
        requires
            backend.is_view(uav as int, ViewKind::Writable),
        ensures
            p@ == (PassModel { unordered_access_views: self@.unordered_access_views.push(uav), ..self@ }),
    {
        let mut p = self;
        p.unordered_access_views.push(uav);
        p
    }

    /// Appends a sampler state.
    pub fn sampler_state(self, sampler_state: usize) -> (p: RenderPass)
        ensures
            p@ == (PassModel { sampler_states: self@.sampler_states.push(sampler_state), ..self@ }),
    {
        let mut p = self;
        p.sampler_states.push(sampler_state);
        p
    }

    /// Whether targets are cleared before the operation runs.
    pub fn clear_rtv(self, clear_rtv: bool) -> (p: RenderPass)
        ensures
            p@ == (PassModel { clear_rtv, ..self@ }),
    {
        let mut p = self;
        p.clear_rtv = clear_rtv;
        p
    }

    /// Attaches a vertex program and derives its input layout from
    /// `input_element_desc`.
    pub fn vertex_shader(
        self,
        backend: &mut Backend,
        shader: Shader,
        input_element_desc: Vec<InputElement>,
        vertex_stride: u32,
    ) -> (p: RenderPass)
        requires
            old(backend).wf(),
            shader is Vertex,
            old(backend).is_shader(shader.program() as int, Stage::Vertex),
        ensures
            final(backend).wf(),
            final(backend).commands@ == old(backend).commands@,
            final(backend).same_bindings(old(backend)),
            final(backend).objects@.len() == old(backend).objects@.len() + 1,
            final(backend).objects@.subrange(0, old(backend).objects@.len() as int) == old(backend).objects@,
            final(backend).objects@ == old(backend).objects@.push(
                DeviceObject::InputLayout { shader: shader.program(), elements: input_element_desc },
            ),
            p@ == (PassModel {
                vertex_shader: Some(shader),
                input_layout: Some(old(backend).objects@.len() as usize),
                vertex_stride,
                ..self@
            }),
    {
        let layout = backend.create_input_layout(shader.handle(), input_element_desc);
        assert(backend.objects@.subrange(0, layout as int) =~= old(backend).objects@);
        let mut p = self;
        p.vertex_shader = Some(shader);
        p.input_layout = Some(layout);
        p.vertex_stride = vertex_stride;
        p
    }

    /// Attaches a pixel program.
    pub fn pixel_shader(self, shader: Shader) -> (p: RenderPass)
        requires
            shader is Pixel,
        ensures
            p@ == (PassModel { pixel_shader: Some(shader), ..self@ }),
    {
        let mut p = self;
        p.pixel_shader = Some(shader);
        p
    }

    /// Attaches a compute program; the pass is then a compute pass.
    pub fn compute_shader(self, shader: Shader) -> (p: RenderPass)
        requires
            shader is Compute,
        ensures
            p@ == (PassModel { compute_shader: Some(shader), ..self@ }),
    {
        let mut p = self;
        p.compute_shader = Some(shader);
        p
    }

    /// Attaches the operation the pass runs once bound.
    pub fn execution(self, op: Operation) -> (p: RenderPass)
        ensures
            p@ == (PassModel { execution: Some(op), ..self@ }),
    {
        let mut p = self;
        p.execution = Some(op);
        p
    }
}

/// The writable slots after a pass bound `uavs`: those views from slot 0, nothing after.
pub open spec fn writable_after(uavs: Seq<usize>, slots: Seq<Option<usize>>) -> bool {
    &&& slots.len() == WRITABLE_SLOTS
    &&& forall|i: int|
        0 <= i < slots.len() ==> #[trigger] slots[i] == (if i < uavs.len() {
            Some(uavs[i])
        } else {
            None
        })
}

/// The readable slots after a pass bound its readable views over `old`.
pub open spec fn readable_after(p: PassModel, old: Seq<Option<usize>>) -> Seq<Option<usize>> {
    if p.is_compute() {
        slot_update(old, stage_base(Stage::Compute), p.shader_resources)
    } else {
        slot_update(
            slot_update(old, stage_base(Stage::Pixel), p.shader_resources),
            stage_base(Stage::Vertex),
            p.shader_resources,
        )
    }
}

/// Once the pass's targets and writable views are bound, a resource is bound
/// writable exactly when the pass writes it.
proof fn lemma_bound_writes(p: PassModel, b0: &Backend, b: &Backend)
    requires
        b.objects@ == b0.objects@,
        b.render_targets@ == p.render_targets,
        b.depth_view == p.bound_depth(),
        writable_after(p.unordered_access_views, b.writable@),
        p.unordered_access_views.len() <= WRITABLE_SLOTS,
    ensures
        forall|r: int| #[trigger] b.writable_bound(r) == p.writes(b0, r),
        forall|v: Seq<usize>| #[trigger] b.any_writable(v) == (exists|i: int| 0 <= i < v.len() && #[trigger] p.writes(b0, b0.resource_of(v[i] as int))),
{
    assert forall|r: int| #[trigger] b.writable_bound(r) == p.writes(b0, r) by {
        if b.views_cover(b.render_targets@, r) {
            let j = choose|j: int| 0 <= j < b.render_targets@.len() && b.resource_of(#[trigger] b.render_targets@[j] as int) == r;
            assert(b0.resource_of(p.render_targets[j] as int) == r);
        }
        if b0.views_cover(p.render_targets, r) {
            let j = choose|j: int| 0 <= j < p.render_targets.len() && b0.resource_of(#[trigger] p.render_targets[j] as int) == r;
            assert(b.resource_of(b.render_targets@[j] as int) == r);
        }
        if exists|j: int| 0 <= j < b.writable@.len() && #[trigger] b.holds(b.writable@[j], r) {
            let j = choose|j: int| 0 <= j < b.writable@.len() && #[trigger] b.holds(b.writable@[j], r);
            assert(b.writable@[j] == Some(p.unordered_access_views[j]));
            assert(b0.resource_of(p.unordered_access_views[j] as int) == r);
        }
        if b0.views_cover(p.unordered_access_views, r) {
            let j = choose|j: int| 0 <= j < p.unordered_access_views.len() && b0.resource_of(#[trigger] p.unordered_access_views[j] as int) == r;
            assert(b.writable@[j] == Some(p.unordered_access_views[j]));
            assert(b.holds(b.writable@[j], r));
        }
    }
    assert forall|v: Seq<usize>| #[trigger] b.any_writable(v) == (exists|i: int| 0 <= i < v.len() && #[trigger] p.writes(b0, b0.resource_of(v[i] as int))) by {
        if b.any_writable(v) {
            let i = choose|i: int| 0 <= i < v.len() && #[trigger] b.writable_bound(b.resource_of(v[i] as int));
            assert(p.writes(b0, b0.resource_of(v[i] as int)));
        }
        if exists|i: int| 0 <= i < v.len() && #[trigger] p.writes(b0, b0.resource_of(v[i] as int)) {
            let i = choose|i: int| 0 <= i < v.len() && #[trigger] p.writes(b0, b0.resource_of(v[i] as int));
            assert(b.writable_bound(b.resource_of(v[i] as int)));
        }
    }
}

impl RenderPass {
    /// Unbinds the previous destination and writable views, then binds depth
    /// state, programs and samplers.
    fn reset(&self, backend: &mut Backend)
        requires
            old(backend).wf(),
            self@.valid_in(old(backend)),
        ensures
            final(backend).wf(),
            final(backend).live@ == old(backend).live@,
            final(backend).objects@ == old(backend).objects@,
            final(backend).contents@ == old(backend).contents@,
            final(backend).readable@ == old(backend).readable@,
            final(backend).render_targets@.len() == 0,
            final(backend).depth_view is None,
            writable_after(Seq::empty(), final(backend).writable@),
            final(backend).trace() == old(backend).trace() + self@.reset_cmds(),
    {
        let ghost b0 = *backend;
        let ghost p = self@;
        proof { lemma_wf_sizes(&b0); }
        let empty: Vec<usize> = Vec::new();
        assert(!b0.targets_conflict(empty@, None));
        let _ = backend.set_render_targets(&empty, None);
        backend.unbind_unordered_access_views();
        let ghost mut acc: Seq<Cmd> = seq![Cmd::SetRenderTargets { targets: Seq::empty(), depth: None }, Cmd::UnbindAllWritable];
        assert(backend.trace() =~= b0.trace() + acc);
        if self.depth_attachment.bind_depth_buffer {
            if let Some(state) = self.depth_attachment.depth_state {
                backend.set_depth_stencil_state(state);
                proof { acc = acc.push(Cmd::SetDepthStencilState { state }); }
            }
        }
        assert(backend.trace() =~= b0.trace() + acc);
        assert(acc =~= seq![Cmd::SetRenderTargets { targets: Seq::empty(), depth: None }, Cmd::UnbindAllWritable] + opt_cmd(
            if p.depth.bind_depth_buffer && p.depth.depth_state is Some {
                Some(Cmd::SetDepthStencilState { state: p.depth.depth_state->0 })
            } else {
                None
            }));
        if let Some(s) = &self.pixel_shader {
            backend.set_shader(Stage::Pixel, Some(s.handle()));
        }
        let ghost acc1 = acc + shader_cmd(Stage::Pixel, p.pixel_shader);
        assert(backend.trace() =~= b0.trace() + acc1);
        if let Some(s) = &self.vertex_shader {
            backend.set_shader(Stage::Vertex, Some(s.handle()));
        }
        let ghost acc2 = acc1 + shader_cmd(Stage::Vertex, p.vertex_shader);
        assert(backend.trace() =~= b0.trace() + acc2);
        if let Some(s) = &self.compute_shader {
            backend.set_shader(Stage::Compute, Some(s.handle()));
        }
        let ghost acc3 = acc2 + shader_cmd(Stage::Compute, p.compute_shader);
        assert(backend.trace() =~= b0.trace() + acc3);
        assert forall|i: int| 0 <= i < self.sampler_states@.len() implies backend.is_sampler(#[trigger] self.sampler_states@[i] as int) by {
            assert(p.objects_valid_in(&b0));
            assert(p.sampler_states[i] == self.sampler_states@[i]);
            assert(b0.is_sampler(p.sampler_states[i] as int));
        }
        backend.set_sampler_states(&self.sampler_states);
        assert(backend.trace() =~= b0.trace() + p.reset_cmds());
    }

    /// Binds the pass's complete state, replacing whatever the previous pass
    /// left bound as render target or compute-writable: depth state, programs,
    /// samplers, targets, writable views, readable views, input layout.
    #[verifier::rlimit(60)]
    pub fn bind(&self, backend: &mut Backend) -> (r: Result<(), BindError>)
        requires
            old(backend).wf(),
            self@.valid_in(old(backend)),
        ensures
            final(backend).wf(),
            final(backend).live@ == old(backend).live@,
            final(backend).objects@ == old(backend).objects@,
            final(backend).contents@ == old(backend).contents@,
            r is Err <==> self@.bind_refused(old(backend)),
            r is Ok ==> {
                &&& final(backend).trace() == old(backend).trace() + self@.bind_cmds()
                &&& final(backend).render_targets@ == self@.render_targets
                &&& final(backend).depth_view == self@.bound_depth()
                &&& writable_after(self@.unordered_access_views, final(backend).writable@)
                &&& final(backend).readable@ == readable_after(self@, old(backend).readable@)
            },
            r is Err ==> exists|k: int|
                0 <= k <= self@.bind_cmds().len() && final(backend).trace() == old(backend).trace()
                    + #[trigger] self@.bind_cmds().subrange(0, k),
            r is Err ==> {
                &&& final(backend).readable@ == old(backend).readable@
                &&& ({
                    ||| (final(backend).render_targets@.len() == 0 && final(backend).depth_view is None
                        && writable_after(Seq::empty(), final(backend).writable@))
                    ||| (final(backend).render_targets@ == self@.render_targets
                        && final(backend).depth_view == self@.bound_depth() && (writable_after(
                        Seq::empty(),
                        final(backend).writable@,
                    ) || writable_after(self@.unordered_access_views, final(backend).writable@)))
                })
            },
    {
        let ghost b0 = *backend;
        let ghost p = self@;
        self.reset(backend);
        let ghost b5 = *backend;
        proof { lemma_same_readable(&b0, &b5); }
        let depth = if self.depth_attachment.bind_depth_buffer {
            self.depth_attachment.depth_view
        } else {
            None
        };
        proof {
            assert(p.bind_cmds().subrange(0, p.reset_cmds().len() as int) =~= p.reset_cmds());
        }
        match backend.set_render_targets(&self.render_targets, depth) {
            Err(e) => {
                assert(backend.trace() == b0.trace() + p.bind_cmds().subrange(0, p.reset_cmds().len() as int));
                return Err(e);
            },
            Ok(()) => {},
        }
        let ghost acc4 = p.reset_cmds() + seq![
            Cmd::SetRenderTargets { targets: p.render_targets, depth: p.bound_depth() },
        ];
        assert(backend.trace() =~= b0.trace() + acc4);
        assert(p.bind_cmds().subrange(0, acc4.len() as int) =~= acc4);
        if self.unordered_access_views.len() > 0 {
            let ghost b6 = *backend;
            proof { lemma_same_readable(&b0, &b6); }
            match backend.set_unordered_access_views(0, &self.unordered_access_views) {
                Err(e) => {
                    assert(backend.trace() == b0.trace() + p.bind_cmds().subrange(0, acc4.len() as int));
                    return Err(e);
                },
                Ok(()) => {},
            }
        } else {
            proof {
                let ghost b6 = *backend;
                lemma_same_readable(&b0, &b6);
                assert(!b0.any_readable(p.unordered_access_views));
            }
        }
        let ghost acc5 = acc4 + opt_cmd(
            if p.unordered_access_views.len() > 0 {
                Some(Cmd::SetWritable { start_slot: 0, views: p.unordered_access_views })
            } else {
                None
            });
        assert(backend.trace() =~= b0.trace() + acc5);
        assert(p.bind_cmds().subrange(0, acc5.len() as int) =~= acc5);
        assert(writable_after(p.unordered_access_views, backend.writable@));
        let ghost b7 = *backend;
        proof { lemma_bound_writes(p, &b0, &b7); }
        if self.compute_shader.is_some() {
            match backend.set_shader_resources(Stage::Compute, 0, &self.shader_resources) {
                Err(e) => {
                    assert(backend.trace() == b0.trace() + p.bind_cmds().subrange(0, acc5.len() as int));
                    return Err(e);
                },
                Ok(()) => {},
            }
        } else {
            match backend.set_shader_resources(Stage::Pixel, 0, &self.shader_resources) {
                Err(e) => {
                    assert(backend.trace() == b0.trace() + p.bind_cmds().subrange(0, acc5.len() as int));
                    return Err(e);
                },
                Ok(()) => {},
            }
            let ghost b8 = *backend;
            proof { lemma_bound_writes(p, &b0, &b8); }
            match backend.set_shader_resources(Stage::Vertex, 0, &self.shader_resources) {
                Err(e) => {
                    let ghost a = acc5.push(Cmd::SetReadable { stage: Stage::Pixel, start_slot: 0, views: p.shader_resources });
                    assert(backend.trace() =~= b0.trace() + a);
                    assert(p.bind_cmds().subrange(0, a.len() as int) =~= a);
                    return Err(e);
                },
                Ok(()) => {},
            }
        }
        let ghost acc6 = acc5 + p.readable_cmds();
        assert(backend.trace() =~= b0.trace() + acc6);
        if let Some(l) = self.input_layout {
            backend.set_input_layout(l);
        }
        let ghost acc7 = acc6 + opt_cmd(
            match p.input_layout {
                Some(l) => Some(Cmd::SetInputLayout { layout: l }),
                None => None,
            });
        assert(backend.trace() =~= b0.trace() + acc7);
        assert(acc7 =~= p.bind_cmds());
        assert(backend.readable@ =~= readable_after(p, b0.readable@));
        Ok(())
    }

    /// Clears every render target to opaque black, and the depth-stencil view
    /// when depth is enabled.
    pub fn clear(&self, backend: &mut Backend)
        requires
            old(backend).wf(),
            self@.valid_in(old(backend)),
        ensures
            final(backend).wf(),
            final(backend).same_state(old(backend)),
            final(backend).contents@ == old(backend).contents@,
            final(backend).trace() == old(backend).trace() + self@.clear_cmds(),
    {
        let ghost b0 = *backend;
        let ghost p = self@;
        let mut i: usize = 0;
        while i < self.render_targets.len()
            invariant
                b0.wf(),
                backend.wf(),
                p == self@,
                p.valid_in(&b0),
                i <= p.render_targets.len(),
                backend.same_state(&b0),
                backend.contents@ == b0.contents@,
                backend.trace() == b0.trace() + p.render_targets.subrange(0, i as int).map_values(
                    |v: usize| Cmd::ClearRenderTarget { view: v },
                ),
            decreases p.render_targets.len() - i,
        {
            let ghost before = backend.trace();
            backend.clear_render_target_view(self.render_targets[i]);
            i = i + 1;
            assert(p.render_targets.subrange(0, i as int).map_values(|v: usize| Cmd::ClearRenderTarget { view: v })
                =~= p.render_targets.subrange(0, i - 1).map_values(|v: usize| Cmd::ClearRenderTarget { view: v }).push(
                Cmd::ClearRenderTarget { view: p.render_targets[i - 1] }));
            assert(backend.trace() =~= b0.trace() + p.render_targets.subrange(0, i as int).map_values(
                |v: usize| Cmd::ClearRenderTarget { view: v }));
        }
        assert(p.render_targets.subrange(0, p.render_targets.len() as int) =~= p.render_targets);
        if self.depth_attachment.bind_depth_buffer {
            if let Some(d) = self.depth_attachment.depth_view {
                backend.clear_depth_stencil_view(d);
            }
        }
        assert(backend.trace() =~= b0.trace() + p.clear_cmds());
    }

    /// Binds the pass, clears its targets when its clear flag is set, then
    /// issues its operation with draw argument `num_vertices`. Fails without
    /// touching the context when no operation is attached.
    pub fn execute(&self, backend: &mut Backend, num_vertices: u32) -> (r: Result<(), PassError>)
        requires
            old(backend).wf(),
            self@.valid_in(old(backend)),
        ensures
            final(backend).wf(),
            final(backend).live@ == old(backend).live@,
            final(backend).objects@ == old(backend).objects@,
            final(backend).contents@ == old(backend).contents@,
            self@.execution is None ==> r == Err::<(), PassError>(PassError::NotConfigured) && *final(backend) == *old(backend),
            self@.execution is Some ==> (r is Err <==> self@.bind_refused(old(backend))),
            self@.execution is Some && r is Err ==> r == Err::<(), PassError>(PassError::Hazard),
            self@.execution is Some && r is Err ==> exists|k: int|
                0 <= k <= self@.bind_cmds().len() && final(backend).trace() == old(backend).trace()
                    + #[trigger] self@.bind_cmds().subrange(0, k),
            r is Ok ==> {
                &&& final(backend).trace() == old(backend).trace() + self@.execute_cmds(num_vertices)
                &&& final(backend).render_targets@ == self@.render_targets
                &&& final(backend).depth_view == self@.bound_depth()
                &&& writable_after(self@.unordered_access_views, final(backend).writable@)
                &&& final(backend).readable@ == readable_after(self@, old(backend).readable@)
            },
    {
        let op = match self.execution {
            None => { return Err(PassError::NotConfigured); },
            Some(op) => op,
        };
        let ghost b0 = *backend;
        let ghost p = self@;
        match self.bind(backend) {
            Err(_) => { return Err(PassError::Hazard); },
            Ok(()) => {},
        }
        let ghost b1 = *backend;
        if self.clear_rtv {
            self.clear(backend);
        }
        assert(backend.trace() =~= b0.trace() + p.bind_cmds() + (if p.clear_rtv { p.clear_cmds() } else { Seq::empty() }));
        match op {
            Operation::DrawIndexed => backend.draw_indexed(num_vertices),
            Operation::Draw { vertex_count } => backend.draw(vertex_count),
            Operation::Dispatch { x, y, z } => backend.dispatch(x, y, z),
        }
        assert(backend.trace() =~= b0.trace() + p.execute_cmds(num_vertices));
        Ok(())
    }
}

/// A pass always binds before its operation runs, whatever it binds (also
/// with no render target at all): the commands of a successful `execute`
/// start with the complete bind sequence and end with the operation.
pub proof fn lemma_bind_precedes_operation(p: PassModel, arg: u32)
    ensures
        p.execute_cmds(arg).len() > p.bind_cmds().len(),
        p.execute_cmds(arg).subrange(0, p.bind_cmds().len() as int) == p.bind_cmds(),
        p.execute_cmds(arg).last() == p.operation_cmd(arg),
{
    let cl = if p.clear_rtv { p.clear_cmds() } else { Seq::empty() };
    assert(p.execute_cmds(arg) == p.bind_cmds() + cl + seq![p.operation_cmd(arg)]);
    assert(p.execute_cmds(arg).subrange(0, p.bind_cmds().len() as int) =~= p.bind_cmds());
}

/// Once a pass is bound, everything it reads is bound readable in the stages
/// it uses, and nothing it reads is bound as a render target, depth-stencil
/// or writable view.
pub proof fn lemma_bound_pass_reads(p: PassModel, before: Seq<Option<usize>>, b: &Backend)
    requires
        b.wf(),
        p.valid_in(b),
        b.readable@ == readable_after(p, before),
        b.readable@.len() == 3 * READABLE_SLOTS,
    ensures
        forall|i: int|
            0 <= i < p.shader_resources.len() ==> {
                let r = b.resource_of(#[trigger] p.shader_resources[i] as int);
                &&& b.readable_bound(r)
                &&& !b.writable_bound(r)
                &&& !b.views_cover(b.render_targets@, r)
            },
{
    assert forall|i: int| 0 <= i < p.shader_resources.len() implies {
        let r = b.resource_of(#[trigger] p.shader_resources[i] as int);
        &&& b.readable_bound(r)
        &&& !b.writable_bound(r)
        &&& !b.views_cover(b.render_targets@, r)
    } by {
        let r = b.resource_of(p.shader_resources[i] as int);
        let base = if p.is_compute() { stage_base(Stage::Compute) } else { stage_base(Stage::Vertex) };
        assert(b.readable@[base + i] == Some(p.shader_resources[i]));
        assert(b.holds(b.readable@[base + i], r));
        lemma_roles_exclusive(b, r);
    }
}

impl RenderPass {
    /// Whether the pass writes resource `r` (render target, bound depth view
    /// or compute-writable view).
    pub fn writes_resource(&self, b: &Backend, r: usize) -> (w: bool)
        requires
            b.wf(),
            self@.valid_in(b),
        ensures
            w == self@.writes(b, r as int),
    {
        let mut i: usize = 0;
        while i < self.render_targets.len()
            invariant
                b.wf(),
                self@.valid_in(b),
                i <= self.render_targets@.len(),
                forall|j: int| 0 <= j < i ==> b.resource_of(#[trigger] self.render_targets@[j] as int) != r,
            decreases self.render_targets@.len() - i,
        {
            if let Some((res, _)) = b.view_info(self.render_targets[i]) {
                if res == r {
                    assert(b.views_cover(self@.render_targets, r as int));
                    return true;
                }
            }
            i = i + 1;
        }
        if self.depth_attachment.bind_depth_buffer {
            if let Some(d) = self.depth_attachment.depth_view {
                if let Some((res, _)) = b.view_info(d) {
                    if res == r {
                        return true;
                    }
                }
            }
        }
        let mut k: usize = 0;
        while k < self.unordered_access_views.len()
            invariant
                b.wf(),
                self@.valid_in(b),
                k <= self.unordered_access_views@.len(),
                forall|j: int| 0 <= j < k ==> b.resource_of(#[trigger] self.unordered_access_views@[j] as int) != r,
                !b.views_cover(self@.render_targets, r as int),
                !b.holds(self@.bound_depth(), r as int),
            decreases self.unordered_access_views@.len() - k,
        {
            if let Some((res, _)) = b.view_info(self.unordered_access_views[k]) {
                if res == r {
                    assert(b.views_cover(self@.unordered_access_views, r as int));
                    return true;
                }
            }
            k = k + 1;
        }
        false
    }
}

} // verus!
