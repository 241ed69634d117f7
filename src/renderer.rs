//! The deferred frame renderer: one G-buffer write pass per visible opaque
//! object, then one combination pass that samples the G-buffer and the sky
//! tables into the back buffer.
use vstd::prelude::*;
use crate::backend::{
    lemma_extends_keeps, lemma_wf_sizes, Backend, BufferRole, Cmd, InputElement, Stage,
    READABLE_SLOTS,
};
use crate::gpu_buffer::GPUBuffer;
use crate::precompute::{
    earth_constants, lut_desc2d, release_cmds, scratch_handles, lut_desc3d, precompute_cmds, precompute_textures, AtmosphericConstants,
    PrecomputeError, INSCATTER_DEPTH, INSCATTER_HEIGHT, INSCATTER_WIDTH, IRRADIANCE_HEIGHT,
    IRRADIANCE_WIDTH, TRANSMITTANCE_HEIGHT, TRANSMITTANCE_WIDTH,
};
use crate::render_pass::{lemma_bound_pass_reads, Operation, PassError, PassModel, RenderPass, readable_after};
use crate::resource::{BindFlags, Format, ResourceDesc, ResourceError, ViewKind, no_bind_flags};
use crate::shader::Shader;
use crate::texture::{Tex2D, TextureDescBuilder};

verus! {

/// Constant-buffer slot of the per-frame (camera) constants.
pub const FRAME_CONSTANTS: u32 = 0;
/// Constant-buffer slot of the per-material constants.
pub const MATERIAL_CONSTANTS: u32 = 1;
/// Constant-buffer slot of the per-object constants.
pub const OBJECT_CONSTANTS: u32 = 3;

/// Bytes of one mesh vertex: position, normal (three floats each) and
/// texture coordinates (two floats).
pub const VERTEX_STRIDE: u32 = 32;

/// Vertices of the full-screen quad the combination pass draws.
pub const FULLSCREEN_VERTICES: u32 = 6;

/// A capability of a scene object.
#[derive(Clone, Copy, Debug, PartialEq, Eq, Structural)]
pub enum Flag {
    Opaque,
    Transparent,
    Light,
}

/// A mesh uploaded to the GPU.
#[derive(Clone, Copy, Debug, PartialEq, Eq, Structural)]
pub struct GpuMesh {
    pub vertex_buffer: GPUBuffer,
    pub index_buffer: GPUBuffer,
    pub num_indices: u32,
}

/// An object of the scene: what it can be drawn with, and how.
pub struct SceneObject {
    pub mesh: Option<GpuMesh>,
    /// Readable views of the object's textures, bound from slot 0.
    pub textures: Vec<usize>,
    pub flags: Vec<Flag>,
    /// The object's constant buffer (its transform).
    pub constants: usize,
}

impl SceneObject {
    /// The renderer draws the object: it is opaque and has a mesh.
    pub open spec fn drawn(&self) -> bool {
        self.flags@.contains(Flag::Opaque) && self.mesh is Some
    }

    /// Whether the object carries `flag`.
    pub fn has_flag(&self, flag: Flag) -> (r: bool)
        ensures
            r == self.flags@.contains(flag),
    {
        let mut i: usize = 0;
        while i < self.flags.len()
            invariant
                i <= self.flags@.len(),
                forall|j: int| 0 <= j < i ==> self.flags@[j] != flag,
            decreases self.flags@.len() - i,
        {
            if self.flags[i] == flag {
                return true;
            }
            i = i + 1;
        }
        false
    }
}

/// Why the renderer could not be built.
#[derive(Clone, Copy, Debug, PartialEq, Eq, Structural)]
pub enum RendererError {
    Resource(ResourceError),
    Precompute(PrecomputeError),
}

/// The render-target views of the G-buffer.
#[derive(Clone, Copy, Debug, PartialEq, Eq, Structural)]
pub struct GBufferRTV {
    pub albedo: usize,
    pub position: usize,
    pub normal: usize,
}

/// The deferred renderer and the passes it owns.
pub struct BasicRenderer {
    pub backbuffer: Tex2D,
    pub backbuffer_rtv: usize,
    pub depth_stencil_view: usize,
    pub depth_state: usize,
    pub gbuffer: GBufferRTV,
    pub gbuffer_write_pass: RenderPass,
    pub combination_pass: RenderPass,
}

impl BasicRenderer {
    /// The passes are well-formed in `b`, the write pass reads nothing and
    /// draws indexed, the combination pass reads nothing it writes and draws
    /// the full-screen quad.
    pub open spec fn valid_in(&self, b: &Backend) -> bool {
        let g = self.gbuffer_write_pass@;
        let c = self.combination_pass@;
        &&& g.valid_in(b)
        &&& c.valid_in(b)
        &&& g.shader_resources.len() == 0
        &&& g.unordered_access_views.len() == 0
        &&& g.compute_shader is None
        &&& g.execution == Some(Operation::DrawIndexed)
        &&& c.unordered_access_views.len() == 0
        &&& c.compute_shader is None
        &&& c.execution == Some(Operation::Draw { vertex_count: FULLSCREEN_VERTICES })
        &&& !c.reads_what_it_writes(b)
        &&& c.render_targets == seq![self.backbuffer_rtv]
        &&& g.render_targets == seq![self.gbuffer.position, self.gbuffer.albedo, self.gbuffer.normal]
        &&& c.shader_resources.len() == 6
        &&& forall|k: int| 0 <= k < 3 ==> b.resource_of(#[trigger] c.shader_resources[k] as int) == b.resource_of(g.render_targets[k] as int)
    }

    /// Resource `r` is written by one of the renderer's passes.
    pub open spec fn writes(&self, b: &Backend, r: int) -> bool {
        self.gbuffer_write_pass@.writes(b, r) || self.combination_pass@.writes(b, r)
    }
}

/// Binding the per-frame camera constants to both stages.
pub open spec fn camera_cmds(camera: usize) -> Seq<Cmd> {
    seq![
        Cmd::SetConstantBuffer { stage: Stage::Vertex, slot: FRAME_CONSTANTS, buffer: camera },
        Cmd::SetConstantBuffer { stage: Stage::Pixel, slot: FRAME_CONSTANTS, buffer: camera },
    ]
}

/// Binding one object: its constants to both stages, its index buffer, its
/// textures from pixel slot 0, its vertex buffer.
pub open spec fn object_bind_cmds(o: SceneObject, m: GpuMesh) -> Seq<Cmd> {
    seq![
        Cmd::SetConstantBuffer { stage: Stage::Vertex, slot: OBJECT_CONSTANTS, buffer: o.constants },
        Cmd::SetConstantBuffer { stage: Stage::Pixel, slot: OBJECT_CONSTANTS, buffer: o.constants },
        Cmd::SetIndexBuffer { buffer: m.index_buffer.buffer },
        Cmd::SetReadable { stage: Stage::Pixel, start_slot: 0, views: o.textures@ },
        Cmd::SetVertexBuffer { buffer: m.vertex_buffer.buffer, stride: VERTEX_STRIDE },
    ]
}

/// What one object contributes to a frame: nothing unless it is drawn; else
/// every readable view unbound, the object bound, and the G-buffer write
/// pass run over its indices.
pub open spec fn object_cmds(g: PassModel, o: SceneObject) -> Seq<Cmd> {
    if o.drawn() {
        seq![Cmd::UnbindAllReadable] + object_bind_cmds(o, o.mesh->0) + g.execute_cmds(o.mesh->0.num_indices)
    } else {
        Seq::empty()
    }
}

/// The objects' contributions, in order.
pub open spec fn objects_cmds(g: PassModel, objects: Seq<SceneObject>) -> Seq<Cmd>
    decreases objects.len(),
{
    if objects.len() == 0 {
        Seq::empty()
    } else {
        objects_cmds(g, objects.drop_last()) + object_cmds(g, objects.last())
    }
}

/// The end of a frame: every readable view unbound, the combination pass
/// run, the back buffer presented.
pub open spec fn combine_cmds(c: PassModel) -> Seq<Cmd> {
    seq![Cmd::UnbindAllReadable] + c.execute_cmds(FULLSCREEN_VERTICES) + seq![Cmd::Present]
}

/// All readable slots are empty.
pub open spec fn no_readable(n: nat) -> Seq<Option<usize>> {
    Seq::new(n, |i: int| None::<usize>)
}

impl BasicRenderer {
    /// The object may be drawn on `b` by this renderer: its textures are
    /// readable views of resources that no pass of the renderer writes and
    /// that are not bound writable.
    pub open spec fn accepts(&self, b: &Backend, o: &SceneObject) -> bool {
        o.drawn() ==> {
            &&& b.is_buffer_for(o.constants as int, BufferRole::Constant)
            &&& b.is_buffer_for(o.mesh->0.vertex_buffer.buffer as int, BufferRole::Vertex)
            &&& b.is_buffer_for(o.mesh->0.index_buffer.buffer as int, BufferRole::Index)
            &&& b.all_views(o.textures@, ViewKind::Readable)
            &&& o.textures@.len() <= READABLE_SLOTS
            &&& forall|i: int|
                0 <= i < o.textures@.len() ==> !self.writes(b, b.resource_of(#[trigger] o.textures@[i] as int))
                    && !b.writable_bound(b.resource_of(o.textures@[i] as int))
        }
    }

    /// Binds one object's constants, index buffer, textures and vertex buffer.
    fn bind_object(backend: &mut Backend, object: &SceneObject, mesh: &GpuMesh)
        requires
            old(backend).wf(),
            old(backend).is_buffer_for(object.constants as int, BufferRole::Constant),
            old(backend).is_buffer_for(mesh.vertex_buffer.buffer as int, BufferRole::Vertex),
            old(backend).is_buffer_for(mesh.index_buffer.buffer as int, BufferRole::Index),
            old(backend).all_views(object.textures@, ViewKind::Readable),
            object.textures@.len() <= READABLE_SLOTS,
            forall|i: int| 0 <= i < object.textures@.len() ==> !old(backend).writable_bound(old(backend).resource_of(#[trigger] object.textures@[i] as int)),
        ensures
            final(backend).wf(),
            final(backend).objects@ == old(backend).objects@,
            final(backend).render_targets@ == old(backend).render_targets@,
            final(backend).depth_view == old(backend).depth_view,
            final(backend).writable@ == old(backend).writable@,
            final(backend).readable@ == crate::backend::slot_update(old(backend).readable@, crate::backend::stage_base(Stage::Pixel), object.textures@),
            final(backend).trace() == old(backend).trace() + object_bind_cmds(*object, *mesh),
    {
        let ghost t0 = backend.trace();
        backend.set_constant_buffer(Stage::Vertex, OBJECT_CONSTANTS, object.constants);
        backend.set_constant_buffer(Stage::Pixel, OBJECT_CONSTANTS, object.constants);
        backend.set_index_buffer(mesh.index_buffer.buffer);
        let ghost b = *backend;
        assert(!b.any_writable(object.textures@)) by {
            if b.any_writable(object.textures@) {
                let i = choose|i: int| 0 <= i < object.textures@.len() && #[trigger] b.writable_bound(b.resource_of(object.textures@[i] as int));
                let r = b.resource_of(object.textures@[i] as int);
                assert(!old(backend).writable_bound(r));
                if b.views_cover(b.render_targets@, r) {
                    let j = choose|j: int| 0 <= j < b.render_targets@.len() && b.resource_of(#[trigger] b.render_targets@[j] as int) == r;
                    assert(old(backend).views_cover(old(backend).render_targets@, r));
                }
                if exists|j: int| 0 <= j < b.writable@.len() && #[trigger] b.holds(b.writable@[j], r) {
                    let j = choose|j: int| 0 <= j < b.writable@.len() && #[trigger] b.holds(b.writable@[j], r);
                    assert(old(backend).holds(old(backend).writable@[j], r));
                }
            }
        }
        let _ = backend.set_shader_resources(Stage::Pixel, 0, &object.textures);
        backend.set_vertex_buffer(mesh.vertex_buffer.buffer, VERTEX_STRIDE);
        assert(backend.trace() =~= t0 + object_bind_cmds(*object, *mesh));
    }

    /// Renders one frame: binds the camera constants, then for each opaque
    /// object with a mesh unbinds every readable view, binds the object and
    /// runs the G-buffer write pass over its indices; then unbinds every
    /// readable view again, runs the combination pass and presents.
    #[verifier::rlimit(80)]
    pub fn render(&self, backend: &mut Backend, objects: &Vec<SceneObject>, camera_constants: usize) -> (r: Result<(), PassError>)
        requires
            old(backend).wf(),
            self.valid_in(old(backend)),
            forall|k: int| 0 <= k < objects@.len() ==> self.accepts(old(backend), #[trigger] &objects@[k]),
            old(backend).is_buffer_for(camera_constants as int, BufferRole::Constant),
        ensures
            final(backend).wf(),
            r is Ok,
            final(backend).objects@ == old(backend).objects@,
            final(backend).render_targets@ == self.combination_pass@.render_targets,
            final(backend).depth_view == self.combination_pass@.bound_depth(),
            final(backend).readable@ == readable_after(self.combination_pass@, no_readable(final(backend).readable@.len())),
            final(backend).trace() == old(backend).trace() + camera_cmds(camera_constants) + objects_cmds(
                self.gbuffer_write_pass@,
                objects@,
            ) + combine_cmds(self.combination_pass@),
            forall|k: int|
                0 <= k < 3 ==> {
                    let r = final(backend).resource_of(#[trigger] self.gbuffer_write_pass@.render_targets[k] as int);
                    &&& final(backend).readable_bound(r)
                    &&& !final(backend).writable_bound(r)
                    &&& !final(backend).views_cover(final(backend).render_targets@, r)
                },
    {
        let ghost b0 = *backend;
        backend.set_constant_buffer(Stage::Vertex, FRAME_CONSTANTS, camera_constants);
        backend.set_constant_buffer(Stage::Pixel, FRAME_CONSTANTS, camera_constants);
        proof { self.lemma_writable_frame(&b0, backend); }
        let ghost g = self.gbuffer_write_pass@;
        let ghost tc = b0.trace() + camera_cmds(camera_constants);
        assert(backend.trace() =~= tc);
        assert(objects@.subrange(0, 0) =~= Seq::<SceneObject>::empty());
        let mut k: usize = 0;
        while k < objects.len()
            invariant
                backend.wf(),
                b0.wf(),
                self.valid_in(&b0),
                backend.objects@ == b0.objects@,
                k <= objects@.len(),
                forall|q: int| 0 <= q < objects@.len() ==> self.accepts(&b0, #[trigger] &objects@[q]),
                forall|r: int| #[trigger] backend.writable_bound(r) ==> b0.writable_bound(r) || self.writes(&b0, r),
                g == self.gbuffer_write_pass@,
                backend.trace() == tc + objects_cmds(g, objects@.subrange(0, k as int)),
            decreases objects@.len() - k,
        {
            let object = &objects[k];
            let ghost before = backend.trace();
            if object.has_flag(Flag::Opaque) {
                if let Some(mesh) = &object.mesh {
                    self.draw_object(backend, Ghost(b0), object, mesh);
                }
            }
            assert(backend.trace() == before + object_cmds(g, objects@[k as int]));
            assert(objects@.subrange(0, k + 1).drop_last() =~= objects@.subrange(0, k as int));
            k = k + 1;
            assert(backend.trace() =~= tc + objects_cmds(g, objects@.subrange(0, k as int)));
        }
        assert(objects@.subrange(0, objects@.len() as int) =~= objects@);
        let ghost b1 = *backend;
        let r = self.combine(backend, Ghost(b0));
        assert(backend.trace() =~= tc + objects_cmds(g, objects@) + combine_cmds(self.combination_pass@));
        proof {
            let c = self.combination_pass@;
            let g = self.gbuffer_write_pass@;
            lemma_wf_sizes(backend);
            assert(c.valid_in(backend));
            lemma_bound_pass_reads(c, no_readable(backend.readable@.len()), backend);
            assert forall|k: int| 0 <= k < 3 implies {
                let r = backend.resource_of(#[trigger] g.render_targets[k] as int);
                &&& backend.readable_bound(r)
                &&& !backend.writable_bound(r)
                &&& !backend.views_cover(backend.render_targets@, r)
            } by {
                assert(backend.resource_of(c.shader_resources[k] as int) == backend.resource_of(g.render_targets[k] as int));
            }
        }
        r
    }

    /// Binding never changes which resources are bound writable when only
    /// the recorded commands differ.
    proof fn lemma_writable_frame(&self, b0: &Backend, b: &Backend)
        requires
            b.same_state(b0),
        ensures
            forall|r: int| #[trigger] b.writable_bound(r) ==> b0.writable_bound(r) || self.writes(b0, r),
    {
        assert forall|r: int| #[trigger] b.writable_bound(r) implies b0.writable_bound(r) || self.writes(b0, r) by {
            if b.views_cover(b.render_targets@, r) {
                let j = choose|j: int| 0 <= j < b.render_targets@.len() && b.resource_of(#[trigger] b.render_targets@[j] as int) == r;
                assert(b0.views_cover(b0.render_targets@, r));
            }
            if exists|j: int| 0 <= j < b.writable@.len() && #[trigger] b.holds(b.writable@[j], r) {
                let j = choose|j: int| 0 <= j < b.writable@.len() && #[trigger] b.holds(b.writable@[j], r);
                assert(b0.holds(b0.writable@[j], r));
            }
        }
    }

    /// Unbinds every readable view, binds one object and runs the G-buffer
    /// write pass over its indices.
    #[verifier::rlimit(80)]
    fn draw_object(&self, backend: &mut Backend, b0: Ghost<Backend>, object: &SceneObject, mesh: &GpuMesh)
        requires
            old(backend).wf(),
            b0@.wf(),
            self.valid_in(&b0@),
            old(backend).objects@ == b0@.objects@,
            object.mesh == Some(*mesh),
            object.flags@.contains(Flag::Opaque),
            self.accepts(&b0@, object),
            forall|r: int| #[trigger] old(backend).writable_bound(r) ==> b0@.writable_bound(r) || self.writes(&b0@, r),
        ensures
            final(backend).wf(),
            final(backend).objects@ == b0@.objects@,
            forall|r: int| #[trigger] final(backend).writable_bound(r) ==> b0@.writable_bound(r) || self.writes(&b0@, r),
            final(backend).trace() == old(backend).trace() + object_cmds(self.gbuffer_write_pass@, *object),
    {
        let ghost g = self.gbuffer_write_pass@;
        let ghost b1 = *backend;
        backend.unbind_shader_resources();
        let ghost bu = *backend;
        assert forall|i: int| 0 <= i < object.textures@.len() implies !bu.writable_bound(bu.resource_of(#[trigger] object.textures@[i] as int)) by {
            let r = bu.resource_of(object.textures@[i] as int);
            assert(!self.writes(&b0@, r) && !b0@.writable_bound(r));
            if bu.writable_bound(r) {
                if bu.views_cover(bu.render_targets@, r) {
                    let j = choose|j: int| 0 <= j < bu.render_targets@.len() && bu.resource_of(#[trigger] bu.render_targets@[j] as int) == r;
                    assert(b1.views_cover(b1.render_targets@, r));
                }
                if exists|j: int| 0 <= j < bu.writable@.len() && #[trigger] bu.holds(bu.writable@[j], r) {
                    let j = choose|j: int| 0 <= j < bu.writable@.len() && #[trigger] bu.holds(bu.writable@[j], r);
                    assert(b1.holds(b1.writable@[j], r));
                }
                assert(b1.writable_bound(r));
            }
        }
        Self::bind_object(backend, object, mesh);
        let ghost b2 = *backend;
        proof {
            lemma_wf_sizes(&b2);
            assert(bu.readable@ =~= no_readable(bu.readable@.len()));
            // Only the object's textures are bound readable now.
            assert forall|r: int| #[trigger] b2.readable_bound(r) implies !self.writes(&b0@, r) by {
                let i = choose|i: int| 0 <= i < b2.readable@.len() && #[trigger] b2.holds(b2.readable@[i], r);
                let base = crate::backend::stage_base(Stage::Pixel);
                assert(base <= i < base + object.textures@.len());
                let t = object.textures@[i - base];
                assert(b2.readable@[i] == Some(t));
                assert(b0@.resource_of(t as int) == r);
            }
            assert(!b2.any_readable(g.render_targets)) by {
                if b2.any_readable(g.render_targets) {
                    let i = choose|i: int| 0 <= i < g.render_targets.len() && #[trigger] b2.readable_bound(b2.resource_of(g.render_targets[i] as int));
                    let r = b0@.resource_of(g.render_targets[i] as int);
                    assert(b0@.views_cover(g.render_targets, r));
                    assert(self.writes(&b0@, r));
                }
            }
            if g.bound_depth() is Some {
                let d = g.bound_depth()->0;
                if b2.readable_bound(b2.resource_of(d as int)) {
                    assert(b0@.holds(g.bound_depth(), b0@.resource_of(d as int)));
                    assert(self.writes(&b0@, b0@.resource_of(d as int)));
                }
            }
            assert(!b2.any_readable(g.unordered_access_views));
            assert(!g.reads_what_it_writes(&b2));
            assert(g.valid_in(&b2));
        }
        let _ = self.gbuffer_write_pass.execute(backend, mesh.num_indices);
        let ghost b3 = *backend;
        assert(b3.trace() =~= b1.trace() + object_cmds(g, *object));
        assert forall|r: int| #[trigger] b3.writable_bound(r) implies b0@.writable_bound(r) || self.writes(&b0@, r) by {
            if b3.views_cover(b3.render_targets@, r) {
                let j = choose|j: int| 0 <= j < b3.render_targets@.len() && b3.resource_of(#[trigger] b3.render_targets@[j] as int) == r;
                assert(b0@.views_cover(g.render_targets, r));
            }
            if b3.holds(b3.depth_view, r) {
                assert(b0@.holds(g.bound_depth(), r));
            }
            if exists|j: int| 0 <= j < b3.writable@.len() && #[trigger] b3.holds(b3.writable@[j], r) {
                let j = choose|j: int| 0 <= j < b3.writable@.len() && #[trigger] b3.holds(b3.writable@[j], r);
                assert(b3.writable@[j] is None);
            }
        }
    }

    /// Unbinds every readable view, runs the combination pass and presents.
    #[verifier::rlimit(80)]
    fn combine(&self, backend: &mut Backend, b0: Ghost<Backend>) -> (r: Result<(), PassError>)
        requires
            old(backend).wf(),
            b0@.wf(),
            self.valid_in(&b0@),
            old(backend).objects@ == b0@.objects@,
        ensures
            final(backend).wf(),
            r is Ok,
            final(backend).objects@ == b0@.objects@,
            final(backend).render_targets@ == self.combination_pass@.render_targets,
            final(backend).depth_view == self.combination_pass@.bound_depth(),
            final(backend).readable@ == readable_after(self.combination_pass@, no_readable(final(backend).readable@.len())),
            final(backend).trace() == old(backend).trace() + combine_cmds(self.combination_pass@),
    {
        let ghost c = self.combination_pass@;
        let ghost t0 = backend.trace();
        backend.unbind_shader_resources();
        let ghost b1 = *backend;
        proof {
            assert(b1.readable@ =~= no_readable(b1.readable@.len()));
            assert(!b1.any_readable(c.render_targets)) by {
                if b1.any_readable(c.render_targets) {
                    let i = choose|i: int| 0 <= i < c.render_targets.len() && #[trigger] b1.readable_bound(b1.resource_of(c.render_targets[i] as int));
                    let q = choose|q: int| 0 <= q < b1.readable@.len() && #[trigger] b1.holds(b1.readable@[q], b1.resource_of(c.render_targets[i] as int));
                }
            }
            if c.bound_depth() is Some {
                let d = c.bound_depth()->0;
                if b1.readable_bound(b1.resource_of(d as int)) {
                    let q = choose|q: int| 0 <= q < b1.readable@.len() && #[trigger] b1.holds(b1.readable@[q], b1.resource_of(d as int));
                }
            }
            assert(!b1.any_readable(c.unordered_access_views));
            assert(!c.reads_what_it_writes(&b1)) by {
                if c.reads_what_it_writes(&b1) {
                    let i = choose|i: int| 0 <= i < c.shader_resources.len() && #[trigger] c.writes(&b1, b1.resource_of(c.shader_resources[i] as int));
                    let r = b1.resource_of(c.shader_resources[i] as int);
                    if b1.views_cover(c.render_targets, r) {
                        let j = choose|j: int| 0 <= j < c.render_targets.len() && b1.resource_of(#[trigger] c.render_targets[j] as int) == r;
                        assert(b0@.views_cover(c.render_targets, r));
                    }
                    if b1.views_cover(c.unordered_access_views, r) {
                        let j = choose|j: int| 0 <= j < c.unordered_access_views.len() && b1.resource_of(#[trigger] c.unordered_access_views[j] as int) == r;
                    }
                    assert(c.writes(&b0@, b0@.resource_of(c.shader_resources[i] as int)));
                }
            }
            assert(c.valid_in(&b1));
        }
        let ghost before = backend.trace();
        let _ = self.combination_pass.execute(backend, FULLSCREEN_VERTICES);
        backend.present();
        assert(backend.trace() =~= t0 + combine_cmds(c));
        Ok(())
    }

}

impl BasicRenderer {
    /// What `new(backend, width, height)` builds: the write pass tests depth
    /// through the depth view and clears its targets; the G-buffer targets
    /// and the depth texture are `width` by `height`; the combination pass
    /// clears the back buffer and samples the G-buffer (slots 0 to 2) and the
    /// transmittance, irradiance and in-scattering tables (slots 3 to 5).
    pub open spec fn built(&self, b: &Backend, width: u32, height: u32) -> bool {
        let g = self.gbuffer_write_pass@;
        let c = self.combination_pass@;
        &&& g.depth == (crate::render_pass::DepthAttachment {
            bind_depth_buffer: true,
            depth_state: Some(self.depth_state),
            depth_view: Some(self.depth_stencil_view),
        })
        &&& g.clear_rtv
        &&& c.clear_rtv
        &&& b.is_view(self.depth_stencil_view as int, ViewKind::DepthStencil)
        &&& b.resource_desc(b.resource_of(self.depth_stencil_view as int)) == ResourceDesc::Texture2D(depth_desc(width, height))
        &&& forall|k: int| 0 <= k < 3 ==> b.resource_desc(b.resource_of(#[trigger] g.render_targets[k] as int)) == ResourceDesc::Texture2D(gbuffer_desc(width, height))
        &&& self.backbuffer.desc == backbuffer_desc(width, height)
        &&& b.resource_of(self.backbuffer_rtv as int) == self.backbuffer.texture
        &&& b.resource_desc(b.resource_of(c.shader_resources[3] as int)) == ResourceDesc::Texture2D(
            lut_desc2d(TRANSMITTANCE_WIDTH, TRANSMITTANCE_HEIGHT),
        )
        &&& b.resource_desc(b.resource_of(c.shader_resources[4] as int)) == ResourceDesc::Texture2D(
            lut_desc2d(IRRADIANCE_WIDTH, IRRADIANCE_HEIGHT),
        )
        &&& b.resource_desc(b.resource_of(c.shader_resources[5] as int)) == ResourceDesc::Texture3D(
            lut_desc3d(INSCATTER_WIDTH, INSCATTER_HEIGHT, INSCATTER_DEPTH),
        )
    }
}

/// An RGBA float render-target texture of the G-buffer, sampled later.
pub open spec fn gbuffer_desc(w: u32, h: u32) -> crate::resource::Texture2DDesc {
    crate::resource::Texture2DDesc {
        width: w,
        height: h,
        mip_levels: 1,
        array_size: 1,
        format: Format::R32G32B32A32Float,
        sample_desc: crate::resource::SampleDesc { count: 1, quality: 0 },
        usage: crate::resource::Usage::Default,
        bind_flags: BindFlags { shader_resource: true, render_target: true, ..no_bind_flags() },
        cpu_access_flags: crate::resource::CpuAccessFlags { read: false, write: false },
        misc_flags: crate::resource::MiscFlags { generate_mips: false, buffer_structured: false },
    }
}

/// The swap chain's back buffer: a render target only.
pub open spec fn backbuffer_desc(w: u32, h: u32) -> crate::resource::Texture2DDesc {
    crate::resource::Texture2DDesc {
        format: Format::R8G8B8A8Unorm,
        bind_flags: BindFlags { render_target: true, ..no_bind_flags() },
        ..gbuffer_desc(w, h)
    }
}

/// The depth-stencil texture.
pub open spec fn depth_desc(w: u32, h: u32) -> crate::resource::Texture2DDesc {
    crate::resource::Texture2DDesc {
        format: Format::D24UnormS8Uint,
        bind_flags: BindFlags { depth_stencil: true, ..no_bind_flags() },
        ..gbuffer_desc(w, h)
    }
}

/// A 2D texture of `w` by `h` with one mip level, in `format`, bound as `bind`.
fn target_texture(backend: &mut Backend, w: u32, h: u32, format: Format, bind: BindFlags) -> (r: Result<Tex2D, ResourceError>)
    requires
        old(backend).wf(),
    ensures
        final(backend).wf(),
        final(backend).extends(old(backend)),
        final(backend).commands@ == old(backend).commands@,
        final(backend).same_bindings(old(backend)),
        r is Ok <==> (w > 0 && h > 0),
        r is Err ==> r == Err::<Tex2D, ResourceError>(ResourceError::ZeroSize) && final(backend).objects@ == old(backend).objects@,
        r matches Ok(t) ==> {
            &&& t.texture == old(backend).objects@.len()
            &&& t.desc == (crate::resource::Texture2DDesc { format, bind_flags: bind, ..gbuffer_desc(w, h) })
            &&& final(backend).objects@ == old(backend).objects@.push(
                crate::backend::DeviceObject::Resource(ResourceDesc::Texture2D(t.desc)),
            )
        },
{
    let desc = TextureDescBuilder::new()
        .size([w, h, 0])
        .mip_levels(1)
        .format(format)
        .bind_flags(bind)
        .build_texture2d();
    assert(desc == (crate::resource::Texture2DDesc { format, bind_flags: bind, ..gbuffer_desc(w, h) }));
    Tex2D::new(backend, desc)
}

/// A G-buffer texture with its render-target view (handle + 1) and its
/// readable view (handle + 2).
fn gbuffer_target(backend: &mut Backend, w: u32, h: u32) -> (r: Result<(usize, usize), RendererError>)
    requires
        old(backend).wf(),
    ensures
        final(backend).wf(),
        final(backend).extends(old(backend)),
        final(backend).commands@ == old(backend).commands@,
        final(backend).same_bindings(old(backend)),
        r is Ok <==> (w > 0 && h > 0),
        r matches Ok((rtv, srv)) ==> {
            &&& final(backend).objects@.len() == old(backend).objects@.len() + 3
            &&& final(backend).is_view(rtv as int, ViewKind::RenderTarget)
            &&& final(backend).is_view(srv as int, ViewKind::Readable)
            &&& final(backend).resource_of(rtv as int) == final(backend).resource_of(srv as int)
            &&& final(backend).is_resource(final(backend).resource_of(srv as int))
            &&& final(backend).resource_desc(final(backend).resource_of(srv as int)) == ResourceDesc::Texture2D(gbuffer_desc(w, h))
        },
{
    let flags = BindFlags { shader_resource: true, render_target: true, ..BindFlags::none() };
    let t = match target_texture(backend, w, h, Format::R32G32B32A32Float, flags) {
        Ok(t) => t,
        Err(e) => { return Err(RendererError::Resource(e)); },
    };
    let rtv = match backend.render_target_view(t.texture) {
        Ok(v) => v,
        Err(e) => { return Err(RendererError::Resource(e)); },
    };
    let srv = match backend.shader_resource_view(t.texture) {
        Ok(v) => v,
        Err(e) => { return Err(RendererError::Resource(e)); },
    };
    Ok((rtv, srv))
}

/// The attributes of a mesh vertex: position, normal, texture coordinates.
fn mesh_input_desc() -> (r: Vec<InputElement>)
    ensures
        r@.len() == 3,
{
    vec![
        InputElement { semantic: "POSITION".to_owned(), format: Format::R32G32B32Float, offset: 0 },
        InputElement { semantic: "NORMAL".to_owned(), format: Format::R32G32B32Float, offset: 12 },
        InputElement { semantic: "TEXCOORD".to_owned(), format: Format::R32G32Float, offset: 24 },
    ]
}

/// The G-buffer write pass: depth-tested, clearing, drawing indexed meshes
/// into the position, albedo and normal targets.
fn build_gbuffer_pass(
    backend: &mut Backend,
    depth_state: usize,
    dsv: usize,
    position: usize,
    albedo: usize,
    normal: usize,
    sampler: usize,
) -> (p: RenderPass)
    requires
        old(backend).wf(),
        old(backend).is_depth_state(depth_state as int),
        old(backend).is_sampler(sampler as int),
        old(backend).is_view(dsv as int, ViewKind::DepthStencil),
        old(backend).is_view(position as int, ViewKind::RenderTarget),
        old(backend).is_view(albedo as int, ViewKind::RenderTarget),
        old(backend).is_view(normal as int, ViewKind::RenderTarget),
    ensures
        final(backend).wf(),
        p@.objects_valid_in(final(backend)),
        final(backend).extends(old(backend)),
        final(backend).commands@ == old(backend).commands@,
        final(backend).same_bindings(old(backend)),
        final(backend).objects@.len() == old(backend).objects@.len() + 3,
        p@.render_targets == seq![position, albedo, normal],
        p@.depth == (crate::render_pass::DepthAttachment { bind_depth_buffer: true, depth_state: Some(depth_state), depth_view: Some(dsv) }),
        p@.shader_resources.len() == 0,
        p@.unordered_access_views.len() == 0,
        p@.compute_shader is None,
        p@.execution == Some(Operation::DrawIndexed),
        p@.clear_rtv,
{
    let ghost b0 = *backend;
    let vs = Shader::vertex_shader(backend, "gbuffer.hlsl".to_owned(), "vertex".to_owned());
    let ghost b1 = *backend;
    let ps = Shader::pixel_shader(backend, "gbuffer.hlsl".to_owned(), "pixel".to_owned());
    let ghost b2 = *backend;
    assert(b2.is_shader(vs.program() as int, Stage::Vertex)) by {
        assert(b2.objects@[vs.program() as int] == b1.objects@[vs.program() as int]);
    }
    let p = RenderPass::new()
        .enable_depth(true)
        .depth_state(depth_state)
        .depth_stencil_view(backend, dsv)
        .render_target(backend, position)
        .render_target(backend, albedo)
        .render_target(backend, normal)
        .sampler_state(sampler)
        .clear_rtv(true)
        .vertex_shader(backend, vs, mesh_input_desc(), VERTEX_STRIDE)
        .pixel_shader(ps)
        .execution(Operation::DrawIndexed);
    assert(p@.render_targets =~= seq![position, albedo, normal]);
    proof {
        assert forall|k: int| 0 <= k < b0.objects@.len() implies #[trigger] backend.objects@[k] == b0.objects@[k] by {
            assert(b2.objects@[k] == b0.objects@[k]);
            assert(backend.objects@.subrange(0, b2.objects@.len() as int)[k] == backend.objects@[k]);
        }
    }
    proof {
        let bf = *backend;
        assert(bf.objects@[depth_state as int] == b0.objects@[depth_state as int]);
        assert(bf.objects@[sampler as int] == b0.objects@[sampler as int]);
        assert(bf.objects@[vs.program() as int] == b2.objects@[vs.program() as int]);
        assert(bf.objects@[ps.program() as int] == b2.objects@[ps.program() as int]);
        assert(p@.sampler_states =~= seq![sampler]);
        lemma_wf_sizes(&b2);
        assert(bf.objects@[b2.objects@.len() as int] is InputLayout);
        assert(bf.is_layout(p@.input_layout->0 as int));
    }
    p
}

/// The combination pass: samples the G-buffer and the sky tables and draws
/// the full-screen quad into the back buffer.
fn build_combination_pass(
    backend: &mut Backend,
    depth_state: usize,
    srvs: &Vec<usize>,
    sampler: usize,
    backbuffer_rtv: usize,
) -> (p: RenderPass)
    requires
        old(backend).wf(),
        old(backend).is_depth_state(depth_state as int),
        old(backend).is_sampler(sampler as int),
        old(backend).is_view(backbuffer_rtv as int, ViewKind::RenderTarget),
        old(backend).all_views(srvs@, ViewKind::Readable),
    ensures
        final(backend).wf(),
        p@.objects_valid_in(final(backend)),
        final(backend).extends(old(backend)),
        final(backend).commands@ == old(backend).commands@,
        final(backend).same_bindings(old(backend)),
        p@.render_targets == seq![backbuffer_rtv],
        p@.depth == (crate::render_pass::DepthAttachment { bind_depth_buffer: true, depth_state: Some(depth_state), depth_view: None }),
        p@.shader_resources == srvs@,
        p@.unordered_access_views.len() == 0,
        p@.compute_shader is None,
        p@.execution == Some(Operation::Draw { vertex_count: FULLSCREEN_VERTICES }),
        p@.clear_rtv,
{
    let ghost b0 = *backend;
    let vs = Shader::vertex_shader(backend, "vertex_shader.hlsl".to_owned(), "main".to_owned());
    let ghost b1 = *backend;
    let ps = Shader::pixel_shader(backend, "fragment_shader.hlsl".to_owned(), "main".to_owned());
    let ghost b2 = *backend;
    assert(b2.is_shader(vs.program() as int, Stage::Vertex)) by {
        assert(b2.objects@[vs.program() as int] == b1.objects@[vs.program() as int]);
    }
    let mut p = RenderPass::new()
        .enable_depth(true)
        .depth_state(depth_state);
    assert forall|k: int| 0 <= k < srvs@.len() implies b2.is_view(#[trigger] srvs@[k] as int, ViewKind::Readable) by {
        assert(b2.objects@[srvs@[k] as int] == b1.objects@[srvs@[k] as int]);
        assert(b1.objects@[srvs@[k] as int] == b0.objects@[srvs@[k] as int]);
    }
    let mut i: usize = 0;
    while i < srvs.len()
        invariant
            b2 == *backend,
            b2.all_views(srvs@, ViewKind::Readable),
            i <= srvs@.len(),
            p@.shader_resources == srvs@.subrange(0, i as int),
            p@.render_targets.len() == 0,
            p@.unordered_access_views.len() == 0,
            p@.sampler_states.len() == 0,
            p@.depth == (crate::render_pass::DepthAttachment { bind_depth_buffer: true, depth_state: Some(depth_state), depth_view: None }),
            p@.compute_shader is None,
            p@.vertex_shader is None,
            p@.pixel_shader is None,
            p@.execution is None,
            p@.input_layout is None,
            !p@.clear_rtv,
        decreases srvs@.len() - i,
    {
        p = p.shader_resource(backend, srvs[i]);
        i = i + 1;
        assert(p@.shader_resources =~= srvs@.subrange(0, i as int));
    }
    assert(srvs@.subrange(0, srvs@.len() as int) =~= srvs@);
    let p = p
        .sampler_state(sampler)
        .render_target(backend, backbuffer_rtv)
        .clear_rtv(true)
        .vertex_shader(backend, vs, Vec::new(), 0)
        .pixel_shader(ps)
        .execution(Operation::Draw { vertex_count: FULLSCREEN_VERTICES });
    assert(p@.render_targets =~= seq![backbuffer_rtv]);
    proof {
        assert forall|k: int| 0 <= k < b0.objects@.len() implies #[trigger] backend.objects@[k] == b0.objects@[k] by {
            assert(b2.objects@[k] == b0.objects@[k]);
            assert(backend.objects@.subrange(0, b2.objects@.len() as int)[k] == backend.objects@[k]);
        }
    }
    proof {
        let bf = *backend;
        assert(bf.objects@[depth_state as int] == b0.objects@[depth_state as int]);
        assert(bf.objects@[sampler as int] == b0.objects@[sampler as int]);
        assert(bf.objects@[vs.program() as int] == b2.objects@[vs.program() as int]);
        assert(bf.objects@[ps.program() as int] == b2.objects@[ps.program() as int]);
        assert(p@.sampler_states =~= seq![sampler]);
        lemma_wf_sizes(&b2);
        assert(bf.objects@[b2.objects@.len() as int] is InputLayout);
        assert(bf.is_layout(p@.input_layout->0 as int));
    }
    p
}

impl BasicRenderer {
    /// Builds the renderer for a `width` by `height` back buffer: the
    /// G-buffer and depth targets, the sky tables (precomputed with the
    /// Earth-like atmosphere), and the two passes. Fails, creating nothing,
    /// when a dimension is zero.
    #[verifier::rlimit(100)]
    pub fn new(backend: &mut Backend, width: u32, height: u32) -> (r: Result<BasicRenderer, RendererError>)
        requires
            old(backend).wf(),
            old(backend).objects@.len() + 64 <= usize::MAX,
        ensures
            final(backend).wf(),
            final(backend).extends(old(backend)),
            r is Ok <==> (width > 0 && height > 0),
            r is Err ==> r == Err::<BasicRenderer, RendererError>(RendererError::Resource(ResourceError::ZeroSize))
                && final(backend).objects@ == old(backend).objects@,
            r matches Ok(renderer) ==> renderer.valid_in(final(backend)) && renderer.built(
                final(backend),
                width,
                height,
            ),
            r is Ok ==> final(backend).trace() == old(backend).trace() + precompute_cmds(
                earth_constants(),
                (old(backend).objects@.len() + 18) as usize,
            ) + release_cmds(scratch_handles((old(backend).objects@.len() + 18) as usize)),
    {
        let ghost b0 = *backend;
        proof { lemma_wf_sizes(&b0); }
        let backbuffer = match target_texture(backend, width, height, Format::R8G8B8A8Unorm,
            BindFlags { render_target: true, ..BindFlags::none() }) {
            Ok(t) => t,
            Err(e) => { return Err(RendererError::Resource(e)); },
        };
        assert(backbuffer.desc == backbuffer_desc(width, height));
        let backbuffer_rtv = match backend.render_target_view(backbuffer.texture) {
            Ok(v) => v,
            Err(e) => { return Err(RendererError::Resource(e)); },
        };
        let depth_state = backend.create_depth_stencil_state();
        let depth_texture = match target_texture(backend, width, height, Format::D24UnormS8Uint,
            BindFlags { depth_stencil: true, ..BindFlags::none() }) {
            Ok(t) => t,
            Err(e) => { return Err(RendererError::Resource(e)); },
        };
        let dsv = match backend.depth_stencil_view(depth_texture.texture) {
            Ok(v) => v,
            Err(e) => { return Err(RendererError::Resource(e)); },
        };
        let ghost b1 = *backend;
        let (position_rtv, position_srv) = match gbuffer_target(backend, width, height) {
            Ok(t) => t,
            Err(e) => { return Err(e); },
        };
        let ghost b2 = *backend;
        let (albedo_rtv, albedo_srv) = match gbuffer_target(backend, width, height) {
            Ok(t) => t,
            Err(e) => { return Err(e); },
        };
        let ghost b3 = *backend;
        let (normal_rtv, normal_srv) = match gbuffer_target(backend, width, height) {
            Ok(t) => t,
            Err(e) => { return Err(e); },
        };
        let ghost b4 = *backend;
        let sampler = backend.create_sampler_state();
        let gbuffer_write_pass = build_gbuffer_pass(backend, depth_state, dsv, position_rtv, albedo_rtv, normal_rtv, sampler);
        let ghost b5 = *backend;
        let constants = AtmosphericConstants::default();
        assert(constants == earth_constants());
        assert(b5.objects@.len() == b0.objects@.len() + 18);
        assert(b5.trace() == b0.trace());
        let (transmittance, irradiance, inscatter) = match precompute_textures(backend, constants) {
            Ok(t) => t,
            Err(e) => { return Err(RendererError::Precompute(e)); },
        };
        let ghost b6 = *backend;
        let transmittance_srv = match backend.shader_resource_view(transmittance.texture) {
            Ok(v) => v,
            Err(e) => { return Err(RendererError::Resource(e)); },
        };
        let ghost b7 = *backend;
        let irradiance_srv = match backend.shader_resource_view(irradiance.texture) {
            Ok(v) => v,
            Err(e) => { return Err(RendererError::Resource(e)); },
        };
        let ghost b8 = *backend;
        let inscatter_srv = match backend.shader_resource_view(inscatter.texture) {
            Ok(v) => v,
            Err(e) => { return Err(RendererError::Resource(e)); },
        };
        let ghost b9 = *backend;
        let srvs = vec![position_srv, albedo_srv, normal_srv, transmittance_srv, irradiance_srv, inscatter_srv];
        let combination_pass = build_combination_pass(backend, depth_state, &srvs, sampler, backbuffer_rtv);
        let ghost bf = *backend;
        let renderer = BasicRenderer {
            backbuffer,
            backbuffer_rtv,
            depth_stencil_view: dsv,
            depth_state,
            gbuffer: GBufferRTV { albedo: albedo_rtv, position: position_rtv, normal: normal_rtv },
            gbuffer_write_pass,
            combination_pass,
        };
        proof {
            lemma_extends_keeps(&b1, &bf);
            lemma_extends_keeps(&b2, &bf);
            lemma_extends_keeps(&b3, &bf);
            lemma_extends_keeps(&b4, &bf);
            lemma_extends_keeps(&b6, &bf);
            lemma_extends_keeps(&b7, &bf);
            lemma_extends_keeps(&b8, &bf);
            lemma_extends_keeps(&b9, &bf);
            let g = renderer.gbuffer_write_pass@;
            let c = renderer.combination_pass@;
            let bb = backbuffer.texture as int;
            assert(b1.is_view(backbuffer_rtv as int, ViewKind::RenderTarget));
            assert(b1.resource_of(backbuffer_rtv as int) == bb);
            assert(b1.is_resource(bb) && b1.resource_desc(bb) == ResourceDesc::Texture2D(backbuffer_desc(width, height)));
            assert(b1.is_view(dsv as int, ViewKind::DepthStencil));
            assert(g.valid_in(&bf)) by {
                assert(g.render_targets == seq![position_rtv, albedo_rtv, normal_rtv]);
            }
            assert(bf.all_views(c.shader_resources, ViewKind::Readable)) by {
                assert(c.shader_resources == srvs@);
            }
            assert(c.valid_in(&bf));
            assert(g.render_targets == seq![position_rtv, albedo_rtv, normal_rtv]);
            assert(c.shader_resources == seq![position_srv, albedo_srv, normal_srv, transmittance_srv, irradiance_srv, inscatter_srv]);
            assert(bf.resource_of(position_srv as int) == bf.resource_of(position_rtv as int));
            assert(bf.resource_of(albedo_srv as int) == bf.resource_of(albedo_rtv as int));
            assert(bf.resource_of(normal_srv as int) == bf.resource_of(normal_rtv as int));
            assert(bf.resource_of(transmittance_srv as int) == transmittance.texture);
            assert(bf.resource_of(irradiance_srv as int) == irradiance.texture);
            assert(bf.resource_of(inscatter_srv as int) == inscatter.texture);
            assert(bf.resource_of(dsv as int) == depth_texture.texture);
            assert(bf.trace() == b6.trace());
            assert(!c.reads_what_it_writes(&bf)) by {
                if c.reads_what_it_writes(&bf) {
                    let i = choose|i: int| 0 <= i < c.shader_resources.len() && #[trigger] c.writes(&bf, bf.resource_of(c.shader_resources[i] as int));
                    let r = bf.resource_of(c.shader_resources[i] as int);
                    if bf.views_cover(c.render_targets, r) {
                        let j = choose|j: int| 0 <= j < c.render_targets.len() && bf.resource_of(#[trigger] c.render_targets[j] as int) == r;
                        assert(r == bb);
                        assert(bf.resource_desc(r) == ResourceDesc::Texture2D(backbuffer_desc(width, height)));
                    }
                    if bf.views_cover(c.unordered_access_views, r) {
                        let j = choose|j: int| 0 <= j < c.unordered_access_views.len() && bf.resource_of(#[trigger] c.unordered_access_views[j] as int) == r;
                    }
                }
            }
        }
        Ok(renderer)
    }
}

impl BasicRenderer {
    /// Whether the renderer may draw `o` on `b`: exactly `accepts`.
    pub fn accepts_object(&self, b: &Backend, o: &SceneObject) -> (r: bool)
        requires
            b.wf(),
            self.valid_in(b),
        ensures
            r == self.accepts(b, o),
    {
        if !(o.has_flag(Flag::Opaque) && o.mesh.is_some()) {
            return true;
        }
        if o.textures.len() > READABLE_SLOTS {
            return false;
        }
        let mesh = match &o.mesh {
            Some(m) => m,
            None => { return true; },
        };
        if !(b.buffer_for(o.constants, BufferRole::Constant)
            && b.buffer_for(mesh.vertex_buffer.buffer, BufferRole::Vertex)
            && b.buffer_for(mesh.index_buffer.buffer, BufferRole::Index)) {
            return false;
        }
        let mut i: usize = 0;
        while i < o.textures.len()
            invariant
                b.wf(),
                self.valid_in(b),
                o.drawn(),
                b.is_buffer_for(o.constants as int, BufferRole::Constant),
                b.is_buffer_for(o.mesh->0.vertex_buffer.buffer as int, BufferRole::Vertex),
                b.is_buffer_for(o.mesh->0.index_buffer.buffer as int, BufferRole::Index),
                o.textures@.len() <= READABLE_SLOTS,
                i <= o.textures@.len(),
                forall|j: int|
                    0 <= j < i ==> {
                        &&& b.is_view(#[trigger] o.textures@[j] as int, ViewKind::Readable)
                        &&& !self.writes(b, b.resource_of(o.textures@[j] as int))
                        &&& !b.writable_bound(b.resource_of(o.textures@[j] as int))
                    },
            decreases o.textures@.len() - i,
        {
            match b.view_info(o.textures[i]) {
                Some((res, ViewKind::Readable)) => {
                    if self.gbuffer_write_pass.writes_resource(b, res)
                        || self.combination_pass.writes_resource(b, res) || b.writable_holds(res) {
                        return false;
                    }
                },
                _ => {
                    return false;
                },
            }
            i = i + 1;
        }
        true
    }
}

/// A per-object constant buffer and whether its contents are stale.
pub struct ObjectTransform {
    pub constants: GPUBuffer,
    pub dirty: bool,
}

impl ObjectTransform {
    /// Copies `bytes` into the constant buffer when the transform changed,
    /// and then marks it clean; does nothing when it is clean.
    pub fn upload(&mut self, backend: &mut Backend, bytes: &[u8]) -> (r: Result<(), crate::backend::MapError>)
        requires
            old(backend).wf(),
            old(backend).is_resource(old(self).constants.buffer as int),
            old(backend).resource_desc(old(self).constants.buffer as int) == ResourceDesc::Buffer(old(self).constants.desc),
        ensures
            final(backend).wf(),
            final(self).constants == old(self).constants,
            !old(self).dirty ==> r is Ok && *final(backend) == *old(backend) && !final(self).dirty,
            old(self).dirty ==> {
                &&& r == old(backend).map_outcome(old(self).constants.buffer as int, bytes@.len())
                &&& final(self).dirty == r is Err
                &&& r is Ok ==> final(backend).contents@[old(self).constants.buffer as int]@ == bytes@
                    && final(backend).trace() == old(backend).trace().push(
                    Cmd::UpdateBuffer { buffer: old(self).constants.buffer, data: bytes@ },
                )
                &&& r is Err ==> *final(backend) == *old(backend)
            },
    {
        if !self.dirty {
            return Ok(());
        }
        let r = self.constants.map(backend, bytes);
        if r.is_ok() {
            self.dirty = false;
        }
        r
    }
}

/// The description of a sampled colour texture of `width` by `height` texels
/// with a full mip chain, filled from an image.
pub open spec fn image_desc(width: u32, height: u32) -> crate::resource::Texture2DDesc {
    crate::resource::Texture2DDesc {
        mip_levels: 0,
        format: Format::R8G8B8A8UnormSrgb,
        misc_flags: crate::resource::MiscFlags { generate_mips: true, buffer_structured: false },
        ..gbuffer_desc(width, height)
    }
}

/// The texture description for an image of `width` by `height` pixels.
pub fn image_texture_desc(width: u32, height: u32) -> (d: crate::resource::Texture2DDesc)
    ensures
        d == image_desc(width, height),
{
    TextureDescBuilder::new()
        .size([width, height, 0])
        .mip_levels(0)
        .bind_flags(BindFlags { shader_resource: true, render_target: true, ..BindFlags::none() })
        .misc_flags(crate::resource::MiscFlags { generate_mips: true, buffer_structured: false })
        .format(Format::R8G8B8A8UnormSrgb)
        .build_texture2d()
}

} // verus!
