//! The device context: it owns every device object (by handle), records every
//! command in issue order, and refuses a binding that would give one resource
//! a readable and a writable role at once.
use vstd::prelude::*;
use crate::resource::{Format, ResourceDesc, ResourceError, ViewKind};

verus! {

/// Readable-binding slots of each shader stage.
pub const READABLE_SLOTS: usize = 128;

/// Writable-binding slots of the compute stage.
pub const WRITABLE_SLOTS: usize = 8;

/// A programmable shader stage.
#[derive(Clone, Copy, Debug, PartialEq, Eq, Structural)]
pub enum Stage {
    Vertex,
    Pixel,
    Compute,
}

/// First readable slot of `stage` in the context's flat slot table.
pub open spec fn stage_base(stage: Stage) -> int {
    match stage {
        Stage::Vertex => 0,
        Stage::Pixel => READABLE_SLOTS as int,
        Stage::Compute => 2 * READABLE_SLOTS,
    }
}

fn stage_offset(stage: Stage) -> (r: usize)
    ensures
        r == stage_base(stage),
{
    match stage {
        Stage::Vertex => 0,
        Stage::Pixel => READABLE_SLOTS,
        Stage::Compute => 2 * READABLE_SLOTS,
    }
}

/// One per-vertex attribute of an input layout.
#[derive(Clone, Debug)]
pub struct InputElement {
    pub semantic: String,
    pub format: Format,
    pub offset: u32,
}

/// An object owned by the device; its handle is its index.
#[derive(Clone, Debug)]
pub enum DeviceObject {
    Resource(ResourceDesc),
    View { resource: usize, kind: ViewKind },
    Shader { stage: Stage, path: String, entry_point: String },
    InputLayout { shader: usize, elements: Vec<InputElement> },
    DepthStencilState,
    SamplerState,
}

/// A command issued into the context, in the form the device executes it.
#[derive(Clone, Debug, PartialEq, Eq)]
pub enum Command {
    SetRenderTargets { targets: Vec<usize>, depth: Option<usize> },
    ClearRenderTarget { view: usize },
    ClearDepthStencil { view: usize },
    SetDepthStencilState { state: usize },
    SetShader { stage: Stage, shader: Option<usize> },
    SetSamplers { samplers: Vec<usize> },
    SetReadable { stage: Stage, start_slot: usize, views: Vec<usize> },
    UnbindAllReadable,
    SetWritable { start_slot: usize, views: Vec<usize> },
    UnbindAllWritable,
    SetInputLayout { layout: usize },
    SetConstantBuffer { stage: Stage, slot: u32, buffer: usize },
    SetVertexBuffer { buffer: usize, stride: u32 },
    SetIndexBuffer { buffer: usize },
    UpdateBuffer { buffer: usize, data: Vec<u8> },
    Draw { vertex_count: u32 },
    DrawIndexed { index_count: u32 },
    Dispatch { x: u32, y: u32, z: u32 },
    Present,
    /// The object under `handle` is dropped by the device.
    Release { handle: usize },
}

/// What a command means, with its lists as sequences.
pub enum Cmd {
    SetRenderTargets { targets: Seq<usize>, depth: Option<usize> },
    ClearRenderTarget { view: usize },
    ClearDepthStencil { view: usize },
    SetDepthStencilState { state: usize },
    SetShader { stage: Stage, shader: Option<usize> },
    SetSamplers { samplers: Seq<usize> },
    SetReadable { stage: Stage, start_slot: usize, views: Seq<usize> },
    UnbindAllReadable,
    SetWritable { start_slot: usize, views: Seq<usize> },
    UnbindAllWritable,
    SetInputLayout { layout: usize },
    SetConstantBuffer { stage: Stage, slot: u32, buffer: usize },
    SetVertexBuffer { buffer: usize, stride: u32 },
    SetIndexBuffer { buffer: usize },
    UpdateBuffer { buffer: usize, data: Seq<u8> },
    Draw { vertex_count: u32 },
    DrawIndexed { index_count: u32 },
    Dispatch { x: u32, y: u32, z: u32 },
    Present,
    Release { handle: usize },
}

impl View for Command {
    type V = Cmd;

    open spec fn view(&self) -> Cmd {
        match self {
            Command::SetRenderTargets { targets, depth } => Cmd::SetRenderTargets {
                targets: targets@,
                depth: *depth,
            },
            Command::ClearRenderTarget { view } => Cmd::ClearRenderTarget { view: *view },
            Command::ClearDepthStencil { view } => Cmd::ClearDepthStencil { view: *view },
            Command::SetDepthStencilState { state } => Cmd::SetDepthStencilState { state: *state },
            Command::SetShader { stage, shader } => Cmd::SetShader { stage: *stage, shader: *shader },
            Command::SetSamplers { samplers } => Cmd::SetSamplers { samplers: samplers@ },
            Command::SetReadable { stage, start_slot, views } => Cmd::SetReadable {
                stage: *stage,
                start_slot: *start_slot,
                views: views@,
            },
            Command::UnbindAllReadable => Cmd::UnbindAllReadable,
            Command::SetWritable { start_slot, views } => Cmd::SetWritable {
                start_slot: *start_slot,
                views: views@,
            },
            Command::UnbindAllWritable => Cmd::UnbindAllWritable,
            Command::SetInputLayout { layout } => Cmd::SetInputLayout { layout: *layout },
            Command::SetConstantBuffer { stage, slot, buffer } => Cmd::SetConstantBuffer {
                stage: *stage,
                slot: *slot,
                buffer: *buffer,
            },
            Command::SetVertexBuffer { buffer, stride } => Cmd::SetVertexBuffer {
                buffer: *buffer,
                stride: *stride,
            },
            Command::SetIndexBuffer { buffer } => Cmd::SetIndexBuffer { buffer: *buffer },
            Command::UpdateBuffer { buffer, data } => Cmd::UpdateBuffer {
                buffer: *buffer,
                data: data@,
            },
            Command::Draw { vertex_count } => Cmd::Draw { vertex_count: *vertex_count },
            Command::DrawIndexed { index_count } => Cmd::DrawIndexed { index_count: *index_count },
            Command::Dispatch { x, y, z } => Cmd::Dispatch { x: *x, y: *y, z: *z },
            Command::Present => Cmd::Present,
            Command::Release { handle } => Cmd::Release { handle: *handle },
        }
    }
}

/// The input-assembler or constant role a buffer is bound in.
#[derive(Clone, Copy, Debug, PartialEq, Eq, Structural)]
pub enum BufferRole {
    Constant,
    Vertex,
    Index,
}

/// Why a binding or a draw was refused.
#[derive(Clone, Copy, Debug, PartialEq, Eq, Structural)]
pub enum BindError {
    /// The resource is bound in the opposite (readable / writable) role.
    Hazard,
}

/// Why a CPU write into a buffer was refused.
#[derive(Clone, Copy, Debug, PartialEq, Eq, Structural)]
pub enum MapError {
    /// The buffer was not created CPU-writable.
    NotCpuWritable,
    /// The data is larger than the buffer.
    TooLarge,
}

/// The device and its single immediate command context.
pub struct Backend {
    /// Every object created so far; a handle is an index here.
    pub objects: Vec<DeviceObject>,
    /// For each handle, the bytes last copied into it from the CPU.
    pub contents: Vec<Vec<u8>>,
    /// For each handle, whether the object is still held; a released one
    /// keeps its description but is gone from the device.
    pub live: Vec<bool>,
    /// Every command issued, in order.
    pub commands: Vec<Command>,
    /// Bound render-target views.
    pub render_targets: Vec<usize>,
    /// Bound depth-stencil view.
    pub depth_view: Option<usize>,
    /// Readable slots of the vertex, pixel and compute stages, in that order.
    pub readable: Vec<Option<usize>>,
    /// Writable slots of the compute stage.
    pub writable: Vec<Option<usize>>,
}

pub open spec fn slot_update(slots: Seq<Option<usize>>, start: int, views: Seq<usize>) -> Seq<
    Option<usize>,
> {
    Seq::new(
        slots.len(),
        |i: int|
            if start <= i < start + views.len() {
                Some(views[i - start])
            } else {
                slots[i]
            },
    )
}

impl Backend {
    /// The commands issued so far, as values.
    pub open spec fn trace(&self) -> Seq<Cmd> {
        self.commands@.map_values(|c: Command| c@)
    }

    pub open spec fn valid(&self, h: int) -> bool {
        0 <= h < self.objects@.len()
    }

    pub open spec fn is_resource(&self, h: int) -> bool {
        self.valid(h) && self.objects@[h] is Resource
    }

    pub open spec fn resource_desc(&self, h: int) -> ResourceDesc {
        self.objects@[h]->Resource_0
    }

    pub open spec fn is_view(&self, v: int, kind: ViewKind) -> bool {
        self.valid(v) && self.objects@[v] is View && self.objects@[v]->View_kind == kind
    }

    pub open spec fn is_shader(&self, h: int, stage: Stage) -> bool {
        self.valid(h) && self.objects@[h] is Shader && self.objects@[h]->Shader_stage == stage
    }

    pub open spec fn is_depth_state(&self, h: int) -> bool {
        self.valid(h) && self.objects@[h] is DepthStencilState
    }

    pub open spec fn is_sampler(&self, h: int) -> bool {
        self.valid(h) && self.objects@[h] is SamplerState
    }

    pub open spec fn is_layout(&self, h: int) -> bool {
        self.valid(h) && self.objects@[h] is InputLayout
    }

    /// Handle `h` is a buffer created with the bind flag of `role`.
    pub open spec fn is_buffer_for(&self, h: int, role: BufferRole) -> bool {
        &&& self.is_resource(h)
        &&& self.resource_desc(h) is Buffer
        &&& match role {
            BufferRole::Constant => self.resource_desc(h).bind_flags().constant_buffer,
            BufferRole::Vertex => self.resource_desc(h).bind_flags().vertex_buffer,
            BufferRole::Index => self.resource_desc(h).bind_flags().index_buffer,
        }
    }

    /// Whether handle `h` is a buffer created for `role`.
    pub fn buffer_for(&self, h: usize, role: BufferRole) -> (r: bool)
        ensures
            r == self.is_buffer_for(h as int, role),
    {
        if h >= self.objects.len() {
            return false;
        }
        match &self.objects[h] {
            DeviceObject::Resource(ResourceDesc::Buffer(d)) => match role {
                BufferRole::Constant => d.bind_flags.constant_buffer,
                BufferRole::Vertex => d.bind_flags.vertex_buffer,
                BufferRole::Index => d.bind_flags.index_buffer,
            },
            _ => false,
        }
    }

    /// The resource under view `v`.
    pub open spec fn resource_of(&self, v: int) -> int {
        self.objects@[v]->View_resource as int
    }

    /// Slot content `s` is a view of resource `r`.
    pub open spec fn holds(&self, s: Option<usize>, r: int) -> bool {
        s matches Some(v) && self.resource_of(v as int) == r
    }

    /// Resource `r` is bound readable in some stage.
    pub open spec fn readable_bound(&self, r: int) -> bool {
        exists|i: int| 0 <= i < self.readable@.len() && #[trigger] self.holds(self.readable@[i], r)
    }

    /// Some view in `views` is a view of `r`.
    pub open spec fn views_cover(&self, views: Seq<usize>, r: int) -> bool {
        exists|i: int| 0 <= i < views.len() && self.resource_of(#[trigger] views[i] as int) == r
    }

    /// Resource `r` is bound as render target, depth-stencil or compute-writable.
    pub open spec fn writable_bound(&self, r: int) -> bool {
        ||| self.views_cover(self.render_targets@, r)
        ||| self.holds(self.depth_view, r)
        ||| exists|i: int| 0 <= i < self.writable@.len() && #[trigger] self.holds(self.writable@[i], r)
    }

    /// No resource is bound readable and writable at once.
    pub open spec fn hazard_free(&self) -> bool {
        forall|r: int| #[trigger] self.readable_bound(r) ==> !self.writable_bound(r)
    }

    pub open spec fn slot_is_view(&self, s: Option<usize>, kind: ViewKind) -> bool {
        s matches Some(v) ==> self.is_view(v as int, kind)
    }

    /// The objects are consistent, every binding names a view of the right
    /// kind, and no binding is hazardous.
    pub closed spec fn wf(&self) -> bool {
        &&& self.contents@.len() == self.objects@.len()
        &&& self.live@.len() == self.objects@.len()
        &&& self.objects@.len() <= usize::MAX
        &&& self.readable@.len() == 3 * READABLE_SLOTS
        &&& self.writable@.len() == WRITABLE_SLOTS
        &&& forall|v: int|
            #![trigger self.objects@[v]]
            self.valid(v) && self.objects@[v] is View ==> {
                let r = self.objects@[v]->View_resource as int;
                &&& 0 <= r < v
                &&& self.objects@[r] is Resource
                &&& self.objects@[r]->Resource_0.supports(self.objects@[v]->View_kind)
            }
        &&& forall|h: int|
            #![trigger self.objects@[h]]
            self.valid(h) && self.objects@[h] is Resource ==> self.objects@[h]->Resource_0.creation_error()
                is None
        &&& forall|i: int|
            0 <= i < self.render_targets@.len() ==> self.is_view(
                #[trigger] self.render_targets@[i] as int,
                ViewKind::RenderTarget,
            )
        &&& self.slot_is_view(self.depth_view, ViewKind::DepthStencil)
        &&& forall|i: int|
            0 <= i < self.readable@.len() ==> self.slot_is_view(
                #[trigger] self.readable@[i],
                ViewKind::Readable,
            )
        &&& forall|i: int|
            0 <= i < self.writable@.len() ==> self.slot_is_view(
                #[trigger] self.writable@[i],
                ViewKind::Writable,
            )
        &&& self.hazard_free()
    }

    /// Everything but the recorded commands and the CPU contents is as in `old`.
    pub open spec fn same_state(&self, old: &Backend) -> bool {
        &&& self.objects@ == old.objects@
        &&& self.live@ == old.live@
        &&& self.render_targets@ == old.render_targets@
        &&& self.depth_view == old.depth_view
        &&& self.readable@ == old.readable@
        &&& self.writable@ == old.writable@
    }

    /// The bindings and the CPU contents of existing objects are as in `old`.
    pub open spec fn same_bindings(&self, old: &Backend) -> bool {
        &&& self.render_targets@ == old.render_targets@
        &&& self.depth_view == old.depth_view
        &&& self.readable@ == old.readable@
        &&& self.writable@ == old.writable@
        &&& old.contents@.len() <= self.contents@.len()
        &&& forall|i: int| 0 <= i < old.contents@.len() ==> self.contents@[i] == old.contents@[i]
        &&& self.live_grows(old)
    }

    /// Objects of `old` keep their liveness; every object added since is live.
    pub open spec fn live_grows(&self, old: &Backend) -> bool {
        &&& old.live@.len() <= self.live@.len()
        &&& forall|i: int| 0 <= i < old.live@.len() ==> #[trigger] self.live@[i] == old.live@[i]
        &&& forall|i: int| old.live@.len() <= i < self.live@.len() ==> #[trigger] self.live@[i]
    }

    /// What `create_view(resource, kind)` did, going from `old` to `self`:
    /// a new view when the resource allows the role, else an error and no change.
    pub open spec fn view_created(
        &self,
        old: &Backend,
        resource: usize,
        kind: ViewKind,
        r: Result<usize, ResourceError>,
    ) -> bool {
        &&& self.commands@ == old.commands@
        &&& self.same_bindings(old)
        &&& if old.resource_desc(resource as int).supports(kind) {
            &&& r matches Ok(v) && v == old.objects@.len()
            &&& self.objects@ == old.objects@.push(DeviceObject::View { resource, kind })
        } else {
            &&& r == Err::<usize, ResourceError>(ResourceError::UnsupportedView)
            &&& self.objects@ == old.objects@
        }
    }

    /// Every object of `old` is still there, unchanged, under the same handle.
    pub open spec fn extends(&self, old: &Backend) -> bool {
        &&& old.objects@.len() <= self.objects@.len()
        &&& forall|i: int| 0 <= i < old.objects@.len() ==> #[trigger] self.objects@[i] == old.objects@[i]
    }

    /// Nothing is bound readable or compute-writable.
    pub open spec fn slots_clear(&self) -> bool {
        &&& forall|i: int| 0 <= i < self.readable@.len() ==> self.readable@[i] is None
        &&& forall|i: int| 0 <= i < self.writable@.len() ==> self.writable@[i] is None
    }

    /// The bindings are as in `old`; CPU contents may have changed.
    pub open spec fn same_bindings_but_contents(&self, old: &Backend) -> bool {
        &&& self.live_grows(old)
        &&& self.render_targets@ == old.render_targets@
        &&& self.depth_view == old.depth_view
        &&& self.readable@ == old.readable@
        &&& self.writable@ == old.writable@
    }

    /// What binding readable `views` to slots `start_slot..` of `stage` did,
    /// going from `old` to `self`: refused, with no change, while one of their
    /// resources is bound writable; else those slots replaced.
    pub open spec fn readable_set(
        &self,
        old: &Backend,
        stage: Stage,
        start_slot: usize,
        views: Seq<usize>,
        r: Result<(), BindError>,
    ) -> bool {
        &&& (r is Err <==> old.any_writable(views))
        &&& (r is Err ==> *self == *old)
        &&& (r is Ok ==> {
            &&& self.trace() == old.trace().push(Cmd::SetReadable { stage, start_slot, views })
            &&& self.readable@ == slot_update(old.readable@, stage_base(stage) + start_slot, views)
            &&& self.objects@ == old.objects@
            &&& self.live@ == old.live@
            &&& self.render_targets@ == old.render_targets@
            &&& self.depth_view == old.depth_view
            &&& self.writable@ == old.writable@
            &&& self.contents@ == old.contents@
        })
    }

    /// A fresh device with nothing created and nothing bound.
    pub fn new() -> (b: Backend)
        ensures
            b.wf(),
            b.objects@.len() == 0,
            b.commands@.len() == 0,
            b.render_targets@.len() == 0,
            b.depth_view is None,
            forall|i: int| 0 <= i < b.readable@.len() ==> b.readable@[i] is None,
            forall|i: int| 0 <= i < b.writable@.len() ==> b.writable@[i] is None,
    {
        let mut readable: Vec<Option<usize>> = Vec::new();
        let mut i: usize = 0;
        while i < 3 * READABLE_SLOTS
            invariant
                i <= 3 * READABLE_SLOTS,
                readable@.len() == i,
                forall|j: int| 0 <= j < i ==> readable@[j] is None,
            decreases 3 * READABLE_SLOTS - i,
        {
            readable.push(None);
            i = i + 1;
        }
        let mut writable: Vec<Option<usize>> = Vec::new();
        let mut k: usize = 0;
        while k < WRITABLE_SLOTS
            invariant
                k <= WRITABLE_SLOTS,
                writable@.len() == k,
                forall|j: int| 0 <= j < k ==> writable@[j] is None,
            decreases WRITABLE_SLOTS - k,
        {
            writable.push(None);
            k = k + 1;
        }
        let b = Backend {
            objects: Vec::new(),
            contents: Vec::new(),
            live: Vec::new(),
            commands: Vec::new(),
            render_targets: Vec::new(),
            depth_view: None,
            readable,
            writable,
        };
        assert forall|r: int| #[trigger] b.readable_bound(r) implies !b.writable_bound(r) by {
            let i = choose|i: int|
                0 <= i < b.readable@.len() && #[trigger] b.holds(b.readable@[i], r);
            assert(b.readable@[i] is None);
        }
        b
    }

    /// Appends one command to the stream.
    fn record(&mut self, c: Command)
        ensures
            final(self).trace() == old(self).trace().push(c@),
            final(self).commands@.len() == old(self).commands@.len() + 1,
            final(self).same_state(old(self)),
            final(self).contents@ == old(self).contents@,
    {
        let ghost before = self.commands@;
        self.commands.push(c);
        assert(self.commands@.map_values(|c: Command| c@) =~= before.map_values(
            |c: Command| c@,
        ).push(c@));
    }

    /// Creates a resource after checking it against the creation rules.
    pub fn create_resource(&mut self, desc: ResourceDesc) -> (r: Result<usize, ResourceError>)
        requires
            old(self).wf(),
        ensures
            final(self).wf(),
            final(self).commands@ == old(self).commands@,
            match desc.creation_error() {
                Some(e) => r == Err::<usize, ResourceError>(e) && final(self).objects@ == old(
                    self,
                ).objects@ && final(self).live@ == old(self).live@,
                None => (r matches Ok(h) && h == old(self).objects@.len())
                    && final(self).live@ == old(self).live@.push(true)
                    && final(self).objects@ == old(self).objects@.push(
                    DeviceObject::Resource(desc),
                ),
            },
            final(self).render_targets@ == old(self).render_targets@,
            final(self).depth_view == old(self).depth_view,
            final(self).readable@ == old(self).readable@,
            final(self).writable@ == old(self).writable@,
            old(self).contents@.len() <= final(self).contents@.len(),
            forall|i: int|
                0 <= i < old(self).contents@.len() ==> final(self).contents@[i] == old(
                    self,
                ).contents@[i],
    {
        match desc.validate() {
            Some(e) => Err(e),
            None => Ok(self.add_object(DeviceObject::Resource(desc))),
        }
    }

    /// Creates a view of role `kind` over `resource`; refused when the
    /// resource was not created with the matching bind flag.
    pub fn create_view(&mut self, resource: usize, kind: ViewKind) -> (r: Result<
        usize,
        ResourceError,
    >)
        requires
            old(self).wf(),
            old(self).is_resource(resource as int),
        ensures
            final(self).wf(),
            final(self).view_created(old(self), resource, kind, r),
    {
        let ok = match &self.objects[resource] {
            DeviceObject::Resource(d) => d.allows_view(kind),
            _ => false,
        };
        if ok {
            Ok(self.add_object(DeviceObject::View { resource, kind }))
        } else {
            Err(ResourceError::UnsupportedView)
        }
    }

    /// A render-target view of `resource`.
    pub fn render_target_view(&mut self, resource: usize) -> (r: Result<usize, ResourceError>)
        requires
            old(self).wf(),
            old(self).is_resource(resource as int),
        ensures
            final(self).wf(),
            final(self).view_created(old(self), resource, ViewKind::RenderTarget, r),
    {
        self.create_view(resource, ViewKind::RenderTarget)
    }

    /// A depth-stencil view of `resource`.
    pub fn depth_stencil_view(&mut self, resource: usize) -> (r: Result<usize, ResourceError>)
        requires
            old(self).wf(),
            old(self).is_resource(resource as int),
        ensures
            final(self).wf(),
            final(self).view_created(old(self), resource, ViewKind::DepthStencil, r),
    {
        self.create_view(resource, ViewKind::DepthStencil)
    }

    /// A readable (sampling) view of `resource`.
    pub fn shader_resource_view(&mut self, resource: usize) -> (r: Result<usize, ResourceError>)
        requires
            old(self).wf(),
            old(self).is_resource(resource as int),
        ensures
            final(self).wf(),
            final(self).view_created(old(self), resource, ViewKind::Readable, r),
    {
        self.create_view(resource, ViewKind::Readable)
    }

    /// A compute-writable view of `resource`.
    pub fn unordered_access_view(&mut self, resource: usize) -> (r: Result<usize, ResourceError>)
        requires
            old(self).wf(),
            old(self).is_resource(resource as int),
        ensures
            final(self).wf(),
            final(self).view_created(old(self), resource, ViewKind::Writable, r),
    {
        self.create_view(resource, ViewKind::Writable)
    }

    /// Registers a shader program for `stage`, compiled from `entry_point` in
    /// the source file at `path`.
    pub fn compile_shader(&mut self, path: String, entry_point: String, stage: Stage) -> (h: usize)
        requires
            old(self).wf(),
        ensures
            final(self).wf(),
            final(self).commands@ == old(self).commands@,
            h == old(self).objects@.len(),
            final(self).objects@ == old(self).objects@.push(
                DeviceObject::Shader { stage, path, entry_point },
            ),
            final(self).same_bindings(old(self)),
    {
        self.add_object(DeviceObject::Shader { stage, path, entry_point })
    }

    /// Derives an input layout from a vertex shader and its attribute list.
    pub fn create_input_layout(&mut self, shader: usize, elements: Vec<InputElement>) -> (h: usize)
        requires
            old(self).wf(),
            old(self).is_shader(shader as int, Stage::Vertex),
        ensures
            final(self).wf(),
            final(self).commands@ == old(self).commands@,
            h == old(self).objects@.len(),
            final(self).objects@ == old(self).objects@.push(
                DeviceObject::InputLayout { shader, elements },
            ),
            final(self).same_bindings(old(self)),
    {
        self.add_object(DeviceObject::InputLayout { shader, elements })
    }

    /// Creates the depth-stencil state used by depth-tested passes (depth
    /// test "less", depth writes on, stencil counting front and back faces).
    pub fn create_depth_stencil_state(&mut self) -> (h: usize)
        requires
            old(self).wf(),
        ensures
            final(self).wf(),
            final(self).commands@ == old(self).commands@,
            h == old(self).objects@.len(),
            final(self).objects@ == old(self).objects@.push(DeviceObject::DepthStencilState),
            final(self).same_bindings(old(self)),
    {
        self.add_object(DeviceObject::DepthStencilState)
    }

    /// Creates the trilinear, wrapping sampler state.
    pub fn create_sampler_state(&mut self) -> (h: usize)
        requires
            old(self).wf(),
        ensures
            final(self).wf(),
            final(self).commands@ == old(self).commands@,
            h == old(self).objects@.len(),
            final(self).objects@ == old(self).objects@.push(DeviceObject::SamplerState),
            final(self).same_bindings(old(self)),
    {
        self.add_object(DeviceObject::SamplerState)
    }

    /// `self` is `old` with command `c` appended and nothing else changed.
    pub open spec fn recorded(&self, old: &Backend, c: Cmd) -> bool {
        &&& self.trace() == old.trace().push(c)
        &&& self.commands@.len() == old.commands@.len() + 1
        &&& self.same_state(old)
        &&& self.contents@ == old.contents@
    }

    /// Some view in `views` is of a resource that is bound readable.
    pub open spec fn any_readable(&self, views: Seq<usize>) -> bool {
        exists|i: int| 0 <= i < views.len() && #[trigger] self.readable_bound(self.resource_of(views[i] as int))
    }

    /// Some view in `views` is of a resource that is bound writable.
    pub open spec fn any_writable(&self, views: Seq<usize>) -> bool {
        exists|i: int| 0 <= i < views.len() && #[trigger] self.writable_bound(self.resource_of(views[i] as int))
    }

    /// Binding `targets` and `depth` as the draw destination would be hazardous.
    pub open spec fn targets_conflict(&self, targets: Seq<usize>, depth: Option<usize>) -> bool {
        ||| self.any_readable(targets)
        ||| (depth matches Some(d) && self.readable_bound(self.resource_of(d as int)))
    }

    pub open spec fn all_views(&self, views: Seq<usize>, kind: ViewKind) -> bool {
        forall|i: int| 0 <= i < views.len() ==> self.is_view(#[trigger] views[i] as int, kind)
    }

    fn view_resource(&self, v: usize) -> (r: usize)
        requires
            self.wf(),
            self.valid(v as int),
            self.objects@[v as int] is View,
        ensures
            r as int == self.resource_of(v as int),
    {
        match &self.objects[v] {
            DeviceObject::View { resource, .. } => *resource,
            _ => 0,
        }
    }

    /// Whether some readable slot holds a view of `r`.
    fn readable_holds(&self, r: usize) -> (b: bool)
        requires
            self.wf(),
        ensures
            b == self.readable_bound(r as int),
    {
        let mut i: usize = 0;
        while i < self.readable.len()
            invariant
                self.wf(),
                i <= self.readable@.len(),
                forall|j: int| 0 <= j < i ==> !#[trigger] self.holds(self.readable@[j], r as int),
            decreases self.readable@.len() - i,
        {
            if let Some(v) = self.readable[i] {
                if self.view_resource(v) == r {
                    assert(self.holds(self.readable@[i as int], r as int));
                    return true;
                }
            }
            i = i + 1;
        }
        false
    }

    /// Whether `r` is bound as render target, depth-stencil or compute-writable.
    pub fn writable_holds(&self, r: usize) -> (b: bool)
        requires
            self.wf(),
        ensures
            b == self.writable_bound(r as int),
    {
        let mut i: usize = 0;
        while i < self.render_targets.len()
            invariant
                self.wf(),
                i <= self.render_targets@.len(),
                forall|j: int| 0 <= j < i ==> self.resource_of(#[trigger] self.render_targets@[j] as int) != r,
            decreases self.render_targets@.len() - i,
        {
            if self.view_resource(self.render_targets[i]) == r {
                return true;
            }
            i = i + 1;
        }
        if let Some(d) = self.depth_view {
            if self.view_resource(d) == r {
                return true;
            }
        }
        let mut k: usize = 0;
        while k < self.writable.len()
            invariant
                self.wf(),
                k <= self.writable@.len(),
                forall|j: int| 0 <= j < k ==> !#[trigger] self.holds(self.writable@[j], r as int),
            decreases self.writable@.len() - k,
        {
            if let Some(v) = self.writable[k] {
                if self.view_resource(v) == r {
                    assert(self.holds(self.writable@[k as int], r as int));
                    return true;
                }
            }
            k = k + 1;
        }
        false
    }

    /// Whether some view in `views` is of a resource bound readable.
    fn any_readable_exec(&self, views: &Vec<usize>) -> (b: bool)
        requires
            self.wf(),
            forall|i: int| 0 <= i < views@.len() ==> #[trigger] self.valid(views@[i] as int) && self.objects@[views@[i] as int] is View,
        ensures
            b == self.any_readable(views@),
    {
        let mut i: usize = 0;
        while i < views.len()
            invariant
                self.wf(),
                i <= views@.len(),
                forall|i: int| 0 <= i < views@.len() ==> #[trigger] self.valid(views@[i] as int) && self.objects@[views@[i] as int] is View,
                forall|j: int| 0 <= j < i ==> !#[trigger] self.readable_bound(self.resource_of(views@[j] as int)),
            decreases views@.len() - i,
        {
            let r = self.view_resource(views[i]);
            if self.readable_holds(r) {
                assert(self.readable_bound(self.resource_of(views@[i as int] as int)));
                return true;
            }
            i = i + 1;
        }
        false
    }

    /// Whether some view in `views` is of a resource bound writable.
    fn any_writable_exec(&self, views: &Vec<usize>) -> (b: bool)
        requires
            self.wf(),
            forall|i: int| 0 <= i < views@.len() ==> #[trigger] self.valid(views@[i] as int) && self.objects@[views@[i] as int] is View,
        ensures
            b == self.any_writable(views@),
    {
        let mut i: usize = 0;
        while i < views.len()
            invariant
                self.wf(),
                i <= views@.len(),
                forall|i: int| 0 <= i < views@.len() ==> #[trigger] self.valid(views@[i] as int) && self.objects@[views@[i] as int] is View,
                forall|j: int| 0 <= j < i ==> !#[trigger] self.writable_bound(self.resource_of(views@[j] as int)),
            decreases views@.len() - i,
        {
            let r = self.view_resource(views[i]);
            if self.writable_holds(r) {
                assert(self.writable_bound(self.resource_of(views@[i as int] as int)));
                return true;
            }
            i = i + 1;
        }
        false
    }

    /// Binds `targets` and `depth` as the draw destination, replacing the
    /// previous ones; refused while any of their resources is bound readable.
    pub fn set_render_targets(&mut self, targets: &Vec<usize>, depth: Option<usize>) -> (r: Result<
        (),
        BindError,
    >)
        requires
            old(self).wf(),
            old(self).all_views(targets@, ViewKind::RenderTarget),
            depth matches Some(d) ==> old(self).is_view(d as int, ViewKind::DepthStencil),
        ensures
            final(self).wf(),
            r is Err <==> old(self).targets_conflict(targets@, depth),
            r is Err ==> *final(self) == *old(self),
            r is Ok ==> {
                &&& final(self).trace() == old(self).trace().push(
                    Cmd::SetRenderTargets { targets: targets@, depth },
                )
                &&& final(self).render_targets@ == targets@
                &&& final(self).depth_view == depth
                &&& final(self).objects@ == old(self).objects@
                &&& final(self).live@ == old(self).live@
                &&& final(self).readable@ == old(self).readable@
                &&& final(self).writable@ == old(self).writable@
                &&& final(self).contents@ == old(self).contents@
            },
    {
        if self.any_readable_exec(targets) {
            return Err(BindError::Hazard);
        }
        if let Some(d) = depth {
            let dr = self.view_resource(d);
            if self.readable_holds(dr) {
                return Err(BindError::Hazard);
            }
        }
        let ghost old_self = *self;
        self.render_targets = copy_handles(targets);
        self.depth_view = depth;
        self.record(Command::SetRenderTargets { targets: copy_handles(targets), depth });
        assert forall|r: int| #[trigger] self.readable_bound(r) implies !self.writable_bound(r) by {
            let i = choose|i: int|
                0 <= i < self.readable@.len() && #[trigger] self.holds(self.readable@[i], r);
            assert(old_self.holds(old_self.readable@[i], r));
            assert(old_self.readable_bound(r));
            if self.views_cover(self.render_targets@, r) {
                let j = choose|j: int|
                    0 <= j < self.render_targets@.len() && self.resource_of(
                        #[trigger] self.render_targets@[j] as int,
                    ) == r;
                assert(old_self.readable_bound(old_self.resource_of(targets@[j] as int)));
            }
            if exists|j: int| 0 <= j < self.writable@.len() && #[trigger] self.holds(self.writable@[j], r) {
                let j = choose|j: int|
                    0 <= j < self.writable@.len() && #[trigger] self.holds(self.writable@[j], r);
                assert(old_self.holds(old_self.writable@[j], r));
            }
        }
        Ok(())
    }

    /// Binds readable `views` to slots `start_slot..` of `stage`; the other
    /// slots keep their views. Refused while any of their resources is bound
    /// writable.
    pub fn set_shader_resources(&mut self, stage: Stage, start_slot: usize, views: &Vec<usize>) -> (r:
        Result<(), BindError>)
        requires
            old(self).wf(),
            start_slot + views@.len() <= READABLE_SLOTS,
            old(self).all_views(views@, ViewKind::Readable),
        ensures
            final(self).wf(),
            final(self).readable_set(old(self), stage, start_slot, views@, r),
    {
        if self.any_writable_exec(views) {
            return Err(BindError::Hazard);
        }
        let ghost old_self = *self;
        let base = stage_offset(stage) + start_slot;
        let mut i: usize = 0;
        while i < views.len()
            invariant
                old_self.wf(),
                base == stage_base(stage) + start_slot,
                base + views@.len() <= self.readable@.len(),
                i <= views@.len(),
                self.readable@.len() == old_self.readable@.len(),
                self.readable@ == slot_update(old_self.readable@, base as int, views@.subrange(0, i as int)),
                self.objects@ == old_self.objects@,
                self.render_targets@ == old_self.render_targets@,
                self.depth_view == old_self.depth_view,
                self.writable@ == old_self.writable@,
                self.contents@ == old_self.contents@,
                self.live@ == old_self.live@,
                self.commands@ == old_self.commands@,
            decreases views@.len() - i,
        {
            self.readable.set(base + i, Some(views[i]));
            i = i + 1;
            assert(self.readable@ =~= slot_update(old_self.readable@, base as int, views@.subrange(0, i as int)));
        }
        assert(views@.subrange(0, views@.len() as int) =~= views@);
        self.record(Command::SetReadable { stage, start_slot, views: copy_handles(views) });
        assert forall|i: int| 0 <= i < self.readable@.len() implies self.slot_is_view(
            #[trigger] self.readable@[i],
            ViewKind::Readable,
        ) by {
            assert(old_self.slot_is_view(old_self.readable@[i], ViewKind::Readable));
        }
        assert forall|r: int| #[trigger] self.readable_bound(r) implies !self.writable_bound(r) by {
            let i = choose|i: int|
                0 <= i < self.readable@.len() && #[trigger] self.holds(self.readable@[i], r);
            if base <= i < base + views@.len() {
                let k = i - base;
                assert(self.readable@[i] == Some(views@[k]));
                assert(!old_self.writable_bound(old_self.resource_of(views@[k] as int)));
                if self.views_cover(self.render_targets@, r) {
                    assert(old_self.views_cover(old_self.render_targets@, r));
                }
                if exists|j: int| 0 <= j < self.writable@.len() && #[trigger] self.holds(self.writable@[j], r) {
                    let j = choose|j: int|
                        0 <= j < self.writable@.len() && #[trigger] self.holds(self.writable@[j], r);
                    assert(old_self.holds(old_self.writable@[j], r));
                }
            } else {
                assert(old_self.holds(old_self.readable@[i], r));
                assert(old_self.readable_bound(r));
                if self.views_cover(self.render_targets@, r) {
                    assert(old_self.views_cover(old_self.render_targets@, r));
                }
                if exists|j: int| 0 <= j < self.writable@.len() && #[trigger] self.holds(self.writable@[j], r) {
                    let j = choose|j: int|
                        0 <= j < self.writable@.len() && #[trigger] self.holds(self.writable@[j], r);
                    assert(old_self.holds(old_self.writable@[j], r));
                }
            }
        }
        Ok(())
    }

    /// Binds readable `views` to slots `start_slot..` of the pixel stage.
    pub fn set_pixel_shader_attachments(&mut self, views: &Vec<usize>, start_slot: usize) -> (r: Result<(), BindError>)
        requires
            old(self).wf(),
            start_slot + views@.len() <= READABLE_SLOTS,
            old(self).all_views(views@, ViewKind::Readable),
        ensures
            final(self).wf(),
            final(self).readable_set(old(self), Stage::Pixel, start_slot, views@, r),
    {
        self.set_shader_resources(Stage::Pixel, start_slot, views)
    }

    /// Binds readable `views` to slots `start_slot..` of the vertex stage.
    pub fn set_vertex_shader_attachments(&mut self, views: &Vec<usize>, start_slot: usize) -> (r: Result<(), BindError>)
        requires
            old(self).wf(),
            start_slot + views@.len() <= READABLE_SLOTS,
            old(self).all_views(views@, ViewKind::Readable),
        ensures
            final(self).wf(),
            final(self).readable_set(old(self), Stage::Vertex, start_slot, views@, r),
    {
        self.set_shader_resources(Stage::Vertex, start_slot, views)
    }

    /// Hands out every command recorded so far, in issue order, and empties
    /// the record; nothing else changes.
    pub fn take_commands(&mut self) -> (r: Vec<Command>)
        requires
            old(self).wf(),
        ensures
            final(self).wf(),
            r@ == old(self).commands@,
            final(self).commands@.len() == 0,
            final(self).same_state(old(self)),
            final(self).contents@ == old(self).contents@,
    {
        let ghost old_self = *self;
        let mut r: Vec<Command> = Vec::new();
        std::mem::swap(&mut r, &mut self.commands);
        proof { lemma_same_bindings_hazard_free(&old_self, self); }
        r
    }

    /// The resource and role of view `v`; `None` when `v` is not a view.
    pub fn view_info(&self, v: usize) -> (r: Option<(usize, ViewKind)>)
        requires
            self.wf(),
        ensures
            match r {
                Some((res, kind)) => self.is_view(v as int, kind) && res == self.resource_of(v as int),
                None => !(self.valid(v as int) && self.objects@[v as int] is View),
            },
    {
        if v >= self.objects.len() {
            return None;
        }
        match &self.objects[v] {
            DeviceObject::View { resource, kind } => Some((*resource, *kind)),
            _ => None,
        }
    }

    /// Handle `h` is bound somewhere: as a view in a slot, or (for a
    /// resource) through any bound view.
    pub open spec fn handle_bound(&self, h: int) -> bool {
        ||| (exists|i: int| 0 <= i < self.render_targets@.len() && self.render_targets@[i] == h)
        ||| self.depth_view == Some(h as usize)
        ||| (exists|i: int| 0 <= i < self.readable@.len() && self.readable@[i] == Some(h as usize))
        ||| (exists|i: int| 0 <= i < self.writable@.len() && self.writable@[i] == Some(h as usize))
        ||| self.readable_bound(h)
        ||| self.writable_bound(h)
    }

    /// Releases a held object that nothing binds: the device drops it. Its
    /// handle stays taken, and its description stays readable.
    pub fn release(&mut self, h: usize)
        requires
            old(self).wf(),
            old(self).valid(h as int),
            old(self).live@[h as int],
            !old(self).handle_bound(h as int),
        ensures
            final(self).wf(),
            final(self).live@ == old(self).live@.update(h as int, false),
            final(self).trace() == old(self).trace().push(Cmd::Release { handle: h }),
            final(self).objects@ == old(self).objects@,
            final(self).render_targets@ == old(self).render_targets@,
            final(self).depth_view == old(self).depth_view,
            final(self).readable@ == old(self).readable@,
            final(self).writable@ == old(self).writable@,
            final(self).contents@ == old(self).contents@,
    {
        let ghost old_self = *self;
        self.live.set(h, false);
        self.commands.push(Command::Release { handle: h });
        assert(self.commands@.map_values(|c: Command| c@) =~= old_self.commands@.map_values(
            |c: Command| c@,
        ).push(Cmd::Release { handle: h }));
        assert forall|r: int| #[trigger] self.readable_bound(r) implies !self.writable_bound(r) by {
            let i = choose|i: int| 0 <= i < self.readable@.len() && #[trigger] self.holds(self.readable@[i], r);
            assert(old_self.holds(old_self.readable@[i], r));
            assert(old_self.readable_bound(r));
            if self.views_cover(self.render_targets@, r) {
                assert(old_self.views_cover(old_self.render_targets@, r));
            }
            if exists|j: int| 0 <= j < self.writable@.len() && #[trigger] self.holds(self.writable@[j], r) {
                let j = choose|j: int| 0 <= j < self.writable@.len() && #[trigger] self.holds(self.writable@[j], r);
                assert(old_self.holds(old_self.writable@[j], r));
            }
        }
    }

    /// Clears every readable slot of every stage.
    pub fn unbind_shader_resources(&mut self)
        requires
            old(self).wf(),
        ensures
            final(self).wf(),
            final(self).trace() == old(self).trace().push(Cmd::UnbindAllReadable),
            final(self).readable@.len() == old(self).readable@.len(),
            forall|i: int| 0 <= i < final(self).readable@.len() ==> final(self).readable@[i] is None,
            final(self).objects@ == old(self).objects@,
            final(self).live@ == old(self).live@,
            final(self).render_targets@ == old(self).render_targets@,
            final(self).depth_view == old(self).depth_view,
            final(self).writable@ == old(self).writable@,
            final(self).contents@ == old(self).contents@,
    {
        let ghost old_self = *self;
        let mut i: usize = 0;
        while i < self.readable.len()
            invariant
                old_self.wf(),
                i <= self.readable@.len(),
                self.readable@.len() == old_self.readable@.len(),
                forall|j: int| 0 <= j < i ==> self.readable@[j] is None,
                forall|j: int| i <= j < self.readable@.len() ==> self.readable@[j] == old_self.readable@[j],
                self.objects@ == old_self.objects@,
                self.render_targets@ == old_self.render_targets@,
                self.depth_view == old_self.depth_view,
                self.writable@ == old_self.writable@,
                self.contents@ == old_self.contents@,
                self.live@ == old_self.live@,
                self.commands@ == old_self.commands@,
            decreases self.readable@.len() - i,
        {
            self.readable.set(i, None);
            i = i + 1;
        }
        self.record(Command::UnbindAllReadable);
        assert forall|r: int| #[trigger] self.readable_bound(r) implies !self.writable_bound(r) by {
            let i = choose|i: int|
                0 <= i < self.readable@.len() && #[trigger] self.holds(self.readable@[i], r);
            assert(self.readable@[i] is None);
        }
    }

    /// Binds compute-writable `views` to slots `start_slot..`; the other slots
    /// keep their views. Refused while any of their resources is bound readable.
    pub fn set_unordered_access_views(&mut self, start_slot: usize, views: &Vec<usize>) -> (r: Result<
        (),
        BindError,
    >)
        requires
            old(self).wf(),
            start_slot + views@.len() <= WRITABLE_SLOTS,
            old(self).all_views(views@, ViewKind::Writable),
        ensures
            final(self).wf(),
            r is Err <==> old(self).any_readable(views@),
            r is Err ==> *final(self) == *old(self),
            r is Ok ==> {
                &&& final(self).trace() == old(self).trace().push(
                    Cmd::SetWritable { start_slot, views: views@ },
                )
                &&& final(self).writable@ == slot_update(old(self).writable@, start_slot as int, views@)
                &&& final(self).objects@ == old(self).objects@
                &&& final(self).live@ == old(self).live@
                &&& final(self).render_targets@ == old(self).render_targets@
                &&& final(self).depth_view == old(self).depth_view
                &&& final(self).readable@ == old(self).readable@
                &&& final(self).contents@ == old(self).contents@
            },
    {
        if self.any_readable_exec(views) {
            return Err(BindError::Hazard);
        }
        let ghost old_self = *self;
        let mut i: usize = 0;
        while i < views.len()
            invariant
                old_self.wf(),
                start_slot + views@.len() <= self.writable@.len(),
                i <= views@.len(),
                self.writable@.len() == old_self.writable@.len(),
                self.writable@ == slot_update(old_self.writable@, start_slot as int, views@.subrange(0, i as int)),
                self.objects@ == old_self.objects@,
                self.render_targets@ == old_self.render_targets@,
                self.depth_view == old_self.depth_view,
                self.readable@ == old_self.readable@,
                self.contents@ == old_self.contents@,
                self.live@ == old_self.live@,
                self.commands@ == old_self.commands@,
            decreases views@.len() - i,
        {
            self.writable.set(start_slot + i, Some(views[i]));
            i = i + 1;
            assert(self.writable@ =~= slot_update(old_self.writable@, start_slot as int, views@.subrange(0, i as int)));
        }
        assert(views@.subrange(0, views@.len() as int) =~= views@);
        self.record(Command::SetWritable { start_slot, views: copy_handles(views) });
        assert forall|i: int| 0 <= i < self.writable@.len() implies self.slot_is_view(
            #[trigger] self.writable@[i],
            ViewKind::Writable,
        ) by {
            assert(old_self.slot_is_view(old_self.writable@[i], ViewKind::Writable));
        }
        assert forall|r: int| #[trigger] self.readable_bound(r) implies !self.writable_bound(r) by {
            let i = choose|i: int|
                0 <= i < self.readable@.len() && #[trigger] self.holds(self.readable@[i], r);
            assert(old_self.holds(old_self.readable@[i], r));
            assert(old_self.readable_bound(r));
            if self.views_cover(self.render_targets@, r) {
                assert(old_self.views_cover(old_self.render_targets@, r));
            }
            if exists|j: int| 0 <= j < self.writable@.len() && #[trigger] self.holds(self.writable@[j], r) {
                let j = choose|j: int|
                    0 <= j < self.writable@.len() && #[trigger] self.holds(self.writable@[j], r);
                if start_slot <= j < start_slot + views@.len() {
                    assert(!old_self.readable_bound(old_self.resource_of(views@[j - start_slot] as int)));
                } else {
                    assert(old_self.holds(old_self.writable@[j], r));
                }
            }
        }
        Ok(())
    }

    /// Clears every compute-writable slot.
    pub fn unbind_unordered_access_views(&mut self)
        requires
            old(self).wf(),
        ensures
            final(self).wf(),
            final(self).trace() == old(self).trace().push(Cmd::UnbindAllWritable),
            final(self).writable@.len() == old(self).writable@.len(),
            forall|i: int| 0 <= i < final(self).writable@.len() ==> final(self).writable@[i] is None,
            final(self).objects@ == old(self).objects@,
            final(self).live@ == old(self).live@,
            final(self).render_targets@ == old(self).render_targets@,
            final(self).depth_view == old(self).depth_view,
            final(self).readable@ == old(self).readable@,
            final(self).contents@ == old(self).contents@,
    {
        let ghost old_self = *self;
        let mut i: usize = 0;
        while i < self.writable.len()
            invariant
                old_self.wf(),
                i <= self.writable@.len(),
                self.writable@.len() == old_self.writable@.len(),
                forall|j: int| 0 <= j < i ==> self.writable@[j] is None,
                forall|j: int| i <= j < self.writable@.len() ==> self.writable@[j] == old_self.writable@[j],
                self.objects@ == old_self.objects@,
                self.render_targets@ == old_self.render_targets@,
                self.depth_view == old_self.depth_view,
                self.readable@ == old_self.readable@,
                self.contents@ == old_self.contents@,
                self.live@ == old_self.live@,
                self.commands@ == old_self.commands@,
            decreases self.writable@.len() - i,
        {
            self.writable.set(i, None);
            i = i + 1;
        }
        self.record(Command::UnbindAllWritable);
        assert forall|r: int| #[trigger] self.readable_bound(r) implies !self.writable_bound(r) by {
            let i = choose|i: int|
                0 <= i < self.readable@.len() && #[trigger] self.holds(self.readable@[i], r);
            assert(old_self.holds(old_self.readable@[i], r));
            assert(old_self.readable_bound(r));
            if self.views_cover(self.render_targets@, r) {
                assert(old_self.views_cover(old_self.render_targets@, r));
            }
            if exists|j: int| 0 <= j < self.writable@.len() && #[trigger] self.holds(self.writable@[j], r) {
                let j = choose|j: int|
                    0 <= j < self.writable@.len() && #[trigger] self.holds(self.writable@[j], r);
                assert(self.writable@[j] is None);
            }
        }
    }

    /// Issues a command that changes no binding.
    fn issue(&mut self, c: Command)
        requires
            old(self).wf(),
        ensures
            final(self).wf(),
            final(self).recorded(old(self), c@),
    {
        let ghost old_self = *self;
        self.record(c);
        proof { lemma_same_bindings_hazard_free(&old_self, self); }
    }

    /// Clears a render-target view to opaque black.
    pub fn clear_render_target_view(&mut self, view: usize)
        requires
            old(self).wf(),
            old(self).is_view(view as int, ViewKind::RenderTarget),
        ensures
            final(self).wf(),
            final(self).recorded(old(self), Cmd::ClearRenderTarget { view }),
    {
        self.issue(Command::ClearRenderTarget { view })
    }

    /// Clears depth to 1 and stencil to 0.
    pub fn clear_depth_stencil_view(&mut self, view: usize)
        requires
            old(self).wf(),
            old(self).is_view(view as int, ViewKind::DepthStencil),
        ensures
            final(self).wf(),
            final(self).recorded(old(self), Cmd::ClearDepthStencil { view }),
    {
        self.issue(Command::ClearDepthStencil { view })
    }

    /// Binds a depth-stencil state object.
    pub fn set_depth_stencil_state(&mut self, state: usize)
        requires
            old(self).wf(),
            old(self).is_depth_state(state as int),
        ensures
            final(self).wf(),
            final(self).recorded(old(self), Cmd::SetDepthStencilState { state }),
    {
        self.issue(Command::SetDepthStencilState { state })
    }

    /// Binds (or, with `None`, unbinds) the program of one stage.
    pub fn set_shader(&mut self, stage: Stage, shader: Option<usize>)
        requires
            old(self).wf(),
            shader matches Some(h) ==> old(self).is_shader(h as int, stage),
        ensures
            final(self).wf(),
            final(self).recorded(old(self), Cmd::SetShader { stage, shader }),
    {
        self.issue(Command::SetShader { stage, shader })
    }

    /// Binds sampler states from slot 0 of the pixel and vertex stages.
    pub fn set_sampler_states(&mut self, samplers: &Vec<usize>)
        requires
            old(self).wf(),
            forall|i: int| 0 <= i < samplers@.len() ==> old(self).is_sampler(#[trigger] samplers@[i] as int),
        ensures
            final(self).wf(),
            final(self).recorded(old(self), Cmd::SetSamplers { samplers: samplers@ }),
    {
        self.issue(Command::SetSamplers { samplers: copy_handles(samplers) })
    }

    /// Binds an input layout for the vertex stage.
    pub fn set_input_layout(&mut self, layout: usize)
        requires
            old(self).wf(),
            old(self).is_layout(layout as int),
        ensures
            final(self).wf(),
            final(self).recorded(old(self), Cmd::SetInputLayout { layout }),
    {
        self.issue(Command::SetInputLayout { layout })
    }

    /// Binds a constant buffer to one slot of `stage`.
    pub fn set_constant_buffer(&mut self, stage: Stage, slot: u32, buffer: usize)
        requires
            old(self).wf(),
            old(self).is_buffer_for(buffer as int, BufferRole::Constant),
        ensures
            final(self).wf(),
            final(self).recorded(old(self), Cmd::SetConstantBuffer { stage, slot, buffer }),
    {
        self.issue(Command::SetConstantBuffer { stage, slot, buffer })
    }

    /// Binds the vertex buffer of the next draws.
    pub fn set_vertex_buffer(&mut self, buffer: usize, stride: u32)
        requires
            old(self).wf(),
            old(self).is_buffer_for(buffer as int, BufferRole::Vertex),
        ensures
            final(self).wf(),
            final(self).recorded(old(self), Cmd::SetVertexBuffer { buffer, stride }),
    {
        self.issue(Command::SetVertexBuffer { buffer, stride })
    }

    /// Binds the (32-bit) index buffer of the next indexed draws.
    pub fn set_index_buffer(&mut self, buffer: usize)
        requires
            old(self).wf(),
            old(self).is_buffer_for(buffer as int, BufferRole::Index),
        ensures
            final(self).wf(),
            final(self).recorded(old(self), Cmd::SetIndexBuffer { buffer }),
    {
        self.issue(Command::SetIndexBuffer { buffer })
    }

    /// Draws `vertex_count` vertices.
    pub fn draw(&mut self, vertex_count: u32)
        requires
            old(self).wf(),
        ensures
            final(self).wf(),
            final(self).recorded(old(self), Cmd::Draw { vertex_count }),
    {
        self.issue(Command::Draw { vertex_count })
    }

    /// Draws `index_count` indices of the bound index buffer.
    pub fn draw_indexed(&mut self, index_count: u32)
        requires
            old(self).wf(),
        ensures
            final(self).wf(),
            final(self).recorded(old(self), Cmd::DrawIndexed { index_count }),
    {
        self.issue(Command::DrawIndexed { index_count })
    }

    /// Dispatches `x * y * z` compute thread groups.
    pub fn dispatch(&mut self, x: u32, y: u32, z: u32)
        requires
            old(self).wf(),
        ensures
            final(self).wf(),
            final(self).recorded(old(self), Cmd::Dispatch { x, y, z }),
    {
        self.issue(Command::Dispatch { x, y, z })
    }

    /// Presents the back buffer.
    pub fn present(&mut self)
        requires
            old(self).wf(),
        ensures
            final(self).wf(),
            final(self).recorded(old(self), Cmd::Present),
    {
        self.issue(Command::Present)
    }

    /// Maps a CPU-writable buffer, copies `data` to its start and unmaps it,
    /// all within this call.
    pub fn update_buffer(&mut self, buffer: usize, data: &[u8]) -> (r: Result<(), MapError>)
        requires
            old(self).wf(),
            old(self).is_resource(buffer as int),
            old(self).resource_desc(buffer as int) is Buffer,
        ensures
            final(self).wf(),
            r == old(self).map_outcome(buffer as int, data@.len()),
            r is Err ==> *final(self) == *old(self),
            r is Ok ==> {
                &&& final(self).trace() == old(self).trace().push(
                    Cmd::UpdateBuffer { buffer, data: data@ },
                )
                &&& final(self).same_state(old(self))
                &&& final(self).contents@ == old(self).contents@.update(buffer as int, final(self).contents@[buffer as int])
                &&& final(self).contents@[buffer as int]@ == data@
            },
    {
        let (cpu_write, width) = match &self.objects[buffer] {
            DeviceObject::Resource(ResourceDesc::Buffer(d)) => (d.cpu_access_flags.write, d.byte_width),
            _ => (false, 0),
        };
        if !cpu_write {
            return Err(MapError::NotCpuWritable);
        }
        if data.len() > width as usize {
            return Err(MapError::TooLarge);
        }
        self.store_contents(buffer, copy_bytes(data));
        self.issue(Command::UpdateBuffer { buffer, data: copy_bytes(data) });
        Ok(())
    }

    /// What `update_buffer` answers for `len` bytes into `buffer`.
    pub open spec fn map_outcome(&self, buffer: int, len: nat) -> Result<(), MapError> {
        let d = self.resource_desc(buffer)->Buffer_0;
        if !d.cpu_access_flags.write {
            Err(MapError::NotCpuWritable)
        } else if len > d.byte_width {
            Err(MapError::TooLarge)
        } else {
            Ok(())
        }
    }

    /// The bytes last copied into `buffer` from the CPU.
    pub fn read_back(&self, buffer: usize) -> (r: Vec<u8>)
        requires
            self.valid(buffer as int),
            self.contents@.len() == self.objects@.len(),
        ensures
            r@ == self.contents@[buffer as int]@,
    {
        copy_bytes(self.contents[buffer].as_slice())
    }

    fn store_contents(&mut self, buffer: usize, bytes: Vec<u8>)
        requires
            old(self).wf(),
            old(self).valid(buffer as int),
        ensures
            final(self).wf(),
            final(self).commands@ == old(self).commands@,
            final(self).same_state(old(self)),
            final(self).contents@ == old(self).contents@.update(buffer as int, bytes),
    {
        let ghost old_self = *self;
        self.contents.set(buffer, bytes);
        proof { lemma_same_bindings_hazard_free(&old_self, self); }
    }

    /// Adds an object and returns its handle.
    fn add_object(&mut self, o: DeviceObject) -> (h: usize)
        requires
            old(self).wf(),
            o is View ==> {
                let r = o->View_resource as int;
                &&& old(self).is_resource(r)
                &&& old(self).resource_desc(r).supports(o->View_kind)
            },
            o is Resource ==> o->Resource_0.creation_error() is None,
        ensures
            final(self).wf(),
            h == old(self).objects@.len(),
            final(self).objects@ == old(self).objects@.push(o),
            final(self).contents@.len() == old(self).contents@.len() + 1,
            forall|i: int| 0 <= i < h ==> final(self).contents@[i] == old(self).contents@[i],
            final(self).contents@[h as int]@.len() == 0,
            final(self).commands@ == old(self).commands@,
            final(self).render_targets@ == old(self).render_targets@,
            final(self).depth_view == old(self).depth_view,
            final(self).readable@ == old(self).readable@,
            final(self).writable@ == old(self).writable@,
            final(self).live@ == old(self).live@.push(true),
    {
        let h = self.objects.len();
        let ghost old_self = *self;
        self.objects.push(o);
        let _ = self.objects.len();
        self.contents.push(Vec::new());
        self.live.push(true);
        assert forall|r: int| #[trigger] self.readable_bound(r) implies !self.writable_bound(r) by {
            let i = choose|i: int|
                0 <= i < self.readable@.len() && #[trigger] self.holds(self.readable@[i], r);
            assert(old_self.holds(old_self.readable@[i], r));
            assert(old_self.readable_bound(r));
            if self.views_cover(self.render_targets@, r) {
                let j = choose|j: int|
                    0 <= j < self.render_targets@.len() && self.resource_of(
                        #[trigger] self.render_targets@[j] as int,
                    ) == r;
                assert(old_self.views_cover(old_self.render_targets@, r));
            }
            if self.holds(self.depth_view, r) {
                assert(old_self.holds(old_self.depth_view, r));
            }
            if exists|j: int| 0 <= j < self.writable@.len() && #[trigger] self.holds(self.writable@[j], r) {
                let j = choose|j: int|
                    0 <= j < self.writable@.len() && #[trigger] self.holds(self.writable@[j], r);
                assert(old_self.holds(old_self.writable@[j], r));
            }
        }
        h
    }
}


/// A context whose objects and bindings are those of a hazard-free one is
/// hazard-free.
proof fn lemma_same_bindings_hazard_free(a: &Backend, b: &Backend)
    requires
        a.hazard_free(),
        b.same_state(a),
    ensures
        b.hazard_free(),
{
    assert forall|r: int| #[trigger] b.readable_bound(r) implies !b.writable_bound(r) by {
        let i = choose|i: int| 0 <= i < b.readable@.len() && #[trigger] b.holds(b.readable@[i], r);
        assert(a.holds(a.readable@[i], r));
        assert(a.readable_bound(r));
        if b.views_cover(b.render_targets@, r) {
            assert(a.views_cover(a.render_targets@, r));
        }
        if exists|j: int| 0 <= j < b.writable@.len() && #[trigger] b.holds(b.writable@[j], r) {
            let j = choose|j: int| 0 <= j < b.writable@.len() && #[trigger] b.holds(b.writable@[j], r);
            assert(a.holds(a.writable@[j], r));
        }
    }
}

/// Contexts with the same objects and readable slots agree on which resources
/// are bound readable, and so on which bindings would be hazardous.
pub proof fn lemma_same_readable(a: &Backend, b: &Backend)
    requires
        a.objects@ == b.objects@,
        a.readable@ == b.readable@,
    ensures
        forall|r: int| #[trigger] a.readable_bound(r) == b.readable_bound(r),
        forall|v: Seq<usize>| #[trigger] a.any_readable(v) == b.any_readable(v),
        forall|t: Seq<usize>, d: Option<usize>| #[trigger] a.targets_conflict(t, d) == b.targets_conflict(t, d),
{
    assert forall|r: int| #[trigger] a.readable_bound(r) == b.readable_bound(r) by {
        if a.readable_bound(r) {
            let i = choose|i: int| 0 <= i < a.readable@.len() && #[trigger] a.holds(a.readable@[i], r);
            assert(b.holds(b.readable@[i], r));
        }
        if b.readable_bound(r) {
            let i = choose|i: int| 0 <= i < b.readable@.len() && #[trigger] b.holds(b.readable@[i], r);
            assert(a.holds(a.readable@[i], r));
        }
    }
    assert forall|v: Seq<usize>| #[trigger] a.any_readable(v) == b.any_readable(v) by {
        if a.any_readable(v) {
            let i = choose|i: int| 0 <= i < v.len() && #[trigger] a.readable_bound(a.resource_of(v[i] as int));
            assert(b.readable_bound(b.resource_of(v[i] as int)));
        }
        if b.any_readable(v) {
            let i = choose|i: int| 0 <= i < v.len() && #[trigger] b.readable_bound(b.resource_of(v[i] as int));
            assert(a.readable_bound(a.resource_of(v[i] as int)));
        }
    }
}

/// The slot tables of a well-formed context have their fixed sizes, and
/// every object has a CPU contents entry.
pub proof fn lemma_wf_sizes(b: &Backend)
    requires
        b.wf(),
    ensures
        b.readable@.len() == 3 * READABLE_SLOTS,
        b.writable@.len() == WRITABLE_SLOTS,
        b.contents@.len() == b.objects@.len(),
        b.live@.len() == b.objects@.len(),
        b.objects@.len() <= usize::MAX,
{
}

/// A view's resource was created before the view.
pub proof fn lemma_view_resource(b: &Backend, v: int)
    requires
        b.wf(),
        b.valid(v),
        b.objects@[v] is View,
    ensures
        0 <= b.resource_of(v) < v,
        b.is_resource(b.resource_of(v)),
{
}

/// What is known of an object stays true while the context only grows.
pub proof fn lemma_extends_keeps(a: &Backend, b: &Backend)
    requires
        b.extends(a),
    ensures
        forall|v: int, k: ViewKind| #[trigger] a.is_view(v, k) ==> b.is_view(v, k) && b.resource_of(v) == a.resource_of(v),
        forall|h: int| #[trigger] a.is_resource(h) ==> b.is_resource(h) && b.resource_desc(h) == a.resource_desc(h),
{
    assert forall|v: int, k: ViewKind| #[trigger] a.is_view(v, k) implies b.is_view(v, k) && b.resource_of(v) == a.resource_of(v) by {
        assert(b.objects@[v] == a.objects@[v]);
    }
    assert forall|h: int| #[trigger] a.is_resource(h) implies b.is_resource(h) && b.resource_desc(h) == a.resource_desc(h) by {
        assert(b.objects@[h] == a.objects@[h]);
    }
}

/// Every resource that exists was created with a legal combination of
/// access rights: never CPU-writable and GPU-writable at once.
pub proof fn lemma_no_dual_access(b: &Backend, h: int)
    requires
        b.wf(),
        b.is_resource(h),
    ensures
        !(b.resource_desc(h).cpu_writable() && b.resource_desc(h).gpu_writable()),
{
    assert(b.objects@[h] is Resource);
}

/// At every instant a resource is bound in at most one of the two roles:
/// readable, or writable (render target, depth-stencil, compute-writable).
pub proof fn lemma_roles_exclusive(b: &Backend, r: int)
    requires
        b.wf(),
    ensures
        !(b.readable_bound(r) && b.writable_bound(r)),
{
}

/// A copy of a list of handles.
pub fn copy_handles(v: &Vec<usize>) -> (r: Vec<usize>)
    ensures
        r@ == v@,
{
    let mut r: Vec<usize> = Vec::new();
    let mut i: usize = 0;
    while i < v.len()
        invariant
            i <= v@.len(),
            r@ == v@.subrange(0, i as int),
        decreases v@.len() - i,
    {
        r.push(v[i]);
        i = i + 1;
        assert(r@ =~= v@.subrange(0, i as int));
    }
    assert(r@ =~= v@);
    r
}

/// A copy of a byte slice.
pub fn copy_bytes(v: &[u8]) -> (r: Vec<u8>)
    ensures
        r@ == v@,
{
    let mut r: Vec<u8> = Vec::new();
    let mut i: usize = 0;
    while i < v.len()
        invariant
            i <= v@.len(),
            r@ == v@.subrange(0, i as int),
        decreases v@.len() - i,
    {
        r.push(v[i]);
        i = i + 1;
        assert(r@ =~= v@.subrange(0, i as int));
    }
    assert(r@ =~= v@);
    r
}

} // verus!
