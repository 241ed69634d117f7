//! The atmospheric precomputation: a fixed chain of compute passes that turns
//! the atmosphere's constants into transmittance, irradiance and in-scattering
//! look-up textures.
use vstd::prelude::*;
use crate::backend::{lemma_extends_keeps, lemma_view_resource, lemma_wf_sizes, Backend, Cmd, DeviceObject, Stage, READABLE_SLOTS, WRITABLE_SLOTS};
use crate::gpu_buffer::{dynamic_desc, structured_desc, GPUBuffer};
use crate::render_pass::{DepthAttachment, Operation, PassError, PassModel, RenderPass};
use crate::resource::{
    aligned_size, BindFlags, BufferDesc, CpuAccessFlags, Format, MiscFlags, ResourceDesc, SampleDesc, Texture2DDesc,
    Texture3DDesc, Usage, ViewKind, no_bind_flags,
};
use crate::shader::Shader;
use crate::texture::{Tex2D, Tex3D, TextureDescBuilder};

verus! {

/// Bytes of one look-up-table element (three 32-bit floats).
pub const LUT_ELEMENT_SIZE: u32 = 12;

/// Samples of the transmittance table: view-zenith by altitude.
pub const TRANSMITTANCE_WIDTH: u32 = 256;
pub const TRANSMITTANCE_HEIGHT: u32 = 64;

/// Samples of the irradiance table: sun-zenith by altitude.
pub const IRRADIANCE_WIDTH: u32 = 64;
pub const IRRADIANCE_HEIGHT: u32 = 16;

/// Elements of an in-scattering buffer: view-zenith, sun-zenith,
/// view-sun angle and altitude layers.
pub const INSCATTER_ELEMENTS: u32 = 32 * 128 * 32 * 8;

/// The in-scattering texture.
pub const INSCATTER_WIDTH: u32 = 256;
pub const INSCATTER_HEIGHT: u32 = 128;
pub const INSCATTER_DEPTH: u32 = 32;

/// Bytes of the constants block as the shaders read it.
pub const CONSTANTS_SIZE: u32 = 60;

/// The atmosphere's parameters. Every real number is held as its IEEE-754
/// single-precision bit pattern, which is what the uniform block receives.
#[derive(Clone, Copy, Debug)]
pub struct AtmosphericConstants {
    /// Rayleigh scattering coefficients per kilometre (red, green, blue).
    pub beta_rayleigh: [u32; 3],
    /// Scattering orders to compute.
    pub num_scattering: u32,
    /// Wavelengths in nanometres (red, green, blue).
    pub wave_lengths: [u32; 3],
    /// Smallest cosine of the sun-zenith angle tabulated.
    pub mu_s_min: u32,
    pub solar_irradiance: [u32; 3],
    /// Radius of the ground, in kilometres.
    pub atmos_bottom: u32,
    /// Radius of the top of the atmosphere, in kilometres.
    pub atmos_top: u32,
    /// Mie scale height, in kilometres.
    pub h_m: u32,
    /// Rayleigh scale height, in kilometres.
    pub h_r: u32,
}

/// The four little-endian bytes of `w`.
pub open spec fn le_word(w: u32) -> Seq<u8> {
    seq![(w % 256) as u8, (w / 256 % 256) as u8, (w / 65536 % 256) as u8, (w / 16777216) as u8]
}

/// The words laid out one after the other, each little-endian.
pub open spec fn le_bytes(words: Seq<u32>) -> Seq<u8>
    decreases words.len(),
{
    if words.len() == 0 {
        Seq::empty()
    } else {
        le_bytes(words.drop_last()) + le_word(words.last())
    }
}

impl AtmosphericConstants {
    /// The uniform block's words, in the order the shaders declare them.
    pub open spec fn words(self) -> Seq<u32> {
        seq![
            self.beta_rayleigh[0], self.beta_rayleigh[1], self.beta_rayleigh[2],
            self.num_scattering,
            self.wave_lengths[0], self.wave_lengths[1], self.wave_lengths[2],
            self.mu_s_min,
            self.solar_irradiance[0], self.solar_irradiance[1], self.solar_irradiance[2],
            self.atmos_bottom, self.atmos_top, self.h_m, self.h_r,
        ]
    }

    fn word_list(&self) -> (r: Vec<u32>)
        ensures
            r@ == self.words(),
    {
        let r = vec![
            self.beta_rayleigh[0], self.beta_rayleigh[1], self.beta_rayleigh[2],
            self.num_scattering,
            self.wave_lengths[0], self.wave_lengths[1], self.wave_lengths[2],
            self.mu_s_min,
            self.solar_irradiance[0], self.solar_irradiance[1], self.solar_irradiance[2],
            self.atmos_bottom, self.atmos_top, self.h_m, self.h_r,
        ];
        assert(r@ =~= self.words());
        r
    }

    /// The uniform block's bytes.
    pub fn to_bytes(&self) -> (r: Vec<u8>)
        ensures
            r@ == le_bytes(self.words()),
            r@.len() == CONSTANTS_SIZE,
    {
        let words = self.word_list();
        let mut r: Vec<u8> = Vec::new();
        let mut i: usize = 0;
        while i < words.len()
            invariant
                i <= words@.len(),
                words@ == self.words(),
                r@ == le_bytes(words@.subrange(0, i as int)),
                r@.len() == 4 * i,
            decreases words@.len() - i,
        {
            let w = words[i];
            r.push((w % 256) as u8);
            r.push((w / 256 % 256) as u8);
            r.push((w / 65536 % 256) as u8);
            r.push((w / 16777216) as u8);
            assert(words@.subrange(0, i + 1).drop_last() =~= words@.subrange(0, i as int));
            i = i + 1;
            assert(r@ =~= le_bytes(words@.subrange(0, i as int)));
        }
        assert(words@.subrange(0, words@.len() as int) =~= words@);
        r
    }
}

pub open spec fn earth_constants() -> AtmosphericConstants {
    AtmosphericConstants {
        beta_rayleigh: [0x3bbe0ded, 0x3c5d2f1b, 0x3d0793de],
        num_scattering: 0,
        wave_lengths: [0x442a0000, 0x44098000, 0x43dc0000],
        mu_s_min: 0xbe4ccccd,
        solar_irradiance: [0x3f800000, 0x3f800000, 0x3f800000],
        atmos_bottom: 0x45c6c000,
        atmos_top: 0x45c8a000,
        h_m: 0x3f99999a,
        h_r: 0x41000000,
    }
}

impl Default for AtmosphericConstants {
    /// An Earth-like atmosphere: radii 6360 and 6420 km, Rayleigh
    /// coefficients 5.8e-3, 1.35e-2 and 3.31e-2 per km, wavelengths 680, 550
    /// and 440 nm, unit solar irradiance, scale heights 8.0 km (Rayleigh) and
    /// 1.2 km (Mie), smallest sun-zenith cosine -0.2.
    fn default() -> (c: AtmosphericConstants)
        ensures
            c == earth_constants(),
    {
        AtmosphericConstants {
            beta_rayleigh: [0x3bbe0ded, 0x3c5d2f1b, 0x3d0793de],
            num_scattering: 0,
            wave_lengths: [0x442a0000, 0x44098000, 0x43dc0000],
            mu_s_min: 0xbe4ccccd,
            solar_irradiance: [0x3f800000, 0x3f800000, 0x3f800000],
            atmos_bottom: 0x45c6c000,
            atmos_top: 0x45c8a000,
            h_m: 0x3f99999a,
            h_r: 0x41000000,
        }
    }
}

/// The states of the precomputation, in the order the pipeline runs them.
#[derive(Clone, Copy, Debug, PartialEq, Eq, Structural)]
pub enum PrecomputeStage {
    UploadConstants,
    Transmittance,
    SingleIrradiance,
    SingleInscatter,
    CopyTransmittanceToTexture,
    CopyIrradianceToTexture,
    CopyInscatterToTexture,
    Done,
}

/// The stages whose output a stage reads.
pub open spec fn depends_on(s: PrecomputeStage) -> Seq<PrecomputeStage> {
    match s {
        PrecomputeStage::UploadConstants => seq![],
        PrecomputeStage::Transmittance => seq![PrecomputeStage::UploadConstants],
        PrecomputeStage::SingleIrradiance => seq![PrecomputeStage::UploadConstants, PrecomputeStage::Transmittance],
        PrecomputeStage::SingleInscatter => seq![PrecomputeStage::UploadConstants, PrecomputeStage::Transmittance],
        PrecomputeStage::CopyTransmittanceToTexture => seq![PrecomputeStage::Transmittance],
        PrecomputeStage::CopyIrradianceToTexture => seq![PrecomputeStage::SingleIrradiance],
        PrecomputeStage::CopyInscatterToTexture => seq![PrecomputeStage::SingleInscatter],
        PrecomputeStage::Done => seq![
            PrecomputeStage::CopyTransmittanceToTexture,
            PrecomputeStage::CopyIrradianceToTexture,
            PrecomputeStage::CopyInscatterToTexture,
        ],
    }
}

/// Stage `d` is issued somewhere before position `i` of `s`.
pub open spec fn issued_before(s: Seq<PrecomputeStage>, i: int, d: PrecomputeStage) -> bool {
    exists|j: int| 0 <= j < i && s[j] == d
}

/// Every stage of `s` is issued strictly after each stage it reads from.
pub open spec fn schedule_valid(s: Seq<PrecomputeStage>) -> bool {
    forall|i: int, k: int|
        0 <= i < s.len() && 0 <= k < depends_on(s[i]).len() ==> issued_before(s, i, #[trigger] depends_on(s[i])[k])
}

impl PrecomputeStage {
    /// The stages whose output this stage reads.
    pub fn dependencies(&self) -> (r: Vec<PrecomputeStage>)
        ensures
            r@ == depends_on(*self),
    {
        let r = match self {
            PrecomputeStage::UploadConstants => vec![],
            PrecomputeStage::Transmittance => vec![PrecomputeStage::UploadConstants],
            PrecomputeStage::SingleIrradiance => vec![PrecomputeStage::UploadConstants, PrecomputeStage::Transmittance],
            PrecomputeStage::SingleInscatter => vec![PrecomputeStage::UploadConstants, PrecomputeStage::Transmittance],
            PrecomputeStage::CopyTransmittanceToTexture => vec![PrecomputeStage::Transmittance],
            PrecomputeStage::CopyIrradianceToTexture => vec![PrecomputeStage::SingleIrradiance],
            PrecomputeStage::CopyInscatterToTexture => vec![PrecomputeStage::SingleInscatter],
            PrecomputeStage::Done => vec![
                PrecomputeStage::CopyTransmittanceToTexture,
                PrecomputeStage::CopyIrradianceToTexture,
                PrecomputeStage::CopyInscatterToTexture,
            ],
        };
        assert(r@ =~= depends_on(*self));
        r
    }

    /// The state that follows this one; none after `Done`.
    pub fn next(&self) -> (r: Option<PrecomputeStage>)
        ensures
            r == next_stage(*self),
    {
        match self {
            PrecomputeStage::UploadConstants => Some(PrecomputeStage::Transmittance),
            PrecomputeStage::Transmittance => Some(PrecomputeStage::SingleIrradiance),
            PrecomputeStage::SingleIrradiance => Some(PrecomputeStage::SingleInscatter),
            PrecomputeStage::SingleInscatter => Some(PrecomputeStage::CopyTransmittanceToTexture),
            PrecomputeStage::CopyTransmittanceToTexture => Some(PrecomputeStage::CopyIrradianceToTexture),
            PrecomputeStage::CopyIrradianceToTexture => Some(PrecomputeStage::CopyInscatterToTexture),
            PrecomputeStage::CopyInscatterToTexture => Some(PrecomputeStage::Done),
            PrecomputeStage::Done => None,
        }
    }
}

pub open spec fn next_stage(s: PrecomputeStage) -> Option<PrecomputeStage> {
    match s {
        PrecomputeStage::UploadConstants => Some(PrecomputeStage::Transmittance),
        PrecomputeStage::Transmittance => Some(PrecomputeStage::SingleIrradiance),
        PrecomputeStage::SingleIrradiance => Some(PrecomputeStage::SingleInscatter),
        PrecomputeStage::SingleInscatter => Some(PrecomputeStage::CopyTransmittanceToTexture),
        PrecomputeStage::CopyTransmittanceToTexture => Some(PrecomputeStage::CopyIrradianceToTexture),
        PrecomputeStage::CopyIrradianceToTexture => Some(PrecomputeStage::CopyInscatterToTexture),
        PrecomputeStage::CopyInscatterToTexture => Some(PrecomputeStage::Done),
        PrecomputeStage::Done => None,
    }
}

/// The order in which the pipeline runs its stages.
pub open spec fn pipeline_order() -> Seq<PrecomputeStage> {
    seq![
        PrecomputeStage::UploadConstants,
        PrecomputeStage::Transmittance,
        PrecomputeStage::SingleIrradiance,
        PrecomputeStage::SingleInscatter,
        PrecomputeStage::CopyTransmittanceToTexture,
        PrecomputeStage::CopyIrradianceToTexture,
        PrecomputeStage::CopyInscatterToTexture,
        PrecomputeStage::Done,
    ]
}

/// Whether `stages` issues every stage strictly after the stages it reads
/// from; a schedule that issues a consumer before its producer is rejected.
pub fn validate_schedule(stages: &Vec<PrecomputeStage>) -> (r: bool)
    ensures
        r == schedule_valid(stages@),
{
    let mut i: usize = 0;
    while i < stages.len()
        invariant
            i <= stages@.len(),
            forall|a: int, k: int|
                0 <= a < i && 0 <= k < depends_on(stages@[a]).len() ==> issued_before(
                    stages@,
                    a,
                    #[trigger] depends_on(stages@[a])[k],
                ),
        decreases stages@.len() - i,
    {
        let deps = stages[i].dependencies();
        let mut k: usize = 0;
        while k < deps.len()
            invariant
                i < stages@.len(),
                k <= deps@.len(),
                deps@ == depends_on(stages@[i as int]),
                forall|a: int, k: int|
                    0 <= a < i && 0 <= k < depends_on(stages@[a]).len() ==> issued_before(
                        stages@,
                        a,
                        #[trigger] depends_on(stages@[a])[k],
                    ),
                forall|q: int| 0 <= q < k ==> issued_before(stages@, i as int, #[trigger] deps@[q]),
            decreases deps@.len() - k,
        {
            let mut found = false;
            let mut j: usize = 0;
            while j < i
                invariant
                    j <= i < stages@.len(),
                    k < deps@.len(),
                    found ==> issued_before(stages@, i as int, deps@[k as int]),
                    !found ==> forall|q: int| 0 <= q < j ==> stages@[q] != deps@[k as int],
                decreases i - j,
            {
                if stages[j] == deps[k] {
                    found = true;
                }
                j = j + 1;
            }
            if !found {
                assert(!issued_before(stages@, i as int, depends_on(stages@[i as int])[k as int]));
                return false;
            }
            k = k + 1;
        }
        i = i + 1;
    }
    true
}

/// The pipeline's own order issues every stage after its producers: in
/// particular the transmittance stage strictly before both single-scattering
/// stages.
pub proof fn lemma_pipeline_order_valid()
    ensures
        schedule_valid(pipeline_order()),
        forall|i: int| 0 <= i < pipeline_order().len() - 1 ==> next_stage(pipeline_order()[i]) == Some(pipeline_order()[i + 1]),
        next_stage(pipeline_order().last()) is None,
{
    let s = pipeline_order();
    assert forall|i: int, k: int|
        0 <= i < s.len() && 0 <= k < depends_on(s[i]).len() implies issued_before(s, i, #[trigger] depends_on(s[i])[k]) by {
        if i == 1 { assert(s[0] == depends_on(s[i])[k]); }
        if i == 2 || i == 3 { if k == 0 { assert(s[0] == depends_on(s[i])[k]); } else { assert(s[1] == depends_on(s[i])[k]); } }
        if i == 4 { assert(s[1] == depends_on(s[i])[k]); }
        if i == 5 { assert(s[2] == depends_on(s[i])[k]); }
        if i == 6 { assert(s[3] == depends_on(s[i])[k]); }
        if i == 7 {
            if k == 0 { assert(s[4] == depends_on(s[i])[k]); }
            else if k == 1 { assert(s[5] == depends_on(s[i])[k]); }
            else { assert(s[6] == depends_on(s[i])[k]); }
        }
    }
}

/// The stages the pipeline runs, in order: from `UploadConstants`, each
/// state's successor, up to `Done`.
pub fn precompute_schedule() -> (r: Vec<PrecomputeStage>)
    ensures
        r@ == pipeline_order(),
        schedule_valid(r@),
{
    let mut r: Vec<PrecomputeStage> = Vec::new();
    let mut state = PrecomputeStage::UploadConstants;
    let mut n: usize = 0;
    proof { lemma_pipeline_order_valid(); }
    loop
        invariant
            n < 8,
            r@ == pipeline_order().subrange(0, n as int),
            state == pipeline_order()[n as int],
            forall|i: int| 0 <= i < pipeline_order().len() - 1 ==> next_stage(pipeline_order()[i]) == Some(pipeline_order()[i + 1]),
            next_stage(pipeline_order().last()) is None,
        decreases 8 - n,
    {
        r.push(state);
        match state.next() {
            Some(s) => {
                state = s;
                n = n + 1;
                assert(r@ =~= pipeline_order().subrange(0, n as int));
            },
            None => {
                assert(n == 7) by {
                    if n < 7 { assert(next_stage(pipeline_order()[n as int]) is Some); }
                }
                assert(r@ =~= pipeline_order());
                return r;
            },
        }
    }
}

/// Uploading the constants into buffer `cb` and binding it to the compute stage.
pub open spec fn upload_cmds(c: AtmosphericConstants, cb: usize) -> Seq<Cmd> {
    seq![
        Cmd::UpdateBuffer { buffer: cb, data: le_bytes(c.words()) },
        Cmd::SetConstantBuffer { stage: Stage::Compute, slot: 0, buffer: cb },
    ]
}

/// One compute pass run by the pipeline, and the release of its bindings.
pub open spec fn pass_run(program: usize, srvs: Seq<usize>, uavs: Seq<usize>, x: u32, y: u32, z: u32) -> Seq<Cmd> {
    compute_pass(Shader::Compute(program), srvs, uavs, x, y, z).execute_cmds(0) + seq![
        Cmd::UnbindAllReadable,
        Cmd::UnbindAllWritable,
    ]
}

/// Steps one to four, on a context whose next handle is `n`: the uniform
/// block is `n`; the transmittance, irradiance, Rayleigh and Mie buffers are
/// `n + 1`, `n + 4`, `n + 7` and `n + 10`, each followed by its writable and
/// its readable view; the three programs are `n + 13` to `n + 15`.
pub open spec fn scatter_cmds(c: AtmosphericConstants, n: usize) -> Seq<Cmd> {
    upload_cmds(c, n) + seq![Cmd::UnbindAllReadable, Cmd::UnbindAllWritable]
        + pass_run((n + 13) as usize, seq![], seq![(n + 2) as usize], 8, 64, 1)
        + pass_run((n + 14) as usize, seq![(n + 3) as usize], seq![(n + 5) as usize], 2, 16, 1)
        + pass_run((n + 15) as usize, seq![(n + 3) as usize], seq![(n + 8) as usize, (n + 11) as usize], 8, 128, 32)
}

/// Steps five to seven, reading the views `t`, `i`, `ray` and `mie`, on a
/// context whose next handle is `m`: each texture is followed by its
/// writable view and its copy program.
pub open spec fn copy_cmds(t: usize, i: usize, ray: usize, mie: usize, m: usize) -> Seq<Cmd> {
    pass_run((m + 2) as usize, seq![t], seq![(m + 1) as usize], 8, 64, 1)
        + pass_run((m + 5) as usize, seq![i], seq![(m + 4) as usize], 2, 16, 1)
        + pass_run((m + 8) as usize, seq![ray, mie], seq![(m + 7) as usize], 8, 128, 32)
}

/// Everything the precomputation issues on a context whose next handle is `n`.
pub open spec fn precompute_cmds(c: AtmosphericConstants, n: usize) -> Seq<Cmd> {
    scatter_cmds(c, n) + copy_cmds((n + 3) as usize, (n + 6) as usize, (n + 9) as usize, (n + 12) as usize, (n + 16) as usize)
}

fn one_handle(h: usize) -> (r: Vec<usize>)
    ensures
        r@ == seq![h],
{
    let mut r: Vec<usize> = Vec::new();
    r.push(h);
    assert(r@ =~= seq![h]);
    r
}

fn two_handles(a: usize, b: usize) -> (r: Vec<usize>)
    ensures
        r@ == seq![a, b],
{
    let mut r: Vec<usize> = Vec::new();
    r.push(a);
    r.push(b);
    assert(r@ =~= seq![a, b]);
    r
}

/// Why the precomputation stopped.
#[derive(Clone, Copy, Debug, PartialEq, Eq, Structural)]
pub enum PrecomputeError {
    Resource(crate::resource::ResourceError),
    Mapping(crate::backend::MapError),
    Pass(PassError),
}

/// A compute pass that reads `srvs`, writes `uavs` and dispatches `x * y * z` groups.
pub open spec fn compute_pass(shader: Shader, srvs: Seq<usize>, uavs: Seq<usize>, x: u32, y: u32, z: u32) -> PassModel {
    PassModel {
        depth: DepthAttachment { bind_depth_buffer: false, depth_state: None, depth_view: None },
        input_layout: None,
        vertex_stride: 0,
        shader_resources: srvs,
        render_targets: Seq::empty(),
        unordered_access_views: uavs,
        sampler_states: Seq::empty(),
        pixel_shader: None,
        vertex_shader: None,
        compute_shader: Some(shader),
        execution: Some(Operation::Dispatch { x, y, z }),
        clear_rtv: false,
    }
}

/// Runs one compute pass on a context with nothing bound readable or
/// writable, then unbinds its readable and writable views again.
fn run_compute_pass(
    backend: &mut Backend,
    shader: Shader,
    srvs: Vec<usize>,
    uavs: Vec<usize>,
    x: u32,
    y: u32,
    z: u32,
)
    requires
        old(backend).wf(),
        old(backend).slots_clear(),
        shader is Compute,
        old(backend).is_shader(shader.program() as int, Stage::Compute),
        old(backend).all_views(srvs@, ViewKind::Readable),
        old(backend).all_views(uavs@, ViewKind::Writable),
        srvs@.len() <= READABLE_SLOTS,
        uavs@.len() <= WRITABLE_SLOTS,
        forall|i: int, j: int|
            0 <= i < srvs@.len() && 0 <= j < uavs@.len() ==> old(backend).resource_of(#[trigger] srvs@[i] as int)
                != old(backend).resource_of(#[trigger] uavs@[j] as int),
    ensures
        final(backend).wf(),
        final(backend).slots_clear(),
        final(backend).objects@ == old(backend).objects@,
        final(backend).live@ == old(backend).live@,
        final(backend).render_targets@.len() == 0,
        final(backend).depth_view is None,
        final(backend).trace() == old(backend).trace() + compute_pass(shader, srvs@, uavs@, x, y, z).execute_cmds(0)
            + seq![Cmd::UnbindAllReadable, Cmd::UnbindAllWritable],
{
    let ghost b0 = *backend;
    let pass = RenderPass {
        depth_attachment: DepthAttachment { bind_depth_buffer: false, depth_state: None, depth_view: None },
        input_layout: None,
        vertex_stride: 0,
        shader_resources: srvs,
        render_targets: Vec::new(),
        unordered_access_views: uavs,
        sampler_states: Vec::new(),
        pixel_shader: None,
        vertex_shader: None,
        compute_shader: Some(shader),
        execution: Some(Operation::Dispatch { x, y, z }),
        clear_rtv: false,
    };
    let ghost p = pass@;
    assert(p == compute_pass(shader, srvs@, uavs@, x, y, z));
    assert(!b0.any_readable(p.render_targets));
    assert(!b0.any_readable(p.unordered_access_views)) by {
        if b0.any_readable(p.unordered_access_views) {
            let i = choose|i: int| 0 <= i < p.unordered_access_views.len() && #[trigger] b0.readable_bound(b0.resource_of(p.unordered_access_views[i] as int));
            let r = b0.resource_of(p.unordered_access_views[i] as int);
            let k = choose|k: int| 0 <= k < b0.readable@.len() && #[trigger] b0.holds(b0.readable@[k], r);
        }
    }
    assert(!p.reads_what_it_writes(&b0)) by {
        if p.reads_what_it_writes(&b0) {
            let i = choose|i: int| 0 <= i < p.shader_resources.len() && #[trigger] p.writes(&b0, b0.resource_of(p.shader_resources[i] as int));
            let r = b0.resource_of(p.shader_resources[i] as int);
            if b0.views_cover(p.unordered_access_views, r) {
                let j = choose|j: int| 0 <= j < p.unordered_access_views.len() && b0.resource_of(#[trigger] p.unordered_access_views[j] as int) == r;
                assert(b0.resource_of(srvs@[i] as int) != b0.resource_of(uavs@[j] as int));
            }
        }
    }
    let r = pass.execute(backend, 0);
    backend.unbind_shader_resources();
    backend.unbind_unordered_access_views();
    assert(backend.trace() =~= b0.trace() + p.execute_cmds(0) + seq![Cmd::UnbindAllReadable, Cmd::UnbindAllWritable]);
}

/// The description of a GPU-computed table of `elements` entries.
pub open spec fn lut_buffer_desc(elements: u32) -> BufferDesc {
    structured_desc(LUT_ELEMENT_SIZE, elements, true)
}

/// A GPU-computed structured buffer of `elements` table entries, with its
/// writable view (handle + 1) and its readable view (handle + 2).
fn lut_buffer(backend: &mut Backend, elements: u32) -> (r: Result<(usize, usize, usize), PrecomputeError>)
    requires
        old(backend).wf(),
        LUT_ELEMENT_SIZE * elements <= u32::MAX,
        elements > 0,
    ensures
        final(backend).wf(),
        final(backend).extends(old(backend)),
        final(backend).commands@ == old(backend).commands@,
        final(backend).same_bindings(old(backend)),
        r is Ok,
        r matches Ok((b, uav, srv)) ==> {
            &&& b == old(backend).objects@.len()
            &&& uav == b + 1
            &&& srv == b + 2
            &&& final(backend).objects@ == old(backend).objects@.push(
                DeviceObject::Resource(ResourceDesc::Buffer(lut_buffer_desc(elements))),
            ).push(DeviceObject::View { resource: b, kind: ViewKind::Writable }).push(
                DeviceObject::View { resource: b, kind: ViewKind::Readable },
            )
        },
{
    assert(LUT_ELEMENT_SIZE * elements > 0) by (nonlinear_arith)
        requires elements > 0;
    assert(structured_desc(LUT_ELEMENT_SIZE, elements, true).byte_width != 0);
    assert(ResourceDesc::Buffer(structured_desc(LUT_ELEMENT_SIZE, elements, true)).creation_error() is None);
    proof { lemma_wf_sizes(old(backend)); }
    let buffer = match GPUBuffer::structured_buffer(backend, LUT_ELEMENT_SIZE, elements, true) {
        Ok(b) => b,
        Err(e) => { return Err(PrecomputeError::Resource(e)); },
    };
    let uav = match backend.unordered_access_view(buffer.buffer) {
        Ok(v) => v,
        Err(e) => { return Err(PrecomputeError::Resource(e)); },
    };
    let srv = match backend.shader_resource_view(buffer.buffer) {
        Ok(v) => v,
        Err(e) => { return Err(PrecomputeError::Resource(e)); },
    };
    Ok((buffer.buffer, uav, srv))
}

/// A filterable RGBA float 2D table of `w` by `h` texels, sampled by the
/// renderer and written by a compute pass.
pub open spec fn lut_desc2d(w: u32, h: u32) -> Texture2DDesc {
    Texture2DDesc {
        width: w,
        height: h,
        mip_levels: 1,
        array_size: 1,
        format: Format::R32G32B32A32Float,
        sample_desc: SampleDesc { count: 1, quality: 0 },
        usage: Usage::Default,
        bind_flags: BindFlags { shader_resource: true, unordered_access: true, ..no_bind_flags() },
        cpu_access_flags: CpuAccessFlags { read: false, write: false },
        misc_flags: MiscFlags { generate_mips: false, buffer_structured: false },
    }
}

/// A filterable RGBA float 3D table of `w` by `h` by `d` texels.
pub open spec fn lut_desc3d(w: u32, h: u32, d: u32) -> Texture3DDesc {
    Texture3DDesc {
        width: w,
        height: h,
        depth: d,
        mip_levels: 1,
        format: Format::R32G32B32A32Float,
        usage: Usage::Default,
        bind_flags: BindFlags { shader_resource: true, unordered_access: true, ..no_bind_flags() },
        cpu_access_flags: CpuAccessFlags { read: false, write: false },
        misc_flags: MiscFlags { generate_mips: false, buffer_structured: false },
    }
}

fn lut_bind_flags() -> (f: BindFlags)
    ensures
        f == (BindFlags { shader_resource: true, unordered_access: true, ..no_bind_flags() }),
{
    BindFlags { shader_resource: true, unordered_access: true, ..BindFlags::none() }
}

/// A 2D table texture and its writable view (handle + 1).
fn lut_texture2d(backend: &mut Backend, w: u32, h: u32) -> (r: Result<(Tex2D, usize), PrecomputeError>)
    requires
        old(backend).wf(),
        w > 0,
        h > 0,
    ensures
        final(backend).wf(),
        final(backend).extends(old(backend)),
        final(backend).commands@ == old(backend).commands@,
        final(backend).same_bindings(old(backend)),
        r is Ok,
        r matches Ok((t, uav)) ==> {
            &&& t.texture == old(backend).objects@.len()
            &&& uav == t.texture + 1
            &&& t.desc == lut_desc2d(w, h)
            &&& final(backend).objects@ == old(backend).objects@.push(
                DeviceObject::Resource(ResourceDesc::Texture2D(t.desc)),
            ).push(DeviceObject::View { resource: t.texture, kind: ViewKind::Writable })
        },
{
    proof { lemma_wf_sizes(old(backend)); }
    let desc = TextureDescBuilder::new()
        .bind_flags(lut_bind_flags())
        .format(Format::R32G32B32A32Float)
        .mip_levels(1)
        .size([w, h, 0])
        .build_texture2d();
    assert(desc == lut_desc2d(w, h));
    assert(ResourceDesc::Texture2D(desc).creation_error() is None);
    let t = match Tex2D::new(backend, desc) {
        Ok(t) => t,
        Err(e) => { return Err(PrecomputeError::Resource(e)); },
    };
    let uav = match backend.unordered_access_view(t.texture) {
        Ok(v) => v,
        Err(e) => { return Err(PrecomputeError::Resource(e)); },
    };
    Ok((t, uav))
}

/// A 3D table texture and its writable view (handle + 1).
fn lut_texture3d(backend: &mut Backend, w: u32, h: u32, d: u32) -> (r: Result<(Tex3D, usize), PrecomputeError>)
    requires
        old(backend).wf(),
        w > 0,
        h > 0,
        d > 0,
    ensures
        final(backend).wf(),
        final(backend).extends(old(backend)),
        final(backend).commands@ == old(backend).commands@,
        final(backend).same_bindings(old(backend)),
        r is Ok,
        r matches Ok((t, uav)) ==> {
            &&& t.texture == old(backend).objects@.len()
            &&& uav == t.texture + 1
            &&& t.desc == lut_desc3d(w, h, d)
            &&& final(backend).objects@ == old(backend).objects@.push(
                DeviceObject::Resource(ResourceDesc::Texture3D(t.desc)),
            ).push(DeviceObject::View { resource: t.texture, kind: ViewKind::Writable })
        },
{
    proof { lemma_wf_sizes(old(backend)); }
    let desc = TextureDescBuilder::new()
        .bind_flags(lut_bind_flags())
        .format(Format::R32G32B32A32Float)
        .mip_levels(1)
        .size([w, h, d])
        .build_texture3d();
    assert(desc == lut_desc3d(w, h, d));
    assert(ResourceDesc::Texture3D(desc).creation_error() is None);
    let t = match Tex3D::new(backend, desc) {
        Ok(t) => t,
        Err(e) => { return Err(PrecomputeError::Resource(e)); },
    };
    let uav = match backend.unordered_access_view(t.texture) {
        Ok(v) => v,
        Err(e) => { return Err(PrecomputeError::Resource(e)); },
    };
    Ok((t, uav))
}

/// Compiles the compute program at entry point `main` of the file `path`.
fn compute_program(backend: &mut Backend, path: &str) -> (s: Shader)
    requires
        old(backend).wf(),
    ensures
        final(backend).wf(),
        final(backend).extends(old(backend)),
        final(backend).commands@ == old(backend).commands@,
        final(backend).same_bindings(old(backend)),
        final(backend).objects@.len() == old(backend).objects@.len() + 1,
        final(backend).objects@.subrange(0, old(backend).objects@.len() as int) == old(backend).objects@,
        s is Compute && s.program() == old(backend).objects@.len(),
        is_program(final(backend), old(backend).objects@.len() as int, path@),
{
    let ghost b0 = *backend;
    let s = Shader::compute_shader(backend, path.to_owned(), "main".to_owned());
    assert(backend.objects@.subrange(0, b0.objects@.len() as int) =~= b0.objects@);
    s
}

/// Step one: the constants, mapped into a uniform block bound to slot 0 of
/// the compute stage.
fn upload_constants(backend: &mut Backend, constants: &AtmosphericConstants) -> (r: Result<usize, PrecomputeError>)
    requires
        old(backend).wf(),
    ensures
        final(backend).wf(),
        final(backend).extends(old(backend)),
        final(backend).same_bindings_but_contents(old(backend)),
        r is Ok,
        r matches Ok(h) ==> {
            &&& h == old(backend).objects@.len()
            &&& final(backend).objects@ == old(backend).objects@.push(DeviceObject::Resource(
                ResourceDesc::Buffer(dynamic_desc(64, BindFlags { constant_buffer: true, ..no_bind_flags() })),
            ))
            &&& final(backend).contents@[h as int]@ == le_bytes(constants.words())
            &&& final(backend).trace() == old(backend).trace() + upload_cmds(*constants, h)
        },
{
    proof { lemma_wf_sizes(old(backend)); }
    let ghost t0 = backend.trace();
    let bytes = constants.to_bytes();
    assert(aligned_size(CONSTANTS_SIZE as nat) == 64);
    assert(ResourceDesc::Buffer(dynamic_desc(64, BindFlags { constant_buffer: true, ..no_bind_flags() })).creation_error() is None);
    let cbuffer = match GPUBuffer::constant_buffer(backend, CONSTANTS_SIZE) {
        Ok(b) => b,
        Err(e) => { return Err(PrecomputeError::Resource(e)); },
    };
    match cbuffer.map(backend, bytes.as_slice()) {
        Ok(()) => {},
        Err(e) => { return Err(PrecomputeError::Mapping(e)); },
    }
    backend.set_constant_buffer(Stage::Compute, 0, cbuffer.buffer);
    assert(backend.trace() =~= t0 + upload_cmds(*constants, cbuffer.buffer));
    Ok(cbuffer.buffer)
}

/// Handle `h` is a compute program compiled from entry point `main` of the
/// file whose path is `path`.
pub open spec fn is_program(b: &Backend, h: int, path: Seq<char>) -> bool {
    &&& b.valid(h)
    &&& b.objects@[h] is Shader
    &&& b.objects@[h]->Shader_stage == Stage::Compute
    &&& b.objects@[h]->Shader_path@ == path
    &&& b.objects@[h]->Shader_entry_point@ == "main"@
}

/// Handle `v` is a view of role `kind` over resource `r`.
pub open spec fn is_view_of(b: &Backend, v: int, r: int, kind: ViewKind) -> bool {
    b.valid(v) && b.objects@[v] == DeviceObject::View { resource: r as usize, kind }
}

/// Handle `h` is a table buffer of `elements` entries, followed by its
/// writable and its readable view.
pub open spec fn is_lut_buffer(b: &Backend, h: int, elements: u32) -> bool {
    &&& b.valid(h)
    &&& b.objects@[h] == DeviceObject::Resource(ResourceDesc::Buffer(lut_buffer_desc(elements)))
    &&& is_view_of(b, h + 1, h, ViewKind::Writable)
    &&& is_view_of(b, h + 2, h, ViewKind::Readable)
}

/// The sixteen objects of steps one to four, from handle `n`.
pub open spec fn scatter_objects(b: &Backend, n: int) -> bool {
    &&& b.valid(n)
    &&& b.objects@[n] == DeviceObject::Resource(
        ResourceDesc::Buffer(dynamic_desc(64, BindFlags { constant_buffer: true, ..no_bind_flags() })),
    )
    &&& is_lut_buffer(b, n + 1, (TRANSMITTANCE_WIDTH * TRANSMITTANCE_HEIGHT) as u32)
    &&& is_lut_buffer(b, n + 4, (IRRADIANCE_WIDTH * IRRADIANCE_HEIGHT) as u32)
    &&& is_lut_buffer(b, n + 7, INSCATTER_ELEMENTS)
    &&& is_lut_buffer(b, n + 10, INSCATTER_ELEMENTS)
    &&& is_program(b, n + 13, "atmospheric_precompute_transmittance.hlsl"@)
    &&& is_program(b, n + 14, "atmospheric_precompute_single_irradiance.hlsl"@)
    &&& is_program(b, n + 15, "atmospheric_precompute_single_inscatter.hlsl"@)
}

/// The nine objects of steps five to seven, from handle `m`: each texture,
/// its writable view and its copy program.
pub open spec fn copy_objects(b: &Backend, m: int) -> bool {
    &&& b.valid(m + 8)
    &&& b.objects@[m] == DeviceObject::Resource(ResourceDesc::Texture2D(lut_desc2d(TRANSMITTANCE_WIDTH, TRANSMITTANCE_HEIGHT)))
    &&& is_view_of(b, m + 1, m, ViewKind::Writable)
    &&& is_program(b, m + 2, "atmospheric_precompute_copy_transmittance.hlsl"@)
    &&& b.objects@[m + 3] == DeviceObject::Resource(ResourceDesc::Texture2D(lut_desc2d(IRRADIANCE_WIDTH, IRRADIANCE_HEIGHT)))
    &&& is_view_of(b, m + 4, m + 3, ViewKind::Writable)
    &&& is_program(b, m + 5, "atmospheric_precompute_copy_irradiance.hlsl"@)
    &&& b.objects@[m + 6] == DeviceObject::Resource(
        ResourceDesc::Texture3D(lut_desc3d(INSCATTER_WIDTH, INSCATTER_HEIGHT, INSCATTER_DEPTH)),
    )
    &&& is_view_of(b, m + 7, m + 6, ViewKind::Writable)
    &&& is_program(b, m + 8, "atmospheric_precompute_copy_single_inscatter.hlsl"@)
}

/// Steps one to four: uploads the constants, then computes transmittance,
/// single irradiance and single in-scattering into scratch buffers. Returns
/// the readable views of the transmittance, irradiance, Rayleigh and Mie
/// buffers.
#[verifier::rlimit(100)]
fn scatter(backend: &mut Backend, constants: &AtmosphericConstants) -> (r: Result<(usize, usize, usize, usize), PrecomputeError>)
    requires
        old(backend).wf(),
    ensures
        final(backend).wf(),
        final(backend).extends(old(backend)),
        final(backend).slots_clear(),
        final(backend).live_grows(old(backend)),
        final(backend).render_targets@.len() == 0,
        final(backend).depth_view is None,
        r is Ok,
        r matches Ok((t, i, ray, mie)) ==> {
            &&& final(backend).objects@.len() == old(backend).objects@.len() + 16
            &&& t == old(backend).objects@.len() + 3
            &&& i == old(backend).objects@.len() + 6
            &&& ray == old(backend).objects@.len() + 9
            &&& mie == old(backend).objects@.len() + 12
            &&& final(backend).trace() == old(backend).trace() + scatter_cmds(*constants, old(backend).objects@.len() as usize)
            &&& scatter_objects(final(backend), old(backend).objects@.len() as int)
            &&& final(backend).is_view(t as int, ViewKind::Readable)
            &&& final(backend).is_view(i as int, ViewKind::Readable)
            &&& final(backend).is_view(ray as int, ViewKind::Readable)
            &&& final(backend).is_view(mie as int, ViewKind::Readable)
        },
{
    proof { lemma_wf_sizes(old(backend)); }
    let ghost n = old(backend).objects@.len() as usize;
    let ghost t0 = old(backend).trace();
    match upload_constants(backend, constants) {
        Ok(_) => {},
        Err(e) => { return Err(e); },
    }
    let (_, transmittance_uav, transmittance_srv) = match lut_buffer(backend, TRANSMITTANCE_WIDTH * TRANSMITTANCE_HEIGHT) {
        Ok(b) => b,
        Err(e) => { return Err(e); },
    };
    let (_, irradiance_uav, irradiance_srv) = match lut_buffer(backend, IRRADIANCE_WIDTH * IRRADIANCE_HEIGHT) {
        Ok(b) => b,
        Err(e) => { return Err(e); },
    };
    let (_, rayleigh_uav, rayleigh_srv) = match lut_buffer(backend, INSCATTER_ELEMENTS) {
        Ok(b) => b,
        Err(e) => { return Err(e); },
    };
    let (_, mie_uav, mie_srv) = match lut_buffer(backend, INSCATTER_ELEMENTS) {
        Ok(b) => b,
        Err(e) => { return Err(e); },
    };
    backend.unbind_shader_resources();
    backend.unbind_unordered_access_views();
    let ghost made = *backend;
    assert(made.is_view(transmittance_uav as int, ViewKind::Writable));
    assert(made.is_view(transmittance_srv as int, ViewKind::Readable));
    assert(made.is_view(irradiance_uav as int, ViewKind::Writable));
    assert(made.is_view(irradiance_srv as int, ViewKind::Readable));
    assert(made.is_view(rayleigh_uav as int, ViewKind::Writable));
    assert(made.is_view(rayleigh_srv as int, ViewKind::Readable));
    assert(made.is_view(mie_uav as int, ViewKind::Writable));
    assert(made.is_view(mie_srv as int, ViewKind::Readable));
    assert(made.resource_of(transmittance_srv as int) != made.resource_of(irradiance_uav as int));
    assert(made.resource_of(transmittance_srv as int) != made.resource_of(rayleigh_uav as int));
    assert(made.resource_of(transmittance_srv as int) != made.resource_of(mie_uav as int));

    assert(backend.trace() =~= t0 + upload_cmds(*constants, n) + seq![Cmd::UnbindAllReadable, Cmd::UnbindAllWritable]);

    let transmittance_shader = compute_program(backend, "atmospheric_precompute_transmittance.hlsl");
    proof { lemma_extends_keeps(&made, backend); }
    let v0: Vec<usize> = Vec::new();
    let v1 = one_handle(transmittance_uav);
    run_compute_pass(backend, transmittance_shader, v0, v1, 8, 64, 1);
    assert(backend.trace() =~= t0 + upload_cmds(*constants, n) + seq![Cmd::UnbindAllReadable, Cmd::UnbindAllWritable]
        + pass_run((n + 13) as usize, seq![], seq![(n + 2) as usize], 8, 64, 1));

    let irradiance_shader = compute_program(backend, "atmospheric_precompute_single_irradiance.hlsl");
    proof { lemma_extends_keeps(&made, backend); }
    run_compute_pass(backend, irradiance_shader, one_handle(transmittance_srv), one_handle(irradiance_uav), 2, 16, 1);
    assert(backend.trace() =~= t0 + upload_cmds(*constants, n) + seq![Cmd::UnbindAllReadable, Cmd::UnbindAllWritable]
        + pass_run((n + 13) as usize, seq![], seq![(n + 2) as usize], 8, 64, 1)
        + pass_run((n + 14) as usize, seq![(n + 3) as usize], seq![(n + 5) as usize], 2, 16, 1));

    let inscatter_shader = compute_program(backend, "atmospheric_precompute_single_inscatter.hlsl");
    proof { lemma_extends_keeps(&made, backend); }
    run_compute_pass(backend, inscatter_shader, one_handle(transmittance_srv), two_handles(rayleigh_uav, mie_uav), 8, 128, 32);
    proof { lemma_extends_keeps(&made, backend); }
    assert(backend.trace() =~= t0 + scatter_cmds(*constants, n));
    Ok((transmittance_srv, irradiance_srv, rayleigh_srv, mie_srv))
}

/// Steps five to seven: copies the scratch tables, read through their
/// readable views, into the three sampling textures.
#[verifier::rlimit(100)]
fn copy_to_textures(
    backend: &mut Backend,
    transmittance_srv: usize,
    irradiance_srv: usize,
    rayleigh_srv: usize,
    mie_srv: usize,
) -> (r: Result<(Tex2D, Tex2D, Tex3D), PrecomputeError>)
    requires
        old(backend).wf(),
        old(backend).slots_clear(),
        old(backend).is_view(transmittance_srv as int, ViewKind::Readable),
        old(backend).is_view(irradiance_srv as int, ViewKind::Readable),
        old(backend).is_view(rayleigh_srv as int, ViewKind::Readable),
        old(backend).is_view(mie_srv as int, ViewKind::Readable),
    ensures
        final(backend).wf(),
        final(backend).extends(old(backend)),
        final(backend).slots_clear(),
        final(backend).live_grows(old(backend)),
        final(backend).render_targets@.len() == 0,
        final(backend).depth_view is None,
        r is Ok,
        r matches Ok((t, i, s)) ==> lut_outputs(final(backend), t, i, s),
        r matches Ok((t, i, s)) ==> t.texture == old(backend).objects@.len() && i.texture == old(backend).objects@.len() + 3
            && s.texture == old(backend).objects@.len() + 6,
        final(backend).objects@.len() == old(backend).objects@.len() + 9,
        copy_objects(final(backend), old(backend).objects@.len() as int),
        final(backend).trace() == old(backend).trace() + copy_cmds(
            transmittance_srv,
            irradiance_srv,
            rayleigh_srv,
            mie_srv,
            old(backend).objects@.len() as usize,
        ),
{
    let ghost b0 = *backend;
    proof { lemma_wf_sizes(&b0); }
    let ghost m = b0.objects@.len() as usize;
    proof {
        lemma_view_resource(&b0, transmittance_srv as int);
        lemma_view_resource(&b0, irradiance_srv as int);
        lemma_view_resource(&b0, rayleigh_srv as int);
        lemma_view_resource(&b0, mie_srv as int);
    }
    let (transmittance, transmittance_uav) = match lut_texture2d(backend, TRANSMITTANCE_WIDTH, TRANSMITTANCE_HEIGHT) {
        Ok(t) => t,
        Err(e) => { return Err(e); },
    };
    let copy_transmittance = compute_program(backend, "atmospheric_precompute_copy_transmittance.hlsl");
    proof { lemma_extends_keeps(&b0, backend); }
    run_compute_pass(backend, copy_transmittance, one_handle(transmittance_srv), one_handle(transmittance_uav), 8, 64, 1);
    let ghost b1 = *backend;

    let (irradiance, irradiance_uav) = match lut_texture2d(backend, IRRADIANCE_WIDTH, IRRADIANCE_HEIGHT) {
        Ok(t) => t,
        Err(e) => { return Err(e); },
    };
    let copy_irradiance = compute_program(backend, "atmospheric_precompute_copy_irradiance.hlsl");
    proof { lemma_extends_keeps(&b0, backend); lemma_extends_keeps(&b1, backend); }
    run_compute_pass(backend, copy_irradiance, one_handle(irradiance_srv), one_handle(irradiance_uav), 2, 16, 1);
    let ghost b2 = *backend;

    let (inscatter, inscatter_uav) = match lut_texture3d(backend, INSCATTER_WIDTH, INSCATTER_HEIGHT, INSCATTER_DEPTH) {
        Ok(t) => t,
        Err(e) => { return Err(e); },
    };
    let copy_inscatter = compute_program(backend, "atmospheric_precompute_copy_single_inscatter.hlsl");
    proof { lemma_extends_keeps(&b0, backend); lemma_extends_keeps(&b1, backend); lemma_extends_keeps(&b2, backend); }
    run_compute_pass(backend, copy_inscatter, two_handles(rayleigh_srv, mie_srv), one_handle(inscatter_uav), 8, 128, 32);
    proof { lemma_extends_keeps(&b1, backend); lemma_extends_keeps(&b2, backend); }
    assert(backend.trace() =~= b0.trace() + copy_cmds(transmittance_srv, irradiance_srv, rayleigh_srv, mie_srv, m));
    Ok((transmittance, irradiance, inscatter))
}

/// The three output textures exist in `b` with their table descriptions.
pub open spec fn lut_outputs(b: &Backend, t: Tex2D, i: Tex2D, s: Tex3D) -> bool {
    &&& t.desc == lut_desc2d(TRANSMITTANCE_WIDTH, TRANSMITTANCE_HEIGHT)
    &&& i.desc == lut_desc2d(IRRADIANCE_WIDTH, IRRADIANCE_HEIGHT)
    &&& s.desc == lut_desc3d(INSCATTER_WIDTH, INSCATTER_HEIGHT, INSCATTER_DEPTH)
    &&& b.is_resource(t.texture as int)
    &&& b.resource_desc(t.texture as int) == ResourceDesc::Texture2D(t.desc)
    &&& b.is_resource(i.texture as int)
    &&& b.resource_desc(i.texture as int) == ResourceDesc::Texture2D(i.desc)
    &&& b.is_resource(s.texture as int)
    &&& b.resource_desc(s.texture as int) == ResourceDesc::Texture3D(s.desc)
}

/// Steps one to seven: computes the three tables and copies them into the
/// sampling textures (handles `n + 16`, `n + 19` and `n + 22`), leaving
/// every scratch object created and nothing bound.
fn compute_tables(backend: &mut Backend, constants: AtmosphericConstants) -> (r: Result<
    (Tex2D, Tex2D, Tex3D),
    PrecomputeError,
>)
    requires
        old(backend).wf(),
    ensures
        final(backend).wf(),
        final(backend).extends(old(backend)),
        final(backend).slots_clear(),
        r is Ok,
        r matches Ok((t, i, s)) ==> lut_outputs(final(backend), t, i, s),
        r matches Ok((t, i, s)) ==> t.texture == old(backend).objects@.len() + 16 && i.texture == old(backend).objects@.len() + 19
            && s.texture == old(backend).objects@.len() + 22,
        final(backend).trace() == old(backend).trace() + precompute_cmds(constants, old(backend).objects@.len() as usize),
        final(backend).objects@.len() == old(backend).objects@.len() + 25,
        scatter_objects(final(backend), old(backend).objects@.len() as int),
        copy_objects(final(backend), old(backend).objects@.len() + 16int),
        final(backend).live_grows(old(backend)),
        final(backend).render_targets@.len() == 0,
        final(backend).depth_view is None,
{
    proof { lemma_wf_sizes(old(backend)); }
    let (t, i, ray, mie) = match scatter(backend, &constants) {
        Ok(v) => v,
        Err(e) => { return Err(e); },
    };
    let ghost mid = *backend;
    proof { lemma_wf_sizes(&mid); }
    let r = copy_to_textures(backend, t, i, ray, mie);
    assert(backend.trace() =~= old(backend).trace() + precompute_cmds(constants, old(backend).objects@.len() as usize));
    proof {
        assert forall|k: int| 0 <= k < old(backend).objects@.len() implies #[trigger] backend.objects@[k] == old(backend).objects@[k] by {
            assert(mid.objects@[k] == old(backend).objects@[k]);
        }
    }
    r
}

/// The scratch objects of a run whose first handle is `n`: the constants
/// buffer, the four table buffers with their views, the three scattering
/// programs, and the writable view and program of each copy pass.
pub open spec fn scratch_handles(n: usize) -> Seq<usize> {
    Seq::new(16, |i: int| (n + i) as usize) + seq![
        (n + 17) as usize,
        (n + 18) as usize,
        (n + 20) as usize,
        (n + 21) as usize,
        (n + 23) as usize,
        (n + 24) as usize,
    ]
}

/// Releasing each handle of `hs`, in order.
pub open spec fn release_cmds(hs: Seq<usize>) -> Seq<Cmd> {
    hs.map_values(|h: usize| Cmd::Release { handle: h })
}

/// Nothing is bound at all.
pub open spec fn nothing_bound(b: &Backend) -> bool {
    &&& b.slots_clear()
    &&& b.render_targets@.len() == 0
    &&& b.depth_view is None
}

proof fn lemma_nothing_bound(b: &Backend, h: int)
    requires
        nothing_bound(b),
    ensures
        !b.handle_bound(h),
{
    if b.readable_bound(h) {
        let i = choose|i: int| 0 <= i < b.readable@.len() && #[trigger] b.holds(b.readable@[i], h);
    }
    if exists|j: int| 0 <= j < b.writable@.len() && #[trigger] b.holds(b.writable@[j], h) {
        let j = choose|j: int| 0 <= j < b.writable@.len() && #[trigger] b.holds(b.writable@[j], h);
    }
    if exists|i: int| 0 <= i < b.readable@.len() && b.readable@[i] == Some(h as usize) {
        let i = choose|i: int| 0 <= i < b.readable@.len() && b.readable@[i] == Some(h as usize);
    }
    if exists|i: int| 0 <= i < b.writable@.len() && b.writable@[i] == Some(h as usize) {
        let i = choose|i: int| 0 <= i < b.writable@.len() && b.writable@[i] == Some(h as usize);
    }
}

/// Releases every handle of `hs` (distinct, live, on a context where
/// nothing is bound).
fn release_all(backend: &mut Backend, hs: &Vec<usize>)
    requires
        old(backend).wf(),
        nothing_bound(old(backend)),
        forall|i: int| 0 <= i < hs@.len() ==> old(backend).valid(#[trigger] hs@[i] as int) && old(backend).live@[hs@[i] as int],
        forall|i: int, j: int| 0 <= i < j < hs@.len() ==> hs@[i] != hs@[j],
    ensures
        final(backend).wf(),
        nothing_bound(final(backend)),
        final(backend).objects@ == old(backend).objects@,
        final(backend).live@.len() == old(backend).live@.len(),
        forall|h: int| 0 <= h < old(backend).live@.len() ==> #[trigger] final(backend).live@[h] == (old(backend).live@[h] && !hs@.contains(h as usize)),
        final(backend).trace() == old(backend).trace() + release_cmds(hs@),
{
    let ghost b0 = *backend;
    proof { lemma_wf_sizes(&b0); }
    let mut k: usize = 0;
    while k < hs.len()
        invariant
            backend.wf(),
            nothing_bound(backend),
            k <= hs@.len(),
            backend.objects@ == b0.objects@,
            backend.live@.len() == b0.live@.len(),
            b0.live@.len() == b0.objects@.len(),
            b0.objects@.len() <= usize::MAX,
            forall|i: int| 0 <= i < hs@.len() ==> b0.valid(#[trigger] hs@[i] as int) && b0.live@[hs@[i] as int],
            forall|i: int, j: int| 0 <= i < j < hs@.len() ==> hs@[i] != hs@[j],
            forall|h: int| 0 <= h < b0.live@.len() ==> #[trigger] backend.live@[h] == (b0.live@[h] && !hs@.subrange(0, k as int).contains(h as usize)),
            backend.trace() == b0.trace() + release_cmds(hs@.subrange(0, k as int)),
        decreases hs@.len() - k,
    {
        let h = hs[k];
        proof {
            lemma_nothing_bound(backend, h as int);
            assert(!hs@.subrange(0, k as int).contains(h)) by {
                if hs@.subrange(0, k as int).contains(h) {
                    let q = choose|q: int| 0 <= q < k && #[trigger] hs@.subrange(0, k as int)[q] == h;
                    assert(hs@[q] == hs@[k as int]);
                }
            }
            assert(backend.live@[h as int]);
        }
        let ghost prev = *backend;
        backend.release(h);
        proof {
            let sk = hs@.subrange(0, k as int);
            let sk1 = hs@.subrange(0, k + 1);
            assert(sk1 =~= sk.push(h));
            assert(release_cmds(sk1) =~= release_cmds(sk).push(Cmd::Release { handle: h }));
            assert forall|x: int| 0 <= x < b0.live@.len() implies #[trigger] backend.live@[x] == (b0.live@[x] && !sk1.contains(x as usize)) by {
                assert(sk1[k as int] == h);
                if x == h as int {
                    assert(sk1.contains(h));
                } else {
                    assert(backend.live@[x] == prev.live@[x]);
                    if sk1.contains(x as usize) {
                        let q = choose|q: int| 0 <= q < sk1.len() && #[trigger] sk1[q] == x as usize;
                        assert(q != k);
                        assert(sk[q] == x as usize);
                    }
                    if sk.contains(x as usize) {
                        let q = choose|q: int| 0 <= q < sk.len() && #[trigger] sk[q] == x as usize;
                        assert(sk1[q] == x as usize);
                    }
                }
            }
        }
        k = k + 1;
        assert(backend.trace() =~= b0.trace() + release_cmds(hs@.subrange(0, k as int)));
    }
    assert(hs@.subrange(0, hs@.len() as int) =~= hs@);
}

/// The scratch handles of a run whose first handle is `n`.
fn scratch_list(n: usize) -> (r: Vec<usize>)
    requires
        n + 25 <= usize::MAX,
    ensures
        r@ == scratch_handles(n),
{
    let mut r: Vec<usize> = Vec::new();
    let mut i: usize = 0;
    while i < 16
        invariant
            i <= 16,
            n + 25 <= usize::MAX,
            r@ == Seq::new(i as nat, |j: int| (n + j) as usize),
        decreases 16 - i,
    {
        r.push(n + i);
        i = i + 1;
        assert(r@ =~= Seq::new(i as nat, |j: int| (n + j) as usize));
    }
    r.push(n + 17);
    r.push(n + 18);
    r.push(n + 20);
    r.push(n + 21);
    r.push(n + 23);
    r.push(n + 24);
    assert(r@ =~= scratch_handles(n));
    r
}

/// Runs the whole precomputation: uploads `constants` into a uniform block,
/// computes transmittance, then single irradiance and single in-scattering
/// from it, and copies the three tables into sampling textures. Then, the
/// last step, it releases every scratch object it created: the constants
/// buffer, the table buffers and their views, the programs, and the views
/// the copies wrote through. Only the transmittance (256 x 64), irradiance
/// (64 x 16) and in-scattering (256 x 128 x 32) textures stay held.
#[verifier::rlimit(100)]
pub fn precompute_textures(backend: &mut Backend, constants: AtmosphericConstants) -> (r: Result<
    (Tex2D, Tex2D, Tex3D),
    PrecomputeError,
>)
    requires
        old(backend).wf(),
        old(backend).objects@.len() + 25 <= usize::MAX,
    ensures
        final(backend).wf(),
        final(backend).extends(old(backend)),
        nothing_bound(final(backend)),
        r is Ok,
        r matches Ok((t, i, s)) ==> lut_outputs(final(backend), t, i, s) && t.texture == old(backend).objects@.len() + 16
            && i.texture == old(backend).objects@.len() + 19 && s.texture == old(backend).objects@.len() + 22,
        final(backend).trace() == old(backend).trace() + precompute_cmds(constants, old(backend).objects@.len() as usize)
            + release_cmds(scratch_handles(old(backend).objects@.len() as usize)),
        final(backend).objects@.len() == old(backend).objects@.len() + 25,
        scatter_objects(final(backend), old(backend).objects@.len() as int),
        copy_objects(final(backend), old(backend).objects@.len() + 16int),
        forall|h: int| 0 <= h < old(backend).objects@.len() ==> #[trigger] final(backend).live@[h] == old(backend).live@[h],
        forall|k: int|
            0 <= k < 25 ==> (#[trigger] final(backend).live@[old(backend).objects@.len() + k] <==> (k == 16 || k == 19 || k == 22)),
{
    let ghost b0 = *backend;
    proof { lemma_wf_sizes(&b0); }
    let n = backend.objects.len();
    let r = compute_tables(backend, constants);
    let ghost mid = *backend;
    proof { lemma_wf_sizes(&mid); }
    let hs = scratch_list(n);
    assert forall|i: int, j: int| 0 <= i < j < hs@.len() implies #[trigger] hs@[i] != #[trigger] hs@[j] by {}
    assert forall|i: int| 0 <= i < hs@.len() implies mid.valid(#[trigger] hs@[i] as int) && mid.live@[hs@[i] as int] by {}
    release_all(backend, &hs);
    proof {
        assert forall|k: int| 0 <= k < 25 implies (#[trigger] backend.live@[n + k] <==> (k == 16 || k == 19 || k == 22)) by {
            assert(mid.live@[n + k]);
            if k == 16 || k == 19 || k == 22 {
                if hs@.contains((n + k) as usize) {
                    let q = choose|q: int| 0 <= q < hs@.len() && #[trigger] hs@[q] == (n + k) as usize;
                }
            } else if k < 16 {
                assert(hs@[k] == (n + k) as usize);
            } else if k == 17 {
                assert(hs@[16] == (n + k) as usize);
            } else if k == 18 {
                assert(hs@[17] == (n + k) as usize);
            } else if k == 20 {
                assert(hs@[18] == (n + k) as usize);
            } else if k == 21 {
                assert(hs@[19] == (n + k) as usize);
            } else if k == 23 {
                assert(hs@[20] == (n + k) as usize);
            } else {
                assert(hs@[21] == (n + k) as usize);
            }
        }
        assert forall|h: int| 0 <= h < b0.objects@.len() implies #[trigger] backend.live@[h] == b0.live@[h] by {
            assert(mid.live@[h] == b0.live@[h]);
            if hs@.contains(h as usize) {
                let q = choose|q: int| 0 <= q < hs@.len() && #[trigger] hs@[q] == h as usize;
            }
        }
        assert(backend.trace() =~= b0.trace() + precompute_cmds(constants, n) + release_cmds(scratch_handles(n)));
    }
    r
}

/// Running the precomputation with the same constants (bit for bit) on
/// contexts whose next handle is the same issues the same commands, in the
/// same order, and so yields the same textures: the work depends on the
/// constants' words and on nothing else.
pub proof fn lemma_precompute_repeatable(c1: AtmosphericConstants, c2: AtmosphericConstants, n: usize)
    requires
        c1.words() == c2.words(),
    ensures
        precompute_cmds(c1, n) == precompute_cmds(c2, n),
{
    assert(upload_cmds(c1, n) == upload_cmds(c2, n));
}

/// In the precomputation's stream (`precompute_cmds(c, n)`), every table a
/// pass reads was written by an earlier pass, and no pass writes what it
/// reads: the transmittance pass writes buffer `n + 1` through view `n + 2`;
/// the irradiance and in-scattering passes then read that same buffer through
/// view `n + 3` while writing other buffers; each copy pass reads the buffer
/// an earlier pass wrote and writes a texture no pass reads.
pub proof fn lemma_reads_follow_writes(b: &Backend, n: int)
    requires
        b.wf(),
        0 <= n,
        scatter_objects(b, n),
        copy_objects(b, n + 16),
    ensures
        b.resource_of(n + 2) == n + 1 && b.resource_of(n + 3) == n + 1,
        b.resource_of(n + 5) == n + 4 && b.resource_of(n + 6) == n + 4,
        b.resource_of(n + 8) == n + 7 && b.resource_of(n + 9) == n + 7,
        b.resource_of(n + 11) == n + 10 && b.resource_of(n + 12) == n + 10,
        b.resource_of(n + 17) == n + 16,
        b.resource_of(n + 20) == n + 19,
        b.resource_of(n + 23) == n + 22,
{
    lemma_wf_sizes(b);
}

} // verus!
