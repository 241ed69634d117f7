//! Stage-tagged shader programs.
use vstd::prelude::*;
use crate::backend::{Backend, DeviceObject, Stage};

verus! {

/// A compiled program, tagged with the stage it runs in; the value is the
/// program's handle on the device.
#[derive(Clone, Copy, Debug, PartialEq, Eq, Structural)]
pub enum Shader {
    Vertex(usize),
    Pixel(usize),
    Compute(usize),
}

impl Shader {
    pub open spec fn stage(self) -> Stage {
        match self {
            Shader::Vertex(_) => Stage::Vertex,
            Shader::Pixel(_) => Stage::Pixel,
            Shader::Compute(_) => Stage::Compute,
        }
    }

    pub open spec fn program(self) -> usize {
        match self {
            Shader::Vertex(h) => h,
            Shader::Pixel(h) => h,
            Shader::Compute(h) => h,
        }
    }

    /// The program's handle.
    pub fn handle(&self) -> (h: usize)
        ensures
            h == self.program(),
    {
        match self {
            Shader::Vertex(h) => *h,
            Shader::Pixel(h) => *h,
            Shader::Compute(h) => *h,
        }
    }

    fn compile(backend: &mut Backend, path: String, entry_point: String, stage: Stage) -> (s: Shader)
        requires
            old(backend).wf(),
        ensures
            final(backend).wf(),
            s.stage() == stage,
            s.program() == old(backend).objects@.len(),
            final(backend).objects@ == old(backend).objects@.push(
                DeviceObject::Shader { stage, path, entry_point },
            ),
            final(backend).commands@ == old(backend).commands@,
            final(backend).same_bindings(old(backend)),
    {
        let h = backend.compile_shader(path, entry_point, stage);
        match stage {
            Stage::Vertex => Shader::Vertex(h),
            Stage::Pixel => Shader::Pixel(h),
            Stage::Compute => Shader::Compute(h),
        }
    }

    /// A pixel-stage program from `entry_point` in the file at `path`.
    pub fn pixel_shader(backend: &mut Backend, path: String, entry_point: String) -> (s: Shader)
        requires
            old(backend).wf(),
        ensures
            final(backend).wf(),
            s is Pixel && s.program() == old(backend).objects@.len(),
            final(backend).objects@ == old(backend).objects@.push(
                DeviceObject::Shader { stage: Stage::Pixel, path, entry_point },
            ),
            final(backend).commands@ == old(backend).commands@,
            final(backend).same_bindings(old(backend)),
    {
        Shader::compile(backend, path, entry_point, Stage::Pixel)
    }

    /// A vertex-stage program from `entry_point` in the file at `path`.
    pub fn vertex_shader(backend: &mut Backend, path: String, entry_point: String) -> (s: Shader)
        requires
            old(backend).wf(),
        ensures
            final(backend).wf(),
            s is Vertex && s.program() == old(backend).objects@.len(),
            final(backend).objects@ == old(backend).objects@.push(
                DeviceObject::Shader { stage: Stage::Vertex, path, entry_point },
            ),
            final(backend).commands@ == old(backend).commands@,
            final(backend).same_bindings(old(backend)),
    {
        Shader::compile(backend, path, entry_point, Stage::Vertex)
    }

    /// A compute-stage program from `entry_point` in the file at `path`.
    pub fn compute_shader(backend: &mut Backend, path: String, entry_point: String) -> (s: Shader)
        requires
            old(backend).wf(),
        ensures
            final(backend).wf(),
            s is Compute && s.program() == old(backend).objects@.len(),
            final(backend).objects@ == old(backend).objects@.push(
                DeviceObject::Shader { stage: Stage::Compute, path, entry_point },
            ),
            final(backend).commands@ == old(backend).commands@,
            final(backend).same_bindings(old(backend)),
    {
        Shader::compile(backend, path, entry_point, Stage::Compute)
    }
}

} // verus!
