//! Meshes on the CPU and their upload into GPU buffers.
use vstd::prelude::*;
use crate::backend::{lemma_wf_sizes, Backend};
use crate::gpu_buffer::{dynamic_desc, GPUBuffer};
use crate::precompute::le_bytes;
use crate::renderer::GpuMesh;
use crate::resource::{no_bind_flags, BindFlags, ResourceDesc, ResourceError};

verus! {

/// A mesh as imported: packed vertices (position, normal, texture
/// coordinates; 32 bytes each) and a triangle list of 32-bit indices.
pub struct CpuMesh {
    pub vertices: Vec<u8>,
    pub indices: Vec<u32>,
}

/// Why a mesh could not be uploaded.
#[derive(Clone, Copy, Debug, PartialEq, Eq, Structural)]
pub enum MeshError {
    Resource(ResourceError),
}

/// The little-endian bytes of a list of indices.
pub fn index_bytes(indices: &Vec<u32>) -> (r: Vec<u8>)
    ensures
        r@ == le_bytes(indices@),
{
    let mut r: Vec<u8> = Vec::new();
    let mut i: usize = 0;
    while i < indices.len()
        invariant
            i <= indices@.len(),
            r@ == le_bytes(indices@.subrange(0, i as int)),
        decreases indices@.len() - i,
    {
        let w = indices[i];
        r.push((w % 256) as u8);
        r.push((w / 256 % 256) as u8);
        r.push((w / 65536 % 256) as u8);
        r.push((w / 16777216) as u8);
        assert(indices@.subrange(0, i + 1).drop_last() =~= indices@.subrange(0, i as int));
        i = i + 1;
        assert(r@ =~= le_bytes(indices@.subrange(0, i as int)));
    }
    assert(indices@.subrange(0, indices@.len() as int) =~= indices@);
    r
}

proof fn lemma_le_bytes_len(words: Seq<u32>)
    ensures
        le_bytes(words).len() == 4 * words.len(),
    decreases words.len(),
{
    if words.len() > 0 {
        lemma_le_bytes_len(words.drop_last());
    }
}

impl CpuMesh {
    /// Uploads the mesh into a vertex buffer and an index buffer of exactly
    /// its size. Fails when either list is empty (zero-sized buffer) or its
    /// byte size does not fit in 32 bits.
    pub fn upload(&self, backend: &mut Backend) -> (r: Result<GpuMesh, MeshError>)
        requires
            old(backend).wf(),
        ensures
            final(backend).wf(),
            final(backend).extends(old(backend)),
            r is Ok <==> (0 < self.vertices@.len() <= u32::MAX && 0 < 4 * self.indices@.len() <= u32::MAX),
            r matches Ok(m) ==> {
                &&& m.num_indices == self.indices@.len()
                &&& m.vertex_buffer.desc == dynamic_desc(self.vertices@.len() as u32, BindFlags { vertex_buffer: true, ..no_bind_flags() })
                &&& m.index_buffer.desc == dynamic_desc((4 * self.indices@.len()) as u32, BindFlags { index_buffer: true, ..no_bind_flags() })
                &&& final(backend).contents@[m.vertex_buffer.buffer as int]@ == self.vertices@
                &&& final(backend).contents@[m.index_buffer.buffer as int]@ == le_bytes(self.indices@)
            },
    {
        let ghost b0 = *backend;
        if self.vertices.len() > u32::MAX as usize || self.indices.len() > (u32::MAX / 4) as usize {
            return Err(MeshError::Resource(ResourceError::SizeOverflow));
        }
        let bytes = index_bytes(&self.indices);
        proof { lemma_le_bytes_len(self.indices@); }
        let vertex_buffer = match GPUBuffer::vertex_buffer(backend, self.vertices.len() as u32) {
            Ok(b) => b,
            Err(e) => { return Err(MeshError::Resource(e)); },
        };
        let ghost b1 = *backend;
        let index_buffer = match GPUBuffer::index_buffer(backend, bytes.len() as u32) {
            Ok(b) => b,
            Err(e) => { return Err(MeshError::Resource(e)); },
        };
        let ghost b2 = *backend;
        assert(backend.is_resource(vertex_buffer.buffer as int)) by {
            assert(b2.objects@[vertex_buffer.buffer as int] == b1.objects@[vertex_buffer.buffer as int]);
        }
        assert(vertex_buffer.buffer != index_buffer.buffer);
        let rv = vertex_buffer.map(backend, self.vertices.as_slice());
        assert(rv is Ok);
        let ghost b3 = *backend;
        proof { lemma_wf_sizes(&b3); }
        let ri = index_buffer.map(backend, bytes.as_slice());
        assert(ri is Ok);
        assert(backend.contents@[vertex_buffer.buffer as int] == b3.contents@[vertex_buffer.buffer as int]);
        proof {
            assert forall|k: int| 0 <= k < b0.objects@.len() implies #[trigger] backend.objects@[k] == b0.objects@[k] by {
                assert(b1.objects@[k] == b0.objects@[k]);
            }
        }
        Ok(GpuMesh { vertex_buffer, index_buffer, num_indices: self.indices.len() as u32 })
    }
}

} // verus!
