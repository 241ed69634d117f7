use render_core::backend::{Backend, Command};
use render_core::mesh::{index_bytes, CpuMesh, MeshError};
use render_core::resource::ResourceError;

#[test]
fn upload_copies_vertices_and_indices() {
    let mut b = Backend::new();
    let mesh = CpuMesh { vertices: (0..96u8).collect(), indices: vec![0, 1, 2, 258] };
    let gpu = mesh.upload(&mut b).unwrap();
    assert_eq!(gpu.num_indices, 4);
    assert_eq!(gpu.vertex_buffer.desc.byte_width, 96);
    assert_eq!(gpu.index_buffer.desc.byte_width, 16);
    assert!(gpu.vertex_buffer.desc.bind_flags.vertex_buffer);
    assert!(gpu.index_buffer.desc.bind_flags.index_buffer);
    assert_eq!(b.read_back(gpu.vertex_buffer.buffer), mesh.vertices);
    assert_eq!(
        b.read_back(gpu.index_buffer.buffer),
        vec![0, 0, 0, 0, 1, 0, 0, 0, 2, 0, 0, 0, 2, 1, 0, 0]
    );
    assert_eq!(b.commands.len(), 2);
    assert!(matches!(b.commands[0], Command::UpdateBuffer { .. }));
}

#[test]
fn empty_mesh_is_refused() {
    let mut b = Backend::new();
    let mesh = CpuMesh { vertices: vec![], indices: vec![0] };
    assert_eq!(mesh.upload(&mut b), Err(MeshError::Resource(ResourceError::ZeroSize)));
    let mesh = CpuMesh { vertices: vec![1; 32], indices: vec![] };
    assert_eq!(mesh.upload(&mut b), Err(MeshError::Resource(ResourceError::ZeroSize)));
}

#[test]
fn index_bytes_are_little_endian() {
    assert_eq!(index_bytes(&vec![0x0403_0201, 7]), vec![1, 2, 3, 4, 7, 0, 0, 0]);
    assert!(index_bytes(&vec![]).is_empty());
}
