use pointcloud::instance::Instance;
use pointcloud::sphere_mesh::{SphereMesh, SphereMeshVertex, HALF_EXTENT, NEG_HALF_EXTENT};
use pointcloud::vertex::{Vertex, VertexFormat, VertexStepMode};

#[test]
fn half_extent_is_a_twentieth() {
    assert_eq!(f32::from_bits(HALF_EXTENT), 0.05);
    assert_eq!(f32::from_bits(NEG_HALF_EXTENT), -0.05);
    assert_eq!(HALF_EXTENT, 0.05f32.to_bits());
    assert_eq!(NEG_HALF_EXTENT, (-0.05f32).to_bits());
}

#[test]
fn marker_has_eight_corners() {
    let mesh = SphereMesh::new();
    assert_eq!(mesh.len, 8);
    assert_eq!(mesh.vertices.len(), 8);
    let s = 0.05f32;
    let expected = [
        [-s, -s, -s],
        [s, -s, -s],
        [s, s, -s],
        [-s, s, -s],
        [-s, -s, s],
        [s, -s, s],
        [s, s, s],
        [-s, s, s],
    ];
    for (vertex, corner) in mesh.vertices.iter().zip(expected) {
        assert_eq!(vertex.position().map(f32::from_bits), corner);
    }
}

#[test]
fn marker_has_twelve_triangles() {
    let mesh = SphereMesh::new();
    assert_eq!(
        mesh.indices,
        vec![
            0, 1, 3, 3, 1, 2, 1, 5, 2, 2, 5, 6, 5, 4, 6, 6, 4, 7, 4, 0, 7, 7, 0, 3, 3, 2, 7, 7, 2,
            6, 4, 5, 0, 0, 5, 1,
        ]
    );
    assert_eq!(mesh.indices.len(), 36);
    assert!(mesh.indices.iter().all(|&i| (i as u32) < mesh.len));
}

#[test]
fn marker_triangles_lie_in_faces() {
    let mesh = SphereMesh::new();
    for face in mesh.indices.chunks(6) {
        let shared = (0..3).filter(|&axis| {
            let side = mesh.vertices[face[0] as usize].position()[axis];
            face.iter().all(|&i| mesh.vertices[i as usize].position()[axis] == side)
        });
        assert_eq!(shared.count(), 1);
    }
    for triangle in mesh.indices.chunks(3) {
        assert_ne!(triangle[0], triangle[1]);
        assert_ne!(triangle[1], triangle[2]);
        assert_ne!(triangle[0], triangle[2]);
    }
}

#[test]
fn marker_vertex_keeps_its_position() {
    let vertex = SphereMeshVertex::new([1.0f32.to_bits(), 2.0f32.to_bits(), 3.0f32.to_bits()]);
    assert_eq!(vertex.position().map(f32::from_bits), [1.0, 2.0, 3.0]);
    assert_eq!(SphereMeshVertex::default().position(), [0, 0, 0]);
}

#[test]
fn marker_layout_is_one_position_in_slot_zero() {
    let layout = SphereMeshVertex::desc();
    assert_eq!(layout.array_stride, 12);
    assert_eq!(layout.array_stride as usize, std::mem::size_of::<[f32; 3]>());
    assert_eq!(layout.step_mode, VertexStepMode::Vertex);
    assert_eq!(layout.attributes.len(), 1);
    assert_eq!(layout.attributes[0].format, VertexFormat::Float32x3);
    assert_eq!(layout.attributes[0].offset, 0);
    assert_eq!(layout.attributes[0].shader_location, 0);
}

#[test]
fn marker_and_instance_layouts_share_no_slot() {
    let marker = SphereMeshVertex::desc();
    let instance = Instance::desc();
    for a in marker.attributes.iter() {
        for b in instance.attributes.iter() {
            assert_ne!(a.shader_location, b.shader_location);
        }
    }
}
