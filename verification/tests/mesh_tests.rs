use render::{
    Mesh, MeshBuilder, PrimitiveTopology, VertexAttributeId, VertexAttributeValues, VertexFormat,
    COLOR_COMPONENT_ONE, F_HALF, F_MINUS_HALF, F_ONE, F_ZERO,
};

fn floats3(n: usize) -> VertexAttributeValues {
    VertexAttributeValues::Float32x3((0..n).map(|i| [i as u32, 0, 0]).collect())
}

fn len_of(values: Option<&VertexAttributeValues>) -> Option<usize> {
    values.map(|v| v.len())
}

#[test]
fn set_get_and_replace_attributes() {
    let mut mesh = Mesh::new(PrimitiveTopology::TriangleList);
    assert_eq!(mesh.vertex_count(), None);
    mesh.set_attribute(VertexAttributeId::Normal, floats3(3));
    mesh.set_attribute(VertexAttributeId::Position, floats3(4));
    assert_eq!(len_of(mesh.get_attribute(VertexAttributeId::Normal)), Some(3));
    assert_eq!(len_of(mesh.get_attribute(VertexAttributeId::Position)), Some(4));
    assert_eq!(len_of(mesh.get_attribute(VertexAttributeId::Tangent)), None);
    // position has the smallest id, so it gives the vertex count
    assert_eq!(mesh.vertex_count(), Some(4));
    mesh.set_attribute(VertexAttributeId::Position, floats3(3));
    assert_eq!(mesh.vertex_count(), Some(3));
    assert!(mesh.validate());
}

#[test]
fn remove_attributes() {
    let mut mesh = Mesh::new(PrimitiveTopology::LineList);
    mesh.set_attribute(VertexAttributeId::Uv(0), VertexAttributeValues::Float32x2(vec![[0, 0]; 2]));
    mesh.set_attribute(VertexAttributeId::Color(1), floats3(2));
    let removed = mesh.remove_attribute(VertexAttributeId::Uv(0));
    assert_eq!(removed.map(|v| v.len()), Some(2));
    assert!(mesh.remove_attribute(VertexAttributeId::Uv(0)).is_none());
    assert_eq!(len_of(mesh.get_attribute(VertexAttributeId::Color(1))), Some(2));
    mesh.remove_all_attributes();
    assert_eq!(mesh.vertex_count(), None);
    assert!(!mesh.validate());
}

#[test]
fn validate_needs_equal_lengths() {
    let mut mesh = Mesh::default();
    assert!(!mesh.validate());
    mesh.set_attribute(VertexAttributeId::Position, floats3(3));
    mesh.set_attribute(VertexAttributeId::Uv(0), VertexAttributeValues::Float32x2(vec![[0, 0]; 2]));
    assert!(!mesh.validate());
    mesh.set_attribute(VertexAttributeId::Uv(0), VertexAttributeValues::Float32x2(vec![[0, 0]; 3]));
    assert!(mesh.validate());
}

#[test]
fn indices_and_counts() {
    let mut mesh = Mesh::new(PrimitiveTopology::TriangleList);
    assert_eq!(mesh.index_count(), None);
    mesh.set_indices(vec![0, 1, 2, 2, 1, 3]);
    assert_eq!(mesh.index_count(), Some(6));
    assert_eq!(mesh.get_indices(), Some(&vec![0, 1, 2, 2, 1, 3]));
    mesh.remove_indices();
    assert_eq!(mesh.get_indices(), None);
}

#[test]
fn attribute_id_order_matches_ord() {
    let ids = [
        VertexAttributeId::Position,
        VertexAttributeId::Normal,
        VertexAttributeId::Tangent,
        VertexAttributeId::Uv(0),
        VertexAttributeId::Uv(7),
        VertexAttributeId::Color(0),
        VertexAttributeId::Color(u32::MAX),
    ];
    for a in ids.iter() {
        for b in ids.iter() {
            assert_eq!(a.precedes(b), a < b, "{:?} {:?}", a, b);
        }
    }
}

#[test]
fn attribute_formats() {
    assert_eq!(VertexAttributeId::Position.format(), VertexFormat::Float32x3);
    assert_eq!(VertexAttributeId::Normal.format(), VertexFormat::Float32x3);
    assert_eq!(VertexAttributeId::Tangent.format(), VertexFormat::Float32x4);
    assert_eq!(VertexAttributeId::Uv(3).format(), VertexFormat::Float32x2);
    assert_eq!(VertexAttributeId::Color(2).format(), VertexFormat::Float32x3);
}

#[test]
fn layouts_follow_attribute_order() {
    let mut mesh = Mesh::new(PrimitiveTopology::TriangleList);
    mesh.set_attribute(VertexAttributeId::Uv(0), VertexAttributeValues::Float32x2(vec![[0, 0]; 1]));
    mesh.set_attribute(VertexAttributeId::Position, floats3(1));
    let layouts = mesh.layouts();
    assert_eq!(layouts.len(), 2);
    assert_eq!(layouts[0].array_stride, 12);
    assert_eq!(layouts[0].attributes[0].format, VertexFormat::Float32x3);
    assert_eq!(layouts[1].array_stride, 8);
    assert_eq!(layouts[1].attributes[0].shader_location, 0);
    assert_eq!(mesh.buffer_layout().len(), 2);
}

#[test]
fn byte_lengths_and_ranges() {
    let values = VertexAttributeValues::Sint32x2(vec![[1, -1], [2, -2], [3, -3]]);
    assert_eq!(values.len(), 3);
    assert!(!values.is_empty());
    assert_eq!(values.as_bytes().len(), 24);
    let u = VertexAttributeValues::Uint32(vec![0x0102_0304]);
    assert_eq!(u.as_bytes(), &0x0102_0304u32.to_ne_bytes()[..]);

    let mut mesh = Mesh::new(PrimitiveTopology::TriangleList);
    mesh.set_attribute(VertexAttributeId::Tangent, VertexAttributeValues::Float32x4(vec![[0; 4]; 2]));
    mesh.set_attribute(VertexAttributeId::Position, floats3(2));
    let ranges = mesh.attribute_byte_ranges();
    assert_eq!(
        ranges,
        vec![(VertexAttributeId::Position, (0, 24)), (VertexAttributeId::Tangent, (24, 56))]
    );
    assert_eq!(mesh.packed_attribute_bytes().len(), 56);
}

#[test]
fn generate_colors_needs_vertices() {
    let mut empty = Mesh::new(PrimitiveTopology::TriangleList);
    empty.generate_colors(0, [1, 2, 3]);
    assert!(empty.get_attribute(VertexAttributeId::Color(0)).is_none());

    let mut mesh = Mesh::new(PrimitiveTopology::TriangleList);
    mesh.set_attribute(VertexAttributeId::Position, floats3(2));
    mesh.generate_colors(4, [1, 2, 3]);
    match mesh.get_attribute(VertexAttributeId::Color(4)) {
        Some(VertexAttributeValues::Float32x3(colors)) => assert_eq!(colors, &vec![[1, 2, 3]; 2]),
        _ => panic!("colors were not generated"),
    }
}

#[test]
fn extract_keeps_requested_and_generates_colors() {
    let mut mesh = Mesh::new(PrimitiveTopology::TriangleList);
    mesh.set_attribute(VertexAttributeId::Position, floats3(3));
    mesh.set_attribute(VertexAttributeId::Normal, floats3(3));
    mesh.set_attribute(VertexAttributeId::Uv(0), VertexAttributeValues::Float32x2(vec![[0, 0]; 3]));
    let mesh = mesh.extract_attributes(vec![VertexAttributeId::Color(0), VertexAttributeId::Position]);
    assert!(mesh.get_attribute(VertexAttributeId::Normal).is_none());
    assert!(mesh.get_attribute(VertexAttributeId::Uv(0)).is_none());
    assert_eq!(len_of(mesh.get_attribute(VertexAttributeId::Position)), Some(3));
    let one = f32::to_bits(1.0);
    assert_eq!(COLOR_COMPONENT_ONE, one);
    match mesh.get_attribute(VertexAttributeId::Color(0)) {
        Some(VertexAttributeValues::Float32x3(colors)) => assert_eq!(colors, &vec![[one, one, one]; 3]),
        _ => panic!("white colors were not generated"),
    }
    assert!(mesh.validate());
}

#[test]
fn extract_without_vertices_generates_nothing() {
    let mut mesh = Mesh::new(PrimitiveTopology::TriangleList);
    mesh.set_attribute(VertexAttributeId::Normal, floats3(3));
    let mesh = mesh.extract_attributes(vec![VertexAttributeId::Color(2)]);
    assert!(mesh.get_attribute(VertexAttributeId::Color(2)).is_none());
    assert_eq!(mesh.vertex_count(), None);
}

#[test]
fn quad_builds_a_triangle_list() {
    assert_eq!(F_ONE, 1.0f32.to_bits());
    assert_eq!(F_HALF, 0.5f32.to_bits());
    assert_eq!(F_MINUS_HALF, (-0.5f32).to_bits());
    assert_eq!(F_ZERO, 0.0f32.to_bits());
    let mesh = MeshBuilder::quad().build();
    assert!(mesh.validate());
    assert_eq!(mesh.vertex_count(), Some(4));
    assert_eq!(mesh.index_count(), Some(6));
    assert_eq!(mesh.get_indices(), Some(&vec![0, 1, 3, 0, 3, 2]));
    match mesh.get_attribute(VertexAttributeId::Position) {
        Some(VertexAttributeValues::Float32x3(p)) => {
            assert_eq!(p[0], [(-0.5f32).to_bits(), (-0.5f32).to_bits(), 0]);
            assert_eq!(p[3], [0.5f32.to_bits(), 0.5f32.to_bits(), 0]);
        }
        _ => panic!("positions missing"),
    }
    assert!(mesh.get_attribute(VertexAttributeId::Uv(0)).is_some());
    assert!(mesh.get_attribute(VertexAttributeId::Tangent).is_some());
    let full = MeshBuilder::fullscreen_quad().build();
    assert_eq!(full.attribute_byte_ranges().len(), 4);
}

#[test]
fn attributes_read_back_what_was_written() {
    let mut mesh = Mesh::new(PrimitiveTopology::TriangleList);
    mesh.set_attribute(VertexAttributeId::Position, VertexAttributeValues::Float32x3(vec![[1, 2, 3]]));
    mesh.set_attribute(VertexAttributeId::Uv(0), VertexAttributeValues::Float32x2(vec![[4, 5]]));
    mesh.set_attribute(VertexAttributeId::Position, VertexAttributeValues::Float32x3(vec![[7, 8, 9]]));
    match mesh.get_attribute(VertexAttributeId::Position) {
        Some(VertexAttributeValues::Float32x3(v)) => assert_eq!(v, &vec![[7, 8, 9]]),
        _ => panic!("positions were set"),
    }
    assert!(mesh.get_attribute(VertexAttributeId::Uv(0)).is_some());
    assert!(mesh.remove_attribute(VertexAttributeId::Uv(0)).is_some());
    assert!(mesh.get_attribute(VertexAttributeId::Uv(0)).is_none());
    assert!(mesh.get_attribute(VertexAttributeId::Position).is_some());
}

#[test]
fn extract_keeps_the_vertex_count_of_the_smallest_id() {
    let mut mesh = Mesh::new(PrimitiveTopology::TriangleList);
    mesh.set_attribute(VertexAttributeId::Position, floats3(2));
    mesh.set_attribute(VertexAttributeId::Uv(0), VertexAttributeValues::Float32x2(vec![[0, 0]; 2]));
    let mesh = mesh.extract_attributes(vec![VertexAttributeId::Position, VertexAttributeId::Color(2)]);
    assert!(mesh.get_attribute(VertexAttributeId::Uv(0)).is_none());
    assert_eq!(len_of(mesh.get_attribute(VertexAttributeId::Color(2))), Some(2));
    assert_eq!(mesh.vertex_count(), Some(2));
    assert!(mesh.validate());
}

#[test]
fn packed_bytes_follow_the_id_order() {
    let signed = VertexAttributeValues::Sint32x2(vec![[1, -1]]);
    let mut expected = 1i32.to_ne_bytes().to_vec();
    expected.extend_from_slice(&(-1i32).to_ne_bytes());
    assert_eq!(signed.as_bytes(), expected.as_slice());

    let mut mesh = Mesh::new(PrimitiveTopology::TriangleList);
    mesh.set_attribute(VertexAttributeId::Uv(0), VertexAttributeValues::Float32x2(vec![[7, 8]]));
    mesh.set_attribute(VertexAttributeId::Position, VertexAttributeValues::Float32x3(vec![[1, 2, 3]]));
    let words: Vec<u8> = [1u32, 2, 3, 7, 8].iter().flat_map(|w| w.to_ne_bytes()).collect();
    assert_eq!(mesh.packed_attribute_bytes(), words);
}
