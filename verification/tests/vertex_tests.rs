use render::{sequential_shader_locations, VertexAttribute, VertexBufferLayout, VertexFormat, VertexStepMode};

#[test]
fn vertex_format_sizes() {
    assert_eq!(VertexFormat::Uint8.size(), 1);
    assert_eq!(VertexFormat::Float16.size(), 2);
    assert_eq!(VertexFormat::Unorm8x4Bgra.size(), 4);
    assert_eq!(VertexFormat::Float32x2.size(), 8);
    assert_eq!(VertexFormat::Float32x3.size(), 12);
    assert_eq!(VertexFormat::Sint32x4.size(), 16);
    assert_eq!(VertexFormat::Float64x3.size(), 24);
    assert_eq!(VertexFormat::Float64x4.size(), 32);
}

#[test]
fn dense_layout_offsets() {
    let layout = VertexBufferLayout::from_vertex_formats(
        VertexStepMode::Vertex,
        vec![VertexFormat::Float32x3, VertexFormat::Float32x2, VertexFormat::Uint8x4],
    );
    assert_eq!(layout.array_stride, 24);
    assert_eq!(layout.step_mode, VertexStepMode::Vertex);
    assert_eq!(
        layout.attributes,
        vec![
            VertexAttribute { format: VertexFormat::Float32x3, offset: 0, shader_location: 0 },
            VertexAttribute { format: VertexFormat::Float32x2, offset: 12, shader_location: 1 },
            VertexAttribute { format: VertexFormat::Uint8x4, offset: 20, shader_location: 2 },
        ]
    );
}

#[test]
fn empty_layout() {
    let layout = VertexBufferLayout::from_vertex_formats(VertexStepMode::Instance, vec![]);
    assert_eq!(layout.array_stride, 0);
    assert_eq!(layout.step_mode, VertexStepMode::Instance);
    assert!(layout.attributes.is_empty());
}

#[test]
fn shader_locations_follow_earlier_buffers() {
    let buffers = vec![
        VertexBufferLayout::from_vertex_formats(
            VertexStepMode::Vertex,
            vec![VertexFormat::Float32x3, VertexFormat::Float32x3],
        ),
        VertexBufferLayout::from_vertex_formats(VertexStepMode::Vertex, vec![VertexFormat::Float32x2]),
        VertexBufferLayout::from_vertex_formats(
            VertexStepMode::Instance,
            vec![VertexFormat::Float32x4, VertexFormat::Uint32],
        ),
    ];
    let relocated = sequential_shader_locations(&buffers);
    assert_eq!(relocated.len(), 3);
    let locations: Vec<Vec<u32>> = relocated
        .iter()
        .map(|b| b.attributes.iter().map(|a| a.shader_location).collect())
        .collect();
    assert_eq!(locations, vec![vec![0, 1], vec![2], vec![3, 4]]);
    assert_eq!(relocated[2].array_stride, 20);
    assert_eq!(relocated[2].step_mode, VertexStepMode::Instance);
    assert_eq!(relocated[2].attributes[1].offset, 16);
    assert_eq!(relocated[2].attributes[1].format, VertexFormat::Uint32);
}
