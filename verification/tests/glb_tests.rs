use render::TextureSource;
use render::glb::{
    accessor_bytes, assemble_vertices, flat_normal_pixel, material_texture_sources, single_pixel, build_model, collect_entries, decode_indices, group2,
    group3, group4, parse_glb, parse_material, parse_mesh, texture_data, widen_u16_indices,
    widen_u8_indices, AccessorDimensions, AccessorInfo, AttributeSemantic, BufferViewRange,
    ComponentType, GlbError, Material, MaterialInfo, Model, NodeEntry, NodeTransform,
    PrimitiveInfo, SceneGraph, SceneNode,
};

fn accessor(
    offset: usize,
    length: usize,
    count: usize,
    component: ComponentType,
    dimensions: AccessorDimensions,
) -> AccessorInfo {
    AccessorInfo {
        view: Some(BufferViewRange { offset, length }),
        offset: 0,
        count,
        component,
        dimensions,
    }
}

fn plain_material() -> MaterialInfo {
    MaterialInfo {
        base_color_factor: [1.0f32.to_bits(), 0.5f32.to_bits(), 0.25f32.to_bits(), 1.0f32.to_bits()],
        roughness_factor: 0.5f32.to_bits(),
        metallic_factor: 0.0f32.to_bits(),
        occlusion_strength: None,
        normal_texture: None,
        base_color_texture: None,
        metallic_roughness_texture: None,
    }
}

fn push_f32s(bytes: &mut Vec<u8>, values: &[f32]) {
    for v in values {
        bytes.extend_from_slice(&v.to_le_bytes());
    }
}

/// Binary chunk of a triangle: u16 indices, then positions, normals, tangents and uvs
fn triangle_buffer() -> Vec<u8> {
    let mut bytes = Vec::new();
    for i in [0u16, 1, 2] {
        bytes.extend_from_slice(&i.to_le_bytes());
    }
    bytes.extend_from_slice(&[0, 0]);
    push_f32s(&mut bytes, &[0.0, 0.0, 0.0, 1.0, 0.0, 0.0, 0.0, 1.0, 0.0]);
    push_f32s(&mut bytes, &[0.0, 0.0, 1.0, 0.0, 0.0, 1.0, 0.0, 0.0, 1.0]);
    push_f32s(&mut bytes, &[1.0, 0.0, 0.0, 1.0, 1.0, 0.0, 0.0, 1.0, 1.0, 0.0, 0.0, 1.0]);
    push_f32s(&mut bytes, &[0.0, 0.0, 1.0, 0.0, 0.0, 1.0]);
    bytes
}

fn triangle_primitive() -> PrimitiveInfo {
    PrimitiveInfo {
        indices: Some(accessor(0, 6, 3, ComponentType::U16, AccessorDimensions::Scalar)),
        attributes: vec![
            (
                AttributeSemantic::Normals,
                accessor(44, 36, 3, ComponentType::F32, AccessorDimensions::Vec3),
            ),
            (
                AttributeSemantic::Positions,
                accessor(8, 36, 3, ComponentType::F32, AccessorDimensions::Vec3),
            ),
            (
                AttributeSemantic::Tangents,
                accessor(80, 48, 3, ComponentType::F32, AccessorDimensions::Vec4),
            ),
            (
                AttributeSemantic::TexCoords(0),
                accessor(128, 24, 3, ComponentType::F32, AccessorDimensions::Vec2),
            ),
        ],
        material: plain_material(),
    }
}

#[test]
fn widening_keeps_index_values() {
    assert_eq!(widen_u8_indices(&[0, 7, 255]), vec![0, 7, 255]);
    assert_eq!(widen_u16_indices(&[0, 300, 65535]), vec![0, 300, 65535]);
}

#[test]
fn grouping_takes_consecutive_components() {
    assert_eq!(group2(&[1, 2, 3, 4]), vec![[1, 2], [3, 4]]);
    assert_eq!(group3(&[1, 2, 3, 4, 5, 6]), vec![[1, 2, 3], [4, 5, 6]]);
    assert_eq!(group4(&[1, 2, 3, 4]), vec![[1, 2, 3, 4]]);
    assert!(group3(&[]).is_empty());
}

#[test]
fn accessor_bytes_checks_the_view() {
    let buffer: Vec<u8> = (0..16).collect();
    let acc = AccessorInfo {
        view: Some(BufferViewRange { offset: 4, length: 8 }),
        offset: 2,
        count: 3,
        component: ComponentType::U16,
        dimensions: AccessorDimensions::Scalar,
    };
    assert_eq!(accessor_bytes(&buffer, &acc), Ok(&buffer[6..12]));
    let sparse = AccessorInfo { view: None, ..acc };
    assert_eq!(accessor_bytes(&buffer, &sparse), Err(GlbError::SparseAccessor));
    let long = AccessorInfo { count: 6, ..acc };
    assert_eq!(accessor_bytes(&buffer, &long), Err(GlbError::OutOfBounds));
    let huge = AccessorInfo { offset: usize::MAX, ..acc };
    assert_eq!(accessor_bytes(&buffer, &huge), Err(GlbError::OutOfBounds));
}

#[test]
fn indices_are_widened() {
    let buffer = vec![3u8, 1, 2, 9];
    let bytes = accessor(0, 4, 3, ComponentType::U8, AccessorDimensions::Scalar);
    assert_eq!(decode_indices(&buffer, &bytes), Ok(vec![3, 1, 2]));
    let triangle = triangle_buffer();
    let shorts = accessor(0, 6, 3, ComponentType::U16, AccessorDimensions::Scalar);
    assert_eq!(decode_indices(&triangle, &shorts), Ok(vec![0, 1, 2]));
    let words = accessor(8, 12, 3, ComponentType::U32, AccessorDimensions::Scalar);
    assert_eq!(
        decode_indices(&triangle, &words),
        Ok(vec![0, 0, 0])
    );
}

#[test]
fn index_formats_other_than_unsigned_scalars_are_refused() {
    let buffer = vec![0u8; 16];
    let floats = accessor(0, 12, 3, ComponentType::F32, AccessorDimensions::Scalar);
    assert_eq!(decode_indices(&buffer, &floats), Err(GlbError::UnsupportedIndexFormat));
    let pairs = accessor(0, 12, 3, ComponentType::U16, AccessorDimensions::Vec2);
    assert_eq!(decode_indices(&buffer, &pairs), Err(GlbError::UnsupportedIndexFormat));
    let outside = accessor(8, 12, 3, ComponentType::U32, AccessorDimensions::Scalar);
    assert_eq!(decode_indices(&buffer, &outside), Err(GlbError::OutOfBounds));
}

#[test]
fn vertices_take_missing_attributes_as_zero() {
    let color = [1, 2, 3, 4];
    let vertices = assemble_vertices(
        &vec![[1, 1, 1], [2, 2, 2]],
        &vec![[5, 5, 5]],
        &vec![],
        &vec![[7, 7, 7, 7], [8, 8, 8, 8]],
        color,
    );
    assert_eq!(vertices.len(), 2);
    assert_eq!(vertices[0].position, [1, 1, 1]);
    assert_eq!(vertices[0].normal, [5, 5, 5]);
    assert_eq!(vertices[1].normal, [0, 0, 0]);
    assert_eq!(vertices[1].uv, [0, 0]);
    assert_eq!(vertices[1].tangent, [8, 8, 8, 8]);
    assert_eq!(vertices[1].color, color);
}

#[test]
fn a_triangle_mesh_is_read() {
    let buffer = triangle_buffer();
    let mesh = parse_mesh(&buffer, &triangle_primitive()).unwrap();
    assert_eq!(mesh.indices, vec![0, 1, 2]);
    assert_eq!(mesh.vertices.len(), 3);
    let v = mesh.vertices[1];
    assert_eq!(v.position, [1.0f32.to_bits(), 0, 0]);
    assert_eq!(v.normal, [0, 0, 1.0f32.to_bits()]);
    assert_eq!(v.tangent, [1.0f32.to_bits(), 0, 0, 1.0f32.to_bits()]);
    assert_eq!(v.uv, [1.0f32.to_bits(), 0]);
    assert_eq!(v.color, plain_material().base_color_factor);
}

#[test]
fn mesh_errors_come_from_the_primitive() {
    let buffer = triangle_buffer();
    let no_indices = PrimitiveInfo { indices: None, ..triangle_primitive() };
    assert_eq!(parse_mesh(&buffer, &no_indices).unwrap_err(), GlbError::MissingIndices);

    let mut no_uvs = triangle_primitive();
    no_uvs.attributes.pop();
    assert_eq!(parse_mesh(&buffer, &no_uvs).unwrap_err(), GlbError::MissingAttribute);

    // uvs of the second set are not read
    let mut second_set = triangle_primitive();
    second_set.attributes[3].0 = AttributeSemantic::TexCoords(1);
    assert_eq!(parse_mesh(&buffer, &second_set).unwrap_err(), GlbError::MissingAttribute);

    let mut fewer_positions = triangle_primitive();
    fewer_positions.attributes[1].1.count = 2;
    assert_eq!(
        parse_mesh(&buffer, &fewer_positions).unwrap_err(),
        GlbError::AttributeCountMismatch
    );

    let mut sparse = triangle_primitive();
    sparse.attributes.push((
        AttributeSemantic::Joints(0),
        AccessorInfo { view: None, ..sparse.attributes[0].1 },
    ));
    assert_eq!(parse_mesh(&buffer, &sparse).unwrap_err(), GlbError::SparseAccessor);

    let mut outside = triangle_primitive();
    outside.attributes[0].1.offset = 200;
    assert_eq!(parse_mesh(&buffer, &outside).unwrap_err(), GlbError::OutOfBounds);
}

#[test]
fn material_textures_are_cut_from_the_buffer() {
    let buffer: Vec<u8> = (0..10).collect();
    assert_eq!(texture_data(&buffer, None), Ok(None));
    assert_eq!(
        texture_data(&buffer, Some(BufferViewRange { offset: 2, length: 3 })),
        Ok(Some(vec![2, 3, 4]))
    );
    let info = MaterialInfo {
        occlusion_strength: Some(0.75f32.to_bits()),
        normal_texture: Some(BufferViewRange { offset: 0, length: 2 }),
        metallic_roughness_texture: Some(BufferViewRange { offset: 8, length: 2 }),
        ..plain_material()
    };
    let material = parse_material(&buffer, &info).unwrap();
    assert_eq!(material.normal, Some(vec![0, 1]));
    assert_eq!(material.albedo, None);
    assert_eq!(material.roughness, Some(vec![8, 9]));
    assert_eq!(material.occlusion_strength, 0.75f32.to_bits());
    assert_eq!(material.roughness_factor, 0.5f32.to_bits());

    let plain = parse_material(&buffer, &plain_material()).unwrap();
    assert_eq!(plain.occlusion_strength, 1.0f32.to_bits());

    let outside = MaterialInfo {
        base_color_texture: Some(BufferViewRange { offset: 8, length: 3 }),
        ..plain_material()
    };
    assert_eq!(parse_material(&buffer, &outside).unwrap_err(), GlbError::OutOfBounds);
}

#[test]
fn material_default_is_white_and_untextured() {
    let material = Material::default();
    assert_eq!(material.color_factor, [1.0f32.to_bits(); 4]);
    assert_eq!(material.roughness_factor, 0.0f32.to_bits());
    assert_eq!(material.metalness_factor, 0.0f32.to_bits());
    assert_eq!(material.occlusion_strength, 1.0f32.to_bits());
    assert!(material.albedo.is_none() && material.normal.is_none() && material.roughness.is_none());
}

fn identity() -> NodeTransform {
    NodeTransform::Decomposed {
        translation: [0; 3],
        rotation: [0, 0, 0, 1.0f32.to_bits()],
        scale: [1.0f32.to_bits(); 3],
    }
}

fn node(children: Vec<usize>, primitives: Option<usize>) -> SceneNode {
    SceneNode {
        children,
        transform: identity(),
        primitives: primitives.map(|n| (0..n).map(|_| triangle_primitive()).collect()),
    }
}

#[test]
fn entries_follow_the_hierarchy_depth_first() {
    // node 0 (two primitives) has children 1 (no mesh) and 2; node 1 has child 3
    let graph = SceneGraph {
        scenes: vec![vec![0], vec![4]],
        nodes: vec![
            node(vec![1, 2], Some(2)),
            node(vec![3], None),
            node(vec![], Some(1)),
            node(vec![], None),
            node(vec![], None),
        ],
    };
    let entries = collect_entries(&graph).unwrap();
    let expected = vec![
        NodeEntry { node: 0, primitive: Some(0), parent: 0, parent_node: None },
        NodeEntry { node: 0, primitive: Some(1), parent: 0, parent_node: None },
        NodeEntry { node: 1, primitive: None, parent: 0, parent_node: Some(0) },
        NodeEntry { node: 3, primitive: None, parent: 2, parent_node: Some(1) },
        NodeEntry { node: 2, primitive: Some(0), parent: 0, parent_node: Some(0) },
        NodeEntry { node: 4, primitive: None, parent: 0, parent_node: None },
    ];
    assert_eq!(entries, expected);

    let model = build_model(&graph, &triangle_buffer()).unwrap();
    assert_eq!(model.meshes.len(), 6);
    assert!(model.meshes[2].mesh.is_none());
    assert_eq!(model.meshes[4].mesh.as_ref().unwrap().0.indices, vec![0, 1, 2]);
    assert_eq!(model.meshes[3].parent, 2);
    assert_eq!(model.transforms.len(), 5);
}

#[test]
fn cycles_and_unknown_nodes_are_errors() {
    let cyclic = SceneGraph {
        scenes: vec![vec![0]],
        nodes: vec![node(vec![1], None), node(vec![0], None)],
    };
    assert_eq!(collect_entries(&cyclic), Err(GlbError::CyclicHierarchy));
    let unknown = SceneGraph { scenes: vec![vec![0]], nodes: vec![node(vec![5], None)] };
    assert_eq!(collect_entries(&unknown), Err(GlbError::InvalidNode));
    let deep = SceneGraph {
        scenes: vec![vec![0]],
        nodes: vec![node(vec![1], None), node(vec![2], None), node(vec![], None)],
    };
    assert_eq!(collect_entries(&deep).unwrap().len(), 3);
}

const TRIANGLE_JSON: &str = r#"{
"asset": {"version": "2.0"},
"scene": 0,
"scenes": [{"nodes": [0]}],
"nodes": [{"mesh": 0, "children": [1]}, {"translation": [1.0, 2.0, 3.0]}],
"meshes": [{"primitives": [{"attributes": {"POSITION": 1, "NORMAL": 2, "TANGENT": 3, "TEXCOORD_0": 4}, "indices": 0}]}],
"buffers": [{"byteLength": 152}],
"bufferViews": [
  {"buffer": 0, "byteOffset": 0, "byteLength": 6},
  {"buffer": 0, "byteOffset": 8, "byteLength": 36},
  {"buffer": 0, "byteOffset": 44, "byteLength": 36},
  {"buffer": 0, "byteOffset": 80, "byteLength": 48},
  {"buffer": 0, "byteOffset": 128, "byteLength": 24}
],
"accessors": [
  {"bufferView": 0, "componentType": 5123, "count": 3, "type": "SCALAR"},
  {"bufferView": 1, "componentType": 5126, "count": 3, "type": "VEC3", "min": [0.0, 0.0, 0.0], "max": [1.0, 1.0, 0.0]},
  {"bufferView": 2, "componentType": 5126, "count": 3, "type": "VEC3"},
  {"bufferView": 3, "componentType": 5126, "count": 3, "type": "VEC4"},
  {"bufferView": 4, "componentType": 5126, "count": 3, "type": "VEC2"}
]
}"#;

fn glb(json: &str, bin: Option<&[u8]>) -> Vec<u8> {
    let mut json = json.as_bytes().to_vec();
    while json.len() % 4 != 0 {
        json.push(b' ');
    }
    let mut chunks = Vec::new();
    chunks.extend_from_slice(&(json.len() as u32).to_le_bytes());
    chunks.extend_from_slice(b"JSON");
    chunks.extend_from_slice(&json);
    if let Some(bin) = bin {
        let mut bin = bin.to_vec();
        while bin.len() % 4 != 0 {
            bin.push(0);
        }
        chunks.extend_from_slice(&(bin.len() as u32).to_le_bytes());
        chunks.extend_from_slice(b"BIN\0");
        chunks.extend_from_slice(&bin);
    }
    let mut bytes = Vec::new();
    bytes.extend_from_slice(b"glTF");
    bytes.extend_from_slice(&2u32.to_le_bytes());
    bytes.extend_from_slice(&((12 + chunks.len()) as u32).to_le_bytes());
    bytes.extend_from_slice(&chunks);
    bytes
}

#[test]
fn a_binary_gltf_file_is_read() {
    let model = parse_glb(&glb(TRIANGLE_JSON, Some(&triangle_buffer()))).unwrap();
    assert_eq!(model.meshes.len(), 2);
    let (mesh, material) = model.meshes[0].mesh.as_ref().unwrap();
    assert_eq!(mesh.indices, vec![0, 1, 2]);
    assert_eq!(mesh.vertices[2].position, [0, 1.0f32.to_bits(), 0]);
    assert_eq!(mesh.vertices[0].color, [1.0f32.to_bits(); 4]);
    assert_eq!(material.metalness_factor, 1.0f32.to_bits());
    assert!(model.meshes[1].mesh.is_none());
    assert_eq!(model.meshes[1].parent_node, Some(0));
    match model.transforms[1] {
        NodeTransform::Decomposed { translation, .. } => {
            assert_eq!(translation, [1.0f32.to_bits(), 2.0f32.to_bits(), 3.0f32.to_bits()])
        }
        NodeTransform::Matrix(_) => panic!("a translation is decomposed"),
    }
}

#[test]
fn broken_containers_are_refused() {
    assert_eq!(parse_glb(b"not a glb file").unwrap_err(), GlbError::InvalidContainer);
    let mut short_header = glb(TRIANGLE_JSON, Some(&triangle_buffer()));
    short_header[8..12].copy_from_slice(&4u32.to_le_bytes());
    assert_eq!(parse_glb(&short_header).unwrap_err(), GlbError::InvalidContainer);
    assert_eq!(
        Model::from_glb_bytes(&glb(TRIANGLE_JSON, None)).unwrap_err(),
        GlbError::MissingBinaryChunk
    );
    assert_eq!(
        parse_glb(&glb("{\"asset\": 3}", Some(&[0; 4]))).unwrap_err(),
        GlbError::InvalidDocument
    );
}

#[test]
fn entry_parents_come_first() {
    let graph = SceneGraph {
        scenes: vec![vec![0]],
        nodes: vec![node(vec![1, 2], Some(0)), node(vec![3], Some(1)), node(vec![], None), node(vec![], Some(2))],
    };
    let entries = collect_entries(&graph).unwrap();
    for (i, entry) in entries.iter().enumerate() {
        assert!(entry.parent <= i);
        if let Some(p) = entry.parent_node {
            assert!(graph.nodes[p].children.contains(&entry.node));
        }
    }
    // the first child of a node whose mesh has no primitives is its own parent entry
    assert_eq!(entries[0], NodeEntry { node: 1, primitive: Some(0), parent: 0, parent_node: Some(0) });
}

#[test]
fn textures_fall_back_to_single_pixels() {
    let mut material = Material::default();
    material.normal = Some(vec![9, 9]);
    let (albedo, normal, roughness) = material_texture_sources(&material, [1, 2, 3, 4], [5, 6, 7, 0]);
    match albedo {
        TextureSource::RawBytes { width, height, bytes, .. } => {
            assert_eq!((width, height), (1, 1));
            assert_eq!(bytes, vec![1, 2, 3, 4]);
        }
        TextureSource::FormattedBytes(_) => panic!("the material has no albedo image"),
    }
    match normal {
        TextureSource::FormattedBytes(bytes) => assert_eq!(bytes, vec![9, 9]),
        TextureSource::RawBytes { .. } => panic!("the material has a normal image"),
    }
    match roughness {
        TextureSource::RawBytes { bytes, .. } => assert_eq!(bytes, vec![5, 6, 7, 0]),
        TextureSource::FormattedBytes(_) => panic!("the material has no roughness image"),
    }
    assert_eq!(flat_normal_pixel(), [128, 128, 255, 128]);
    match single_pixel([128, 128, 255, 128]) {
        TextureSource::RawBytes { bytes, .. } => assert_eq!(bytes, vec![128, 128, 255, 128]),
        TextureSource::FormattedBytes(_) => panic!("a pixel is raw"),
    }
}

#[test]
fn a_json_chunk_that_looks_like_a_container_is_refused() {
    let mut json = b"glTF".to_vec();
    json.extend_from_slice(&2u32.to_le_bytes());
    json.extend_from_slice(&4u32.to_le_bytes());
    let json = String::from_utf8(json).unwrap();
    assert_eq!(parse_glb(&glb(&json, Some(&[0; 4]))).unwrap_err(), GlbError::InvalidDocument);
}
