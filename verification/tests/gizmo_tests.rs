use render::{cube_indices, sphere_indices, GizmoBatch, GIZMO_RESOLUTION};

#[test]
fn gizmo_shapes_index_their_own_vertices() {
    let mut batch = GizmoBatch::new();
    assert_eq!(batch.add_line(), 0);
    assert_eq!(batch.add_quad(), 2);
    assert_eq!(batch.add_cube(), 6);
    assert_eq!(batch.add_circle(), 14);
    assert_eq!(batch.add_sphere(), 14 + GIZMO_RESOLUTION);
    assert_eq!(batch.vertex_count(), 14 + 4 * GIZMO_RESOLUTION);

    let indices = batch.indices();
    assert_eq!(&indices[0..2], &[0, 1]);
    assert_eq!(&indices[2..10], &[2, 3, 3, 4, 4, 5, 5, 2]);
    assert_eq!(&indices[10..34], cube_indices(6).as_slice());
    assert_eq!(indices[34], 14);
    assert_eq!(indices[35], 15);
    assert_eq!(indices[34 + 2 * 15 + 1], 14);
    let sphere_start = 34 + 2 * GIZMO_RESOLUTION as usize;
    assert_eq!(&indices[sphere_start..], sphere_indices(30, GIZMO_RESOLUTION).as_slice());
    assert_eq!(indices.len(), sphere_start + 6 * GIZMO_RESOLUTION as usize);
    assert!(indices.iter().all(|&i| i < batch.vertex_count()));
}

#[test]
fn gizmo_batch_starts_over_after_clear() {
    let mut batch = GizmoBatch::new();
    batch.add_sphere();
    batch.clear();
    assert_eq!(batch.vertex_count(), 0);
    assert!(batch.indices().is_empty());
    assert_eq!(batch.add_line(), 0);
    assert_eq!(batch.indices(), &vec![0, 1]);
}
