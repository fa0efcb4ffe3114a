//! CPU-side logic of a small wgpu rendering layer: handle identities, mesh
//! attribute storage, vertex buffer layouts, reading meshes and materials from binary
//! glTF files, texture and buffer data, glyph atlas packing, GPU timestamp bookkeeping,
//! and the widget tree and interaction state of an immediate-mode UI.

mod handle;
mod vertex;
mod mesh;
mod gpu_mesh;
mod font_atlas;
mod ui;
mod profiler;
mod resources;
mod batch;
pub mod glb;

pub use handle::{ids_stay_unique_across_clear, clear_cache, next_id, consecutive_ids_increase, id_step, ArcHandle, RenderCache};
pub use vertex::{component_count, component_width, packed_widths, format_size_is_its_components, format_size, formats_size, is_dense_layout, attributes_before, is_relocated, relocation_fits, sequential_shader_locations, VertexAttribute, VertexBufferLayout, VertexFormat, VertexStepMode};
pub use mesh::{attribute_read_after_write, attribute_removal, F_ZERO, F_ONE, F_MINUS_ONE, F_HALF, F_MINUS_HALF, MeshBuilder, bytes_before, min_key_values, COLOR_COMPONENT_ONE, entries_map, sorted_entries, Mesh, attribute_format, attribute_key, element_size, values_byte_len, values_len, PrimitiveTopology, VertexAttributeId, VertexAttributeValues};
pub use gpu_mesh::{PassBindings, ArcBuffer, BoundingBox, DrawCall, GpuMesh, IndexFormat, VertexBufferBinding};
pub use font_atlas::{glyphs_fit_in, cursor_after, disjoint_rects, glyph_offset, glyph_offsets, glyph_position, glyph_within_atlas_width, glyphs_do_not_overlap, glyphs_fit, max_glyph_height, max_height_of, FONT_ATLAS_PADDING, FONT_ATLAS_SIZE};
pub use ui::{widgets_follow_their_parents, WidgetTree, clickable_step, end_frame_step, hover_press_release_clicks, axes_are_distinct, button_step, child_label_hash, click_needs_press, ids_follow_labels, label_hash, press_then_release_clicks, root_index, Alignment, ButtonState, Direction, UiID, WidgetInteraction};
pub use profiler::{reserve_step, reserved_slots_do_not_overlap, GpuProfileQuery, GpuProfiler, ReadbackRequest, QUERY_SET_MAX_QUERIES, READBACK_BUFFER_SIZE};
pub use resources::{image_dimensions, BufferExtent, instance_count, instances_to_gpu, InstaceTrait, present_mode, surface_format_index, wants_timestamp_queries, PresentMode, TextureData, key_flag, surface_sizes_are_positive, texel_size, BufferSource, DebugInputUniform, EncoderBuilder, FontInfo, MedianFilterParams, SurfaceSize, TextureAtlasBuilder, TextureFormat, TextureSource};
pub use batch::{is_box_edge, same_line, cube_lines_are_the_box_edges, ring_lines_close_a_loop, starts_a_line, uses_vertex, corner_x, corner_y, turn, quad_triangles_cover_the_quad, cube_indices, cube_indices_in_range, indices_within, GizmoBatch, line_indices, quad_indices, quad_indices_in_range, quad_line_indices, ring_indices, ring_indices_in_range, sphere_indices, spec_cube_indices, spec_quad_indices, spec_ring_indices, GIZMO_RESOLUTION};
