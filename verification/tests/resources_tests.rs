use render::{
    cube_indices, line_indices, quad_indices, quad_line_indices, ring_indices, sphere_indices,
    DebugInputUniform, EncoderBuilder, MedianFilterParams, SurfaceSize, TextureAtlasBuilder,
    TextureData, TextureFormat, TextureSource, GIZMO_RESOLUTION, present_mode, surface_format_index,
    wants_timestamp_queries, PresentMode, instance_count, instances_to_gpu, InstaceTrait,
    BufferExtent, BufferSource,
};

#[test]
fn debug_input_flags() {
    let mut keys = [false; 9];
    keys[0] = true;
    keys[8] = true;
    let uniform = DebugInputUniform::from_keys(keys);
    assert_eq!(uniform.btn1, 1);
    assert_eq!(uniform.btn2, 0);
    assert_eq!(uniform.btn9, 1);
    assert_eq!(DebugInputUniform::from_keys([false; 9]), DebugInputUniform::default());
}

#[test]
fn texture_format_sizes() {
    assert_eq!(TextureFormat::R8Unorm.size(), 1);
    assert_eq!(TextureFormat::Rgba8Unorm.size(), 4);
    assert_eq!(TextureFormat::Rgba8Unorm.bytes_per_row(256), 1024);
    assert_eq!(TextureFormat::R8Unorm.bytes_per_row(256), 256);
}

#[test]
fn surface_sizes() {
    assert_eq!(SurfaceSize::from_window(0, 600), SurfaceSize { width: 1, height: 600 });
    let mut size = SurfaceSize::from_window(800, 600);
    assert!(!size.resize_window(0, 100));
    assert_eq!(size, SurfaceSize { width: 800, height: 600 });
    assert!(size.resize_window(1024, 768));
    assert_eq!(size, SurfaceSize { width: 1024, height: 768 });
}

#[test]
fn small_builders() {
    assert_eq!(MedianFilterParams::new(5).kernel_size, 5);
    assert_eq!(EncoderBuilder::new().encoder_label(), None);
    let _ = TextureAtlasBuilder::new();
}

#[test]
fn quad_and_line_indices() {
    assert_eq!(quad_indices(4), [4, 5, 6, 6, 5, 7]);
    assert_eq!(line_indices(10), [10, 11]);
    assert_eq!(quad_line_indices(2), vec![2, 3, 3, 4, 4, 5, 5, 2]);
}

#[test]
fn loop_indices() {
    assert_eq!(ring_indices(3, 4), vec![3, 4, 4, 5, 5, 6, 6, 3]);
    assert_eq!(ring_indices(0, 1), vec![0, 0]);
    let cube = cube_indices(8);
    assert_eq!(cube.len(), 24);
    assert_eq!(&cube[..8], &[8, 9, 9, 10, 10, 11, 11, 8]);
    assert_eq!(&cube[16..], &[8, 12, 9, 13, 10, 14, 11, 15]);
    assert!(cube.iter().all(|&i| (8..16).contains(&i)));
    let sphere = sphere_indices(0, GIZMO_RESOLUTION);
    assert_eq!(sphere.len(), 6 * GIZMO_RESOLUTION as usize);
    assert_eq!(sphere[31], 0);
    assert_eq!(sphere[32], 16);
    assert_eq!(sphere[95], 32);
}

#[test]
fn raw_texture_bytes_are_taken_as_they_are() {
    let source = TextureSource::RawBytes {
        width: 3,
        height: 2,
        format: TextureFormat::R8Unorm,
        bytes: vec![1, 2, 3, 4, 5, 6],
    };
    let data = source.into_texture_data().unwrap();
    assert_eq!((data.width, data.height, data.bytes_per_row), (3, 2, 3));
    assert_eq!(data.format, TextureFormat::R8Unorm);
    assert_eq!(data.bytes, vec![1, 2, 3, 4, 5, 6]);
    let wide = TextureData::from_pixels(u32::MAX / 2, 1, TextureFormat::Rgba8Unorm, vec![]);
    assert!(wide.is_none());
    let rgba = TextureData::from_pixels(5, 1, TextureFormat::Rgba8Unorm, vec![0; 20]).unwrap();
    assert_eq!(rgba.bytes_per_row, 20);
}

#[test]
fn formatted_texture_bytes_are_decoded_to_rgba() {
    let pixels = vec![255u8, 0, 0, 255, 0, 255, 0, 128];
    let image = image::RgbaImage::from_raw(2, 1, pixels.clone()).unwrap();
    let mut png = std::io::Cursor::new(Vec::new());
    image.write_to(&mut png, image::ImageFormat::Png).unwrap();
    let data = TextureSource::FormattedBytes(png.into_inner()).into_texture_data().unwrap();
    assert_eq!((data.width, data.height, data.bytes_per_row), (2, 1, 8));
    assert_eq!(data.format, TextureFormat::Rgba8Unorm);
    assert_eq!(data.bytes, pixels);
    assert!(TextureSource::FormattedBytes(vec![1, 2, 3]).into_texture_data().is_none());
}

#[test]
fn surface_setup_decisions() {
    assert_eq!(present_mode(true), PresentMode::AutoVsync);
    assert_eq!(present_mode(false), PresentMode::AutoNoVsync);
    assert_eq!(surface_format_index(&[false, true, true]), Some(1));
    assert_eq!(surface_format_index(&[false, false]), Some(0));
    assert_eq!(surface_format_index(&[]), None);
    assert!(wants_timestamp_queries(false, false, true));
    assert!(!wants_timestamp_queries(false, false, false));
}

struct Instance {
    x: u32,
}

impl InstaceTrait<[u32; 2]> for Instance {
    fn to_gpu(&self) -> [u32; 2] {
        [self.x, self.x * 2]
    }
}

#[test]
fn instances_are_converted_in_order() {
    let instances = vec![Instance { x: 1 }, Instance { x: 5 }];
    assert_eq!(instances_to_gpu(&instances), vec![[1, 2], [5, 10]]);
    assert_eq!(instance_count(&instances), 2);
    assert!(instances_to_gpu::<[u32; 2], Instance>(&vec![]).is_empty());
}

#[test]
fn buffer_extents_follow_their_source() {
    let empty = BufferSource::<u32>::Capacity(3).extent();
    assert_eq!(empty, BufferExtent { capacity: 3, len: 0 });
    assert_eq!(empty.byte_size(4), Some(12));
    let values = [1u32, 2, 3, 4];
    let mut full = BufferSource::Values(&values).extent();
    assert_eq!(full, BufferExtent { capacity: 4, len: 4 });
    full.write(2);
    assert_eq!(full, BufferExtent { capacity: 4, len: 2 });
    assert_eq!(BufferExtent { capacity: usize::MAX, len: 0 }.byte_size(4), None);
}

#[test]
fn decoded_textures_keep_width_and_height_apart() {
    let pixels = vec![7u8; 4 * 3];
    let image = image::RgbaImage::from_raw(1, 3, pixels.clone()).unwrap();
    let mut png = std::io::Cursor::new(Vec::new());
    image.write_to(&mut png, image::ImageFormat::Png).unwrap();
    let data = TextureSource::FormattedBytes(png.into_inner()).into_texture_data().unwrap();
    assert_eq!((data.width, data.height, data.bytes_per_row), (1, 3, 4));
    assert_eq!(data.bytes, pixels);
}
