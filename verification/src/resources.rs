use vstd::prelude::*;

verus! {

/// Settings of a command encoder
pub struct EncoderBuilder<'a> {
    label: Option<&'a str>,
}

impl<'a> EncoderBuilder<'a> {
    pub closed spec fn spec_label(self) -> Option<&'a str> {
        self.label
    }

    pub fn new() -> (builder: Self)
        ensures
            builder.spec_label() == None::<&'a str>,
    {
        Self { label: None }
    }

    /// The label that the encoder is created with
    pub fn encoder_label(&self) -> (label: Option<&'a str>)
        ensures
            label == self.spec_label(),
    {
        self.label
    }
}

/// Builds a texture atlas over a texture
pub struct TextureAtlasBuilder {}

impl TextureAtlasBuilder {
    pub fn new() -> (builder: Self)
        ensures
            builder == (TextureAtlasBuilder {}),
    {
        Self {  }
    }
}

/// Metrics of a font atlas as a whole
#[derive(Debug, Clone)]
pub struct FontInfo {}

/// Parameters of the median filter shader
pub struct MedianFilterParams {
    pub kernel_size: i32,
}

impl MedianFilterParams {
    pub fn new(kernel_size: i32) -> (params: Self)
        ensures
            params.kernel_size == kernel_size,
    {
        Self { kernel_size }
    }
}

/// State of the debug buttons F1 to F9 for shaders: 1 while pressed, 0 otherwise
#[derive(Debug, Clone, Copy, PartialEq, Eq, Structural)]
pub struct DebugInputUniform {
    pub btn1: u32,
    pub btn2: u32,
    pub btn3: u32,
    pub btn4: u32,
    pub btn5: u32,
    pub btn6: u32,
    pub btn7: u32,
    pub btn8: u32,
    pub btn9: u32,
}

/// 1 for a pressed key, 0 otherwise
pub open spec fn key_flag(pressed: bool) -> u32 {
    if pressed {
        1
    } else {
        0
    }
}

impl Default for DebugInputUniform {
    fn default() -> (uniform: Self)
        ensures
            uniform == (DebugInputUniform {
                btn1: 0,
                btn2: 0,
                btn3: 0,
                btn4: 0,
                btn5: 0,
                btn6: 0,
                btn7: 0,
                btn8: 0,
                btn9: 0,
            }),
    {
        DebugInputUniform {
            btn1: 0,
            btn2: 0,
            btn3: 0,
            btn4: 0,
            btn5: 0,
            btn6: 0,
            btn7: 0,
            btn8: 0,
            btn9: 0,
        }
    }
}

impl DebugInputUniform {
    /// The uniform for the keys F1 to F9, `pressed[0]` being F1
    pub fn from_keys(pressed: [bool; 9]) -> (uniform: Self)
        ensures
            uniform == (DebugInputUniform {
                btn1: key_flag(pressed[0]),
                btn2: key_flag(pressed[1]),
                btn3: key_flag(pressed[2]),
                btn4: key_flag(pressed[3]),
                btn5: key_flag(pressed[4]),
                btn6: key_flag(pressed[5]),
                btn7: key_flag(pressed[6]),
                btn8: key_flag(pressed[7]),
                btn9: key_flag(pressed[8]),
            }),
    {
        let mut uniform = DebugInputUniform::default();
        if pressed[0] {
            uniform.btn1 = 1;
        }
        if pressed[1] {
            uniform.btn2 = 1;
        }
        if pressed[2] {
            uniform.btn3 = 1;
        }
        if pressed[3] {
            uniform.btn4 = 1;
        }
        if pressed[4] {
            uniform.btn5 = 1;
        }
        if pressed[5] {
            uniform.btn6 = 1;
        }
        if pressed[6] {
            uniform.btn7 = 1;
        }
        if pressed[7] {
            uniform.btn8 = 1;
        }
        if pressed[8] {
            uniform.btn9 = 1;
        }
        uniform
    }
}

/// Supported texture formats for TextureBuilder
#[derive(Debug, Clone, Copy, PartialEq, Eq, Structural)]
pub enum TextureFormat {
    /// r, \[0, 255] => \[0.0, 1.0]
    R8Unorm,
    /// r g b a, \[0, 255] => \[0.0, 1.0]
    Rgba8Unorm,
}

/// Bytes per element of a texture format
pub open spec fn texel_size(format: TextureFormat) -> u32 {
    match format {
        TextureFormat::R8Unorm => 1,
        TextureFormat::Rgba8Unorm => 4,
    }
}

impl TextureFormat {
    /// Returns the amount of bytes per element
    pub fn size(&self) -> (size: u32)
        ensures
            size == texel_size(*self),
    {
        match self {
            TextureFormat::R8Unorm => 1,
            TextureFormat::Rgba8Unorm => 4,
        }
    }

    /// Bytes in a row of `width` elements, as a texture is written
    pub fn bytes_per_row(&self, width: u32) -> (bytes: u32)
        requires
            texel_size(*self) * width <= u32::MAX,
        ensures
            bytes == texel_size(*self) * width,
    {
        self.size() * width
    }
}

/// Type of source for TextureBuilder
pub enum TextureSource {
    /// Bytes which contains header supported by the image crate
    /// png, jpeg, bmp, ...
    /// Always converted to rgba8
    FormattedBytes(Vec<u8>),
    /// Raw bytes without header
    RawBytes { width: u32, height: u32, format: TextureFormat, bytes: Vec<u8> },
}

/// The width and height of the image that bytes encode, where the image crate decodes them
/// (PNG, JPEG or BMP here): `None` where it does not
pub uninterp spec fn image_dimensions(bytes: Seq<u8>) -> Option<(u32, u32)>;

/// `image::load_from_memory` and `DynamicImage::to_rgba8`: decodes an image in a format that the
/// image crate reads (PNG, JPEG or BMP here) to 8-bit RGBA, or `None` where it cannot. Whether
/// the bytes decode, and the size of the image, depend on the bytes alone and are named by
/// `image_dimensions`. The pixels are four bytes each, row by row, so there are
/// `4 * width * height` of them. Their values are not stated: a JPEG decoder picks its colour
/// conversion by the features of the machine it runs on.
#[verifier::external_body]
fn decode_rgba8(bytes: &[u8]) -> (r: Option<(u32, u32, Vec<u8>)>)
    ensures
        r is Some <==> image_dimensions(bytes@) is Some,
        r is Some ==> (r->Some_0.0, r->Some_0.1) == image_dimensions(bytes@)->Some_0,
        r is Some ==> r->Some_0.2@.len() == 4 * r->Some_0.0 * r->Some_0.1,
{
    let image = image::load_from_memory(bytes).ok()?.to_rgba8();
    Some((image.width(), image.height(), image.into_raw()))
}

/// Pixels of a texture as they are written to it: `bytes_per_row` bytes per row of `width`
/// texels, `height` rows
#[derive(Clone, Debug)]
pub struct TextureData {
    pub width: u32,
    pub height: u32,
    pub format: TextureFormat,
    pub bytes: Vec<u8>,
    pub bytes_per_row: u32,
}

impl TextureData {
    /// The texture data of pixels in a format: a row holds `width` texels of the format's size;
    /// `None` where a row would not fit in `u32` bytes
    pub fn from_pixels(width: u32, height: u32, format: TextureFormat, bytes: Vec<u8>) -> (r:
        Option<TextureData>)
        ensures
            r is Some <==> texel_size(format) * width <= u32::MAX,
            r is Some ==> {
                let data = r->Some_0;
                &&& data.width == width
                &&& data.height == height
                &&& data.format == format
                &&& data.bytes@ == bytes@
                &&& data.bytes_per_row == texel_size(format) * width
            },
    {
        let row = match format.size().checked_mul(width) {
            None => return None,
            Some(row) => row,
        };
        Some(TextureData { width, height, format, bytes, bytes_per_row: row })
    }
}

impl TextureSource {
    /// The pixels that the source gives: formatted bytes decoded to 8-bit RGBA (see
    /// `TextureData::from_pixels` for what follows the decoding), raw bytes as they are. `None`
    /// where formatted bytes encode no image that the decoder reads, or a row would not fit in
    /// `u32` bytes.
    pub fn into_texture_data(self) -> (r: Option<TextureData>)
        ensures
            match self {
                TextureSource::FormattedBytes(encoded) => {
                    &&& (r is Some <==> (image_dimensions(encoded@) is Some && 4
                        * image_dimensions(encoded@)->Some_0.0 <= u32::MAX))
                    &&& r is Some ==> {
                        let data = r->Some_0;
                        &&& (data.width, data.height) == image_dimensions(encoded@)->Some_0
                        &&& data.format == TextureFormat::Rgba8Unorm
                        &&& data.bytes@.len() == 4 * data.width * data.height
                        &&& data.bytes_per_row == 4 * data.width
                    }
                },
                TextureSource::RawBytes { width, height, format, bytes } => {
                    &&& (r is Some <==> texel_size(format) * width <= u32::MAX)
                    &&& r is Some ==> {
                        &&& r->Some_0.width == width
                        &&& r->Some_0.height == height
                        &&& r->Some_0.format == format
                        &&& r->Some_0.bytes@ == bytes@
                        &&& r->Some_0.bytes_per_row == texel_size(format) * width
                    }
                },
            },
    {
        match self {
            TextureSource::FormattedBytes(encoded) => match decode_rgba8(encoded.as_slice()) {
                None => None,
                Some((width, height, pixels)) => TextureData::from_pixels(
                    width,
                    height,
                    TextureFormat::Rgba8Unorm,
                    pixels,
                ),
            },
            TextureSource::RawBytes { width, height, format, bytes } => TextureData::from_pixels(
                width,
                height,
                format,
                bytes,
            ),
        }
    }
}

/// Where the contents of a buffer come from: only a capacity, or values
pub enum BufferSource<'a, T> {
    Capacity(usize),
    Values(&'a [T]),
}

/// How many elements a GPU buffer has room for, and how many it holds
#[derive(Debug, Clone, Copy, PartialEq, Eq, Structural)]
pub struct BufferExtent {
    pub capacity: usize,
    pub len: u32,
}

impl<'a, T> BufferSource<'a, T> {
    /// The extent of a buffer built from the source: room for the capacity and nothing held,
    /// or room for the values and all of them held (their number modulo 2^32)
    pub fn extent(&self) -> (extent: BufferExtent)
        ensures
            extent == match *self {
                BufferSource::Capacity(capacity) => BufferExtent { capacity, len: 0 },
                BufferSource::Values(values) => BufferExtent {
                    capacity: values@.len() as usize,
                    len: values@.len() as u32,
                },
            },
    {
        match self {
            BufferSource::Capacity(capacity) => BufferExtent { capacity: *capacity, len: 0 },
            BufferSource::Values(values) => BufferExtent {
                capacity: values.len(),
                len: values.len() as u32,
            },
        }
    }
}

impl BufferExtent {
    /// Bytes of a buffer with room for the capacity in elements of `element_size` bytes; `None`
    /// where they do not fit in `u64`
    pub fn byte_size(&self, element_size: u64) -> (size: Option<u64>)
        ensures
            size is Some <==> self.capacity * element_size <= u64::MAX,
            size is Some ==> size->Some_0 == self.capacity * element_size,
    {
        (self.capacity as u64).checked_mul(element_size)
    }

    /// Records that `count` elements were written from the start, replacing what the buffer
    /// held; they have to fit
    pub fn write(&mut self, count: usize)
        requires
            count <= old(self).capacity,
        ensures
            final(self).capacity == old(self).capacity,
            final(self).len == count as u32,
    {
        self.len = count as u32;
    }
}

/// Size of the window, which the surface follows
#[derive(Debug, Clone, Copy, PartialEq, Eq, Structural)]
pub struct SurfaceSize {
    pub width: u32,
    pub height: u32,
}

impl SurfaceSize {
    /// The surface extent of a window: at least one pixel each way
    pub fn from_window(width: u32, height: u32) -> (size: Self)
        ensures
            size.width == if width == 0 {
                1
            } else {
                width
            },
            size.height == if height == 0 {
                1
            } else {
                height
            },
    {
        let width = if width > 1 {
            width
        } else {
            1
        };
        let height = if height > 1 {
            height
        } else {
            1
        };
        Self { width, height }
    }

    /// Resizes to a new size; width and height have to be non zero, a size with a zero is
    /// ignored. Whether the size was taken is returned.
    pub fn resize_window(&mut self, width: u32, height: u32) -> (resized: bool)
        ensures
            resized == (width != 0 && height != 0),
            *final(self) == if resized {
                SurfaceSize { width, height }
            } else {
                *old(self)
            },
    {
        if width == 0 || height == 0 {
            return false;
        }
        self.width = width;
        self.height = height;
        true
    }
}

/// A surface size never has a zero side once it comes from a window.
pub proof fn surface_sizes_are_positive(width: u32, height: u32, size: SurfaceSize)
    requires
        size.width == (if width == 0 {
            1
        } else {
            width
        }),
        size.height == (if height == 0 {
            1
        } else {
            height
        }),
    ensures
        size.width >= 1,
        size.height >= 1,
{
}

/// How frames are presented to the surface
#[derive(Debug, Clone, Copy, PartialEq, Eq, Structural)]
pub enum PresentMode {
    AutoVsync,
    AutoNoVsync,
}

/// Frames wait for the display's vertical sync where vsync is enabled
pub fn present_mode(vsync_enabled: bool) -> (mode: PresentMode)
    ensures
        mode == if vsync_enabled {
            PresentMode::AutoVsync
        } else {
            PresentMode::AutoNoVsync
        },
{
    if vsync_enabled {
        PresentMode::AutoVsync
    } else {
        PresentMode::AutoNoVsync
    }
}

/// Index of the surface format to configure, given for each format the surface supports
/// whether it is sRGB: the first sRGB one, or else the first; `None` where there is none
pub fn surface_format_index(is_srgb: &[bool]) -> (index: Option<usize>)
    ensures
        is_srgb@.len() == 0 <==> index is None,
        index is Some ==> {
            let i = index->Some_0 as int;
            &&& 0 <= i < is_srgb@.len()
            &&& (exists|j: int| 0 <= j < is_srgb@.len() && is_srgb@[j]) ==> is_srgb@[i] && forall|j: int|
                0 <= j < i ==> !is_srgb@[j]
            &&& (forall|j: int| 0 <= j < is_srgb@.len() ==> !is_srgb@[j]) ==> i == 0
        },
{
    if is_srgb.len() == 0 {
        return None;
    }
    let mut i: usize = 0;
    while i < is_srgb.len()
        invariant
            i <= is_srgb@.len(),
            forall|j: int| 0 <= j < i ==> !is_srgb@[j],
        decreases is_srgb@.len() - i,
    {
        if is_srgb[i] {
            return Some(i);
        }
        i += 1;
    }
    Some(0)
}

/// Timestamp queries are requested where the adapter offers them in any form: as such, inside
/// encoders or inside passes
pub fn wants_timestamp_queries(
    timestamp_query: bool,
    inside_encoders: bool,
    inside_passes: bool,
) -> (wanted: bool)
    ensures
        wanted == (timestamp_query || inside_encoders || inside_passes),
{
    timestamp_query || inside_encoders || inside_passes
}

/// A value that is drawn as an instance: its data as the GPU reads it
pub trait InstaceTrait<G> {
    fn to_gpu(&self) -> G;
}

/// The GPU data of each instance, in order
pub fn instances_to_gpu<G, T: InstaceTrait<G>>(instances: &Vec<T>) -> (gpu: Vec<G>)
    ensures
        gpu@.len() == instances@.len(),
        forall|i: int|
            0 <= i < instances@.len() ==> call_ensures(
                T::to_gpu,
                (&instances@[i],),
                #[trigger] gpu@[i],
            ),
{
    let mut gpu: Vec<G> = Vec::new();
    let mut i: usize = 0;
    while i < instances.len()
        invariant
            i <= instances@.len(),
            gpu@.len() == i,
            forall|j: int|
                0 <= j < i ==> call_ensures(T::to_gpu, (&instances@[j],), #[trigger] gpu@[j]),
        decreases instances@.len() - i,
    {
        gpu.push(instances[i].to_gpu());
        i += 1;
    }
    gpu
}

/// Number of instances as a draw call counts them: the length, modulo 2^32
pub fn instance_count<T>(instances: &Vec<T>) -> (count: u32)
    ensures
        count == instances@.len() as u32,
{
    instances.len() as u32
}

} // verus!
