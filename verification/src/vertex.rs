use vstd::prelude::*;

verus! {

/// Vertex formats of a vertex attribute, one for each format of the GPU API
#[derive(Clone, Copy, Debug, PartialEq, Eq, Structural)]
pub enum VertexFormat {
    Uint8,
    Uint8x2,
    Uint8x4,
    Sint8,
    Sint8x2,
    Sint8x4,
    Unorm8,
    Unorm8x2,
    Unorm8x4,
    Snorm8,
    Snorm8x2,
    Snorm8x4,
    Uint16,
    Uint16x2,
    Uint16x4,
    Sint16,
    Sint16x2,
    Sint16x4,
    Unorm16,
    Unorm16x2,
    Unorm16x4,
    Snorm16,
    Snorm16x2,
    Snorm16x4,
    Float16,
    Float16x2,
    Float16x4,
    Float32,
    Float32x2,
    Float32x3,
    Float32x4,
    Uint32,
    Uint32x2,
    Uint32x3,
    Uint32x4,
    Sint32,
    Sint32x2,
    Sint32x3,
    Sint32x4,
    Float64,
    Float64x2,
    Float64x3,
    Float64x4,
    Unorm10_10_10_2,
    Unorm8x4Bgra,
}

/// Size in bytes of one element of a vertex format
pub open spec fn format_size(format: VertexFormat) -> nat {
    match format {
        VertexFormat::Uint8
        | VertexFormat::Sint8
        | VertexFormat::Unorm8
        | VertexFormat::Snorm8 => 1,
        VertexFormat::Uint8x2
        | VertexFormat::Sint8x2
        | VertexFormat::Unorm8x2
        | VertexFormat::Snorm8x2
        | VertexFormat::Uint16
        | VertexFormat::Sint16
        | VertexFormat::Unorm16
        | VertexFormat::Snorm16
        | VertexFormat::Float16 => 2,
        VertexFormat::Uint8x4
        | VertexFormat::Sint8x4
        | VertexFormat::Unorm8x4
        | VertexFormat::Snorm8x4
        | VertexFormat::Uint16x2
        | VertexFormat::Sint16x2
        | VertexFormat::Unorm16x2
        | VertexFormat::Snorm16x2
        | VertexFormat::Float16x2
        | VertexFormat::Float32
        | VertexFormat::Uint32
        | VertexFormat::Sint32
        | VertexFormat::Unorm10_10_10_2
        | VertexFormat::Unorm8x4Bgra => 4,
        VertexFormat::Uint16x4
        | VertexFormat::Sint16x4
        | VertexFormat::Unorm16x4
        | VertexFormat::Snorm16x4
        | VertexFormat::Float16x4
        | VertexFormat::Float32x2
        | VertexFormat::Uint32x2
        | VertexFormat::Sint32x2
        | VertexFormat::Float64 => 8,
        VertexFormat::Float32x3
        | VertexFormat::Uint32x3
        | VertexFormat::Sint32x3 => 12,
        VertexFormat::Float32x4
        | VertexFormat::Uint32x4
        | VertexFormat::Sint32x4
        | VertexFormat::Float64x2 => 16,
        VertexFormat::Float64x3 => 24,
        VertexFormat::Float64x4 => 32,
    }
}

/// Number of components of a format, as its name gives it: two, three or four for the `x2`,
/// `x3` and `x4` formats, four for the packed ones, one otherwise
pub open spec fn component_count(format: VertexFormat) -> nat {
    match format {
        VertexFormat::Uint8
        | VertexFormat::Sint8
        | VertexFormat::Unorm8
        | VertexFormat::Snorm8
        | VertexFormat::Uint16
        | VertexFormat::Sint16
        | VertexFormat::Unorm16
        | VertexFormat::Snorm16
        | VertexFormat::Float16
        | VertexFormat::Float32
        | VertexFormat::Uint32
        | VertexFormat::Sint32
        | VertexFormat::Float64 => 1,
        VertexFormat::Uint8x2
        | VertexFormat::Sint8x2
        | VertexFormat::Unorm8x2
        | VertexFormat::Snorm8x2
        | VertexFormat::Uint16x2
        | VertexFormat::Sint16x2
        | VertexFormat::Unorm16x2
        | VertexFormat::Snorm16x2
        | VertexFormat::Float16x2
        | VertexFormat::Float32x2
        | VertexFormat::Uint32x2
        | VertexFormat::Sint32x2
        | VertexFormat::Float64x2 => 2,
        VertexFormat::Float32x3
        | VertexFormat::Uint32x3
        | VertexFormat::Sint32x3
        | VertexFormat::Float64x3 => 3,
        VertexFormat::Uint8x4
        | VertexFormat::Sint8x4
        | VertexFormat::Unorm8x4
        | VertexFormat::Snorm8x4
        | VertexFormat::Uint16x4
        | VertexFormat::Sint16x4
        | VertexFormat::Unorm16x4
        | VertexFormat::Snorm16x4
        | VertexFormat::Float16x4
        | VertexFormat::Float32x4
        | VertexFormat::Uint32x4
        | VertexFormat::Sint32x4
        | VertexFormat::Float64x4
        | VertexFormat::Unorm8x4Bgra
        | VertexFormat::Unorm10_10_10_2 => 4,
    }
}

/// Width in bits of each component of a format, as its name gives it (`8`, `16`, `32` or `64`);
/// the components of `Unorm10_10_10_2` differ in width, and are given by `packed_widths`
pub open spec fn component_width(format: VertexFormat) -> nat {
    match format {
        VertexFormat::Uint8
        | VertexFormat::Sint8
        | VertexFormat::Unorm8
        | VertexFormat::Snorm8
        | VertexFormat::Uint8x2
        | VertexFormat::Sint8x2
        | VertexFormat::Unorm8x2
        | VertexFormat::Snorm8x2
        | VertexFormat::Uint8x4
        | VertexFormat::Sint8x4
        | VertexFormat::Unorm8x4
        | VertexFormat::Snorm8x4
        | VertexFormat::Unorm8x4Bgra => 8,
        VertexFormat::Uint16
        | VertexFormat::Sint16
        | VertexFormat::Unorm16
        | VertexFormat::Snorm16
        | VertexFormat::Float16
        | VertexFormat::Uint16x2
        | VertexFormat::Sint16x2
        | VertexFormat::Unorm16x2
        | VertexFormat::Snorm16x2
        | VertexFormat::Float16x2
        | VertexFormat::Uint16x4
        | VertexFormat::Sint16x4
        | VertexFormat::Unorm16x4
        | VertexFormat::Snorm16x4
        | VertexFormat::Float16x4 => 16,
        VertexFormat::Float32
        | VertexFormat::Uint32
        | VertexFormat::Sint32
        | VertexFormat::Float32x2
        | VertexFormat::Float32x3
        | VertexFormat::Float32x4
        | VertexFormat::Uint32x2
        | VertexFormat::Uint32x3
        | VertexFormat::Uint32x4
        | VertexFormat::Sint32x2
        | VertexFormat::Sint32x3
        | VertexFormat::Sint32x4 => 32,
        VertexFormat::Float64
        | VertexFormat::Float64x2
        | VertexFormat::Float64x3
        | VertexFormat::Float64x4 => 64,
        VertexFormat::Unorm10_10_10_2 => 0,
    }
}

/// Widths in bits of the components of `Unorm10_10_10_2`: three of ten bits and one of two
pub open spec fn packed_widths() -> Seq<nat> {
    seq![10nat, 10, 10, 2]
}

/// A format takes as many bytes as its components take bits together, divided by eight: the
/// component count times the component width, or for `Unorm10_10_10_2` the sum of its
/// component widths.
pub proof fn format_size_is_its_components(format: VertexFormat)
    ensures
        format != VertexFormat::Unorm10_10_10_2 ==> 8 * format_size(format) == component_count(format)
            * component_width(format),
        format == VertexFormat::Unorm10_10_10_2 ==> 8 * format_size(format) == packed_widths()[0]
            + packed_widths()[1] + packed_widths()[2] + packed_widths()[3] && component_count(format)
            == packed_widths().len(),
{
    match format {
        VertexFormat::Uint8 => {},
        VertexFormat::Uint8x2 => {},
        VertexFormat::Uint8x4 => {},
        VertexFormat::Sint8 => {},
        VertexFormat::Sint8x2 => {},
        VertexFormat::Sint8x4 => {},
        VertexFormat::Unorm8 => {},
        VertexFormat::Unorm8x2 => {},
        VertexFormat::Unorm8x4 => {},
        VertexFormat::Snorm8 => {},
        VertexFormat::Snorm8x2 => {},
        VertexFormat::Snorm8x4 => {},
        VertexFormat::Uint16 => {},
        VertexFormat::Uint16x2 => {},
        VertexFormat::Uint16x4 => {},
        VertexFormat::Sint16 => {},
        VertexFormat::Sint16x2 => {},
        VertexFormat::Sint16x4 => {},
        VertexFormat::Unorm16 => {},
        VertexFormat::Unorm16x2 => {},
        VertexFormat::Unorm16x4 => {},
        VertexFormat::Snorm16 => {},
        VertexFormat::Snorm16x2 => {},
        VertexFormat::Snorm16x4 => {},
        VertexFormat::Float16 => {},
        VertexFormat::Float16x2 => {},
        VertexFormat::Float16x4 => {},
        VertexFormat::Float32 => {},
        VertexFormat::Float32x2 => {},
        VertexFormat::Float32x3 => {},
        VertexFormat::Float32x4 => {},
        VertexFormat::Uint32 => {},
        VertexFormat::Uint32x2 => {},
        VertexFormat::Uint32x3 => {},
        VertexFormat::Uint32x4 => {},
        VertexFormat::Sint32 => {},
        VertexFormat::Sint32x2 => {},
        VertexFormat::Sint32x3 => {},
        VertexFormat::Sint32x4 => {},
        VertexFormat::Float64 => {},
        VertexFormat::Float64x2 => {},
        VertexFormat::Float64x3 => {},
        VertexFormat::Float64x4 => {},
        VertexFormat::Unorm10_10_10_2 => {},
        VertexFormat::Unorm8x4Bgra => {},
    }
}

impl VertexFormat {
    /// Returns the byte size of the format.
    pub fn size(&self) -> (size: u64)
        ensures
        size == format_size(*self),
        1 <= size <= 32,
        *self != VertexFormat::Unorm10_10_10_2 ==> 8 * size == component_count(*self)
            * component_width(*self),
    {
        match self {
        VertexFormat::Uint8
        | VertexFormat::Sint8
        | VertexFormat::Unorm8
        | VertexFormat::Snorm8 => 1,
        VertexFormat::Uint8x2
        | VertexFormat::Sint8x2
        | VertexFormat::Unorm8x2
        | VertexFormat::Snorm8x2
        | VertexFormat::Uint16
        | VertexFormat::Sint16
        | VertexFormat::Unorm16
        | VertexFormat::Snorm16
        | VertexFormat::Float16 => 2,
        VertexFormat::Uint8x4
        | VertexFormat::Sint8x4
        | VertexFormat::Unorm8x4
        | VertexFormat::Snorm8x4
        | VertexFormat::Uint16x2
        | VertexFormat::Sint16x2
        | VertexFormat::Unorm16x2
        | VertexFormat::Snorm16x2
        | VertexFormat::Float16x2
        | VertexFormat::Float32
        | VertexFormat::Uint32
        | VertexFormat::Sint32
        | VertexFormat::Unorm10_10_10_2
        | VertexFormat::Unorm8x4Bgra => 4,
        VertexFormat::Uint16x4
        | VertexFormat::Sint16x4
        | VertexFormat::Unorm16x4
        | VertexFormat::Snorm16x4
        | VertexFormat::Float16x4
        | VertexFormat::Float32x2
        | VertexFormat::Uint32x2
        | VertexFormat::Sint32x2
        | VertexFormat::Float64 => 8,
        VertexFormat::Float32x3
        | VertexFormat::Uint32x3
        | VertexFormat::Sint32x3 => 12,
        VertexFormat::Float32x4
        | VertexFormat::Uint32x4
        | VertexFormat::Sint32x4
        | VertexFormat::Float64x2 => 16,
        VertexFormat::Float64x3 => 24,
        VertexFormat::Float64x4 => 32,
        }
    }
}

/// How a vertex buffer is stepped through
#[derive(Clone, Copy, Debug, PartialEq, Eq, Structural)]
pub enum VertexStepMode {
    Vertex,
    Instance,
}

/// One attribute of a vertex buffer layout
#[derive(Clone, Copy, Debug, PartialEq, Eq, Structural)]
pub struct VertexAttribute {
    pub format: VertexFormat,
    pub offset: u64,
    pub shader_location: u32,
}

#[derive(Debug)]
pub struct VertexBufferLayout {
    pub array_stride: u64,
    pub step_mode: VertexStepMode,
    pub attributes: Vec<VertexAttribute>,
}

/// Total byte size of the formats, one after the other
pub open spec fn formats_size(formats: Seq<VertexFormat>) -> nat
    decreases formats.len(),
{
    if formats.len() == 0 {
        0
    } else {
        formats_size(formats.drop_last()) + format_size(formats.last())
    }
}

/// `layout` holds the formats densely packed, in order, at shader locations 0, 1, ...
pub open spec fn is_dense_layout(
    layout: VertexBufferLayout,
    step_mode: VertexStepMode,
    formats: Seq<VertexFormat>,
) -> bool {
    &&& layout.step_mode == step_mode
    &&& layout.array_stride == formats_size(formats)
    &&& layout.attributes@.len() == formats.len()
    &&& forall|i: int|
        0 <= i < formats.len() ==> #[trigger] layout.attributes@[i] == (VertexAttribute {
            format: formats[i],
            offset: formats_size(formats.take(i)) as u64,
            shader_location: i as u32,
        })
}

proof fn lemma_formats_size_bound(formats: Seq<VertexFormat>)
    ensures
        formats_size(formats) <= 32 * formats.len(),
    decreases formats.len(),
{
    if formats.len() > 0 {
        lemma_formats_size_bound(formats.drop_last());
    }
}

impl VertexBufferLayout {
    /// Create densly packed layout from vertex formats
    pub fn from_vertex_formats(step_mode: VertexStepMode, formats: Vec<VertexFormat>) -> (layout:
        Self)
        requires
            formats@.len() <= u32::MAX,
        ensures
            is_dense_layout(layout, step_mode, formats@),
    {
        let mut offset: u64 = 0;
        let mut attributes: Vec<VertexAttribute> = Vec::new();
        let n = formats.len();
        let mut i: usize = 0;
        while i < n
            invariant
                n == formats@.len(),
                n <= u32::MAX,
                i <= n,
                attributes@.len() == i,
                offset == formats_size(formats@.take(i as int)),
                offset <= 32 * i,
                forall|j: int|
                    0 <= j < i ==> #[trigger] attributes@[j] == (VertexAttribute {
                        format: formats@[j],
                        offset: formats_size(formats@.take(j)) as u64,
                        shader_location: j as u32,
                    }),
            decreases n - i,
        {
            let format = formats[i];
            attributes.push(VertexAttribute { format, offset, shader_location: i as u32 });
            assert(formats@.take(i + 1).drop_last() =~= formats@.take(i as int));
            offset = offset + format.size();
            i = i + 1;
        }
        assert(formats@.take(n as int) =~= formats@);
        VertexBufferLayout { array_stride: offset, step_mode, attributes }
    }
}

/// Number of attributes in the first `count` buffers
pub open spec fn attributes_before(buffers: Seq<VertexBufferLayout>, count: int) -> nat
    decreases count,
{
    if count <= 0 {
        0
    } else {
        attributes_before(buffers, count - 1) + buffers[count - 1].attributes@.len()
    }
}

/// `relocated` is `buffers` with the shader locations of each buffer moved past those of the
/// buffers before it.
pub open spec fn is_relocated(
    buffers: Seq<VertexBufferLayout>,
    relocated: Seq<VertexBufferLayout>,
) -> bool {
    &&& relocated.len() == buffers.len()
    &&& forall|b: int|
        0 <= b < buffers.len() ==> {
            &&& (#[trigger] relocated[b]).array_stride == buffers[b].array_stride
            &&& relocated[b].step_mode == buffers[b].step_mode
            &&& relocated[b].attributes@.len() == buffers[b].attributes@.len()
            &&& forall|k: int|
                0 <= k < buffers[b].attributes@.len() ==> #[trigger] relocated[b].attributes@[k]
                    == (VertexAttribute {
                    shader_location: (buffers[b].attributes@[k].shader_location
                        + attributes_before(buffers, b)) as u32,
                    ..buffers[b].attributes@[k]
                })
        }
}

/// The relocated shader locations fit in `u32`.
pub open spec fn relocation_fits(buffers: Seq<VertexBufferLayout>) -> bool {
    &&& attributes_before(buffers, buffers.len() as int) <= u32::MAX
    &&& forall|b: int, k: int|
        0 <= b < buffers.len() && 0 <= k < buffers[b].attributes@.len() ==>
            #[trigger] buffers[b].attributes@[k].shader_location + attributes_before(buffers, b)
            <= u32::MAX
}

proof fn lemma_attributes_before_monotonic(buffers: Seq<VertexBufferLayout>, i: int, j: int)
    requires
        0 <= i <= j,
    ensures
        attributes_before(buffers, i) <= attributes_before(buffers, j),
    decreases j - i,
{
    if i < j {
        lemma_attributes_before_monotonic(buffers, i, j - 1);
    }
}

/// Copies vertex buffer layouts so that the attributes of all of them take consecutive
/// shader locations: the locations of a buffer are offset by the number of attributes in
/// the buffers before it, as a render pipeline is built.
pub fn sequential_shader_locations(buffers: &Vec<VertexBufferLayout>) -> (relocated: Vec<
    VertexBufferLayout,
>)
    requires
        relocation_fits(buffers@),
    ensures
        is_relocated(buffers@, relocated@),
{
    let mut location: u32 = 0;
    let mut result: Vec<VertexBufferLayout> = Vec::with_capacity(buffers.len());
    let mut b: usize = 0;
    while b < buffers.len()
        invariant
            b <= buffers@.len(),
            relocation_fits(buffers@),
            location == attributes_before(buffers@, b as int),
            result@.len() == b,
            forall|c: int|
                0 <= c < b ==> {
                    &&& (#[trigger] result@[c]).array_stride == buffers@[c].array_stride
                    &&& result@[c].step_mode == buffers@[c].step_mode
                    &&& result@[c].attributes@.len() == buffers@[c].attributes@.len()
                    &&& forall|k: int|
                        0 <= k < buffers@[c].attributes@.len() ==> #[trigger] result@[c].attributes@[k]
                            == (VertexAttribute {
                            shader_location: (buffers@[c].attributes@[k].shader_location
                                + attributes_before(buffers@, c)) as u32,
                            ..buffers@[c].attributes@[k]
                        })
                },
        decreases buffers@.len() - b,
    {
        let buf = &buffers[b];
        let mut attributes: Vec<VertexAttribute> = Vec::with_capacity(buf.attributes.len());
        let mut k: usize = 0;
        while k < buf.attributes.len()
            invariant
                b < buffers@.len(),
                *buf == buffers@[b as int],
                relocation_fits(buffers@),
                location == attributes_before(buffers@, b as int),
                k <= buf.attributes@.len(),
                attributes@.len() == k,
                forall|j: int|
                    0 <= j < k ==> #[trigger] attributes@[j] == (VertexAttribute {
                        shader_location: (buf.attributes@[j].shader_location + location) as u32,
                        ..buf.attributes@[j]
                    }),
            decreases buf.attributes@.len() - k,
        {
            let attr = buf.attributes[k];
            assert(attr.shader_location + attributes_before(buffers@, b as int) <= u32::MAX) by {
                assert(buffers@[b as int].attributes@[k as int] == attr);
            }
            attributes.push(
                VertexAttribute {
                    format: attr.format,
                    offset: attr.offset,
                    shader_location: attr.shader_location + location,
                },
            );
            k = k + 1;
        }
        proof {
            lemma_attributes_before_monotonic(buffers@, b + 1, buffers@.len() as int);
        }
        location = location + buf.attributes.len() as u32;
        result.push(
            VertexBufferLayout {
                array_stride: buf.array_stride,
                step_mode: buf.step_mode,
                attributes,
            },
        );
        b = b + 1;
    }
    result
}

} // verus!
