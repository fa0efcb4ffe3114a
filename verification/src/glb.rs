//! Reading meshes, materials and the node hierarchy of binary glTF files.
//!
//! Float values of the file (positions, factors, transforms) are carried as their
//! IEEE 754 bit patterns.
use crate::mesh::{F_ONE, F_ZERO};
use crate::resources::{TextureFormat, TextureSource};
use vstd::prelude::*;
use vstd::slice::{slice_subrange, slice_to_vec};

verus! {

/// What went wrong while reading a binary glTF file
#[derive(Clone, Copy, Debug, PartialEq, Eq, Structural)]
pub enum GlbError {
    /// The bytes are not a binary glTF container
    InvalidContainer,
    /// The JSON chunk is not a valid glTF document
    InvalidDocument,
    /// The container has no binary chunk
    MissingBinaryChunk,
    /// A primitive has no index accessor
    MissingIndices,
    /// An accessor has no buffer view
    SparseAccessor,
    /// The indices are not scalars of `u8`, `u16` or `u32`
    UnsupportedIndexFormat,
    /// An accessor or a buffer view reaches past the end of the binary chunk
    OutOfBounds,
    /// The bytes of an accessor are not aligned for its component type
    Misaligned,
    /// A primitive lacks positions, normals, tangents or texture coordinates
    MissingAttribute,
    /// A primitive has more normals, tangents or texture coordinates than positions
    AttributeCountMismatch,
    /// A node refers to a node that does not exist
    InvalidNode,
    /// The node hierarchy is nested deeper than it has nodes: it has a cycle
    CyclicHierarchy,
}

/// Type of the components of an accessor
#[derive(Clone, Copy, Debug, PartialEq, Eq, Structural)]
pub enum ComponentType {
    I8,
    U8,
    I16,
    U16,
    U32,
    F32,
}

/// Shape of the elements of an accessor
#[derive(Clone, Copy, Debug, PartialEq, Eq, Structural)]
pub enum AccessorDimensions {
    Scalar,
    Vec2,
    Vec3,
    Vec4,
    Mat2,
    Mat3,
    Mat4,
}

/// Bytes of one component
pub open spec fn component_size(component: ComponentType) -> nat {
    match component {
        ComponentType::I8 => 1,
        ComponentType::U8 => 1,
        ComponentType::I16 => 2,
        ComponentType::U16 => 2,
        ComponentType::U32 => 4,
        ComponentType::F32 => 4,
    }
}

/// Components of one element
pub open spec fn multiplicity(dimensions: AccessorDimensions) -> nat {
    match dimensions {
        AccessorDimensions::Scalar => 1,
        AccessorDimensions::Vec2 => 2,
        AccessorDimensions::Vec3 => 3,
        AccessorDimensions::Vec4 => 4,
        AccessorDimensions::Mat2 => 4,
        AccessorDimensions::Mat3 => 9,
        AccessorDimensions::Mat4 => 16,
    }
}

/// A range of bytes of the binary chunk
#[derive(Clone, Copy, Debug, PartialEq, Eq, Structural)]
pub struct BufferViewRange {
    pub offset: usize,
    pub length: usize,
}

/// Where an accessor reads its elements from and what they are
#[derive(Clone, Copy, Debug, PartialEq, Eq, Structural)]
pub struct AccessorInfo {
    /// Buffer view of the accessor; `None` for a sparse accessor
    pub view: Option<BufferViewRange>,
    /// Offset of the first element within the buffer view
    pub offset: usize,
    /// Number of elements
    pub count: usize,
    pub component: ComponentType,
    pub dimensions: AccessorDimensions,
}

/// Bytes of one element of the accessor
pub open spec fn element_bytes(acc: AccessorInfo) -> nat {
    component_size(acc.component) * multiplicity(acc.dimensions)
}

/// First byte of the accessor in the binary chunk
pub open spec fn accessor_start(acc: AccessorInfo) -> int {
    acc.view->Some_0.offset + acc.offset
}

/// Number of bytes of the accessor
pub open spec fn accessor_len(acc: AccessorInfo) -> int {
    acc.count * element_bytes(acc)
}

/// The accessor has a buffer view and lies within a chunk of `buffer_len` bytes
pub open spec fn accessor_in_bounds(acc: AccessorInfo, buffer_len: int) -> bool {
    &&& acc.view is Some
    &&& accessor_start(acc) + accessor_len(acc) <= buffer_len
}

/// The bytes that an accessor reads
pub open spec fn accessor_bytes_of(buffer: Seq<u8>, acc: AccessorInfo) -> Seq<u8> {
    buffer.subrange(accessor_start(acc), accessor_start(acc) + accessor_len(acc))
}

fn element_size(acc: &AccessorInfo) -> (size: usize)
    ensures
        size == element_bytes(*acc),
{
    let component: usize = match acc.component {
        ComponentType::I8 => 1,
        ComponentType::U8 => 1,
        ComponentType::I16 => 2,
        ComponentType::U16 => 2,
        ComponentType::U32 => 4,
        ComponentType::F32 => 4,
    };
    let dims: usize = match acc.dimensions {
        AccessorDimensions::Scalar => 1,
        AccessorDimensions::Vec2 => 2,
        AccessorDimensions::Vec3 => 3,
        AccessorDimensions::Vec4 => 4,
        AccessorDimensions::Mat2 => 4,
        AccessorDimensions::Mat3 => 9,
        AccessorDimensions::Mat4 => 16,
    };
    component * dims
}

/// The bytes of the binary chunk that an accessor reads
pub fn accessor_bytes<'a>(buffer: &'a [u8], acc: &AccessorInfo) -> (r: Result<&'a [u8], GlbError>)
    ensures
        acc.view is None ==> r == Err::<&'a [u8], GlbError>(GlbError::SparseAccessor),
        acc.view is Some && !accessor_in_bounds(*acc, buffer@.len() as int) ==> r == Err::<
            &'a [u8],
            GlbError,
        >(GlbError::OutOfBounds),
        accessor_in_bounds(*acc, buffer@.len() as int) ==> r is Ok && r->Ok_0@ == accessor_bytes_of(
            buffer@,
            *acc,
        ),
{
    let view = match acc.view {
        None => return Err(GlbError::SparseAccessor),
        Some(view) => view,
    };
    let size = element_size(acc);
    let buffer_len = buffer.len();
    proof {
        assert(accessor_len(*acc) >= 0) by (nonlinear_arith)
            requires
                accessor_len(*acc) == acc.count * size,
        ;
    }
    let start = match view.offset.checked_add(acc.offset) {
        None => return Err(GlbError::OutOfBounds),
        Some(start) => start,
    };
    let len = match acc.count.checked_mul(size) {
        None => return Err(GlbError::OutOfBounds),
        Some(len) => len,
    };
    let end = match start.checked_add(len) {
        None => return Err(GlbError::OutOfBounds),
        Some(end) => end,
    };
    if end > buffer_len {
        return Err(GlbError::OutOfBounds);
    }
    Ok(slice_subrange(buffer, start, end))
}

/// The `u16` of two bytes: the first is the low byte where `little`, else the high byte
pub open spec fn half_of(b0: u8, b1: u8, little: bool) -> u16 {
    if little {
        (b0 + 256 * b1) as u16
    } else {
        (b1 + 256 * b0) as u16
    }
}

/// The `u16`s of bytes, two bytes each, all in one byte order
pub open spec fn halves_of(bytes: Seq<u8>, little: bool) -> Seq<u16> {
    Seq::new(bytes.len() / 2, |i: int| half_of(bytes[2 * i], bytes[2 * i + 1], little))
}

/// The `u32` of four bytes: the first is the lowest byte where `little`, else the highest
pub open spec fn word_of(b0: u8, b1: u8, b2: u8, b3: u8, little: bool) -> u32 {
    if little {
        (b0 + 256 * b1 + 65536 * b2 + 16777216 * b3) as u32
    } else {
        (b3 + 256 * b2 + 65536 * b1 + 16777216 * b0) as u32
    }
}

/// The `u32`s of bytes, four bytes each, all in one byte order
pub open spec fn words_of(bytes: Seq<u8>, little: bool) -> Seq<u32> {
    Seq::new(
        bytes.len() / 4,
        |i: int| word_of(bytes[4 * i], bytes[4 * i + 1], bytes[4 * i + 2], bytes[4 * i + 3], little),
    )
}

/// `bytemuck::try_cast_slice` from bytes to `u16`: the bytes viewed as `u16`s, each in the byte
/// order of the machine, which is little or big endian; `None` where the bytes are not aligned
/// for `u16` or their number is odd. Alignment depends on where the bytes lie in memory, so
/// when the result is `None` is not stated.
#[verifier::external_body]
fn cast_to_halves(bytes: &[u8]) -> (r: Option<&[u16]>)
    ensures
        r is Some ==> r->Some_0@.len() * 2 == bytes@.len(),
        r is Some ==> r->Some_0@ == halves_of(bytes@, true) || r->Some_0@ == halves_of(bytes@, false),
{
    bytemuck::try_cast_slice(bytes).ok()
}

/// `bytemuck::try_cast_slice` from bytes to `u32`: the bytes viewed as `u32`s, each in the byte
/// order of the machine, which is little or big endian; `None` where the bytes are not aligned
/// for `u32` or their number is not a multiple of four. Alignment depends on where the bytes lie
/// in memory, so when the result is `None` is not stated.
#[verifier::external_body]
fn cast_to_words(bytes: &[u8]) -> (r: Option<&[u32]>)
    ensures
        r is Some ==> r->Some_0@.len() * 4 == bytes@.len(),
        r is Some ==> r->Some_0@ == words_of(bytes@, true) || r->Some_0@ == words_of(bytes@, false),
{
    bytemuck::try_cast_slice(bytes).ok()
}

/// The indices that bytes hold as components of a type, all in one byte order
pub open spec fn index_values(bytes: Seq<u8>, component: ComponentType, little: bool) -> Seq<u32> {
    match component {
        ComponentType::U8 => bytes.map_values(|b: u8| b as u32),
        ComponentType::U16 => halves_of(bytes, little).map_values(|h: u16| h as u32),
        _ => words_of(bytes, little),
    }
}

/// Indices are read from scalars of `u8`, `u16` or `u32`
pub open spec fn index_format_supported(acc: AccessorInfo) -> bool {
    &&& acc.dimensions == AccessorDimensions::Scalar
    &&& (acc.component == ComponentType::U8 || acc.component == ComponentType::U16
        || acc.component == ComponentType::U32)
}

/// The error that reading the indices of an accessor stops at, if any, other than misaligned
/// bytes
pub open spec fn index_error(buffer_len: int, acc: AccessorInfo) -> Option<GlbError> {
    if acc.view is None {
        Some(GlbError::SparseAccessor)
    } else if !index_format_supported(acc) {
        Some(GlbError::UnsupportedIndexFormat)
    } else if !accessor_in_bounds(acc, buffer_len) {
        Some(GlbError::OutOfBounds)
    } else {
        None
    }
}

/// Each byte as an index
pub fn widen_u8_indices(values: &[u8]) -> (indices: Vec<u32>)
    ensures
        indices@.len() == values@.len(),
        forall|i: int| 0 <= i < values@.len() ==> indices@[i] == values@[i] as u32,
{
    let mut indices: Vec<u32> = Vec::new();
    let mut i: usize = 0;
    while i < values.len()
        invariant
            i <= values@.len(),
            indices@.len() == i,
            forall|j: int| 0 <= j < i ==> indices@[j] == values@[j] as u32,
        decreases values@.len() - i,
    {
        indices.push(values[i] as u32);
        i += 1;
    }
    indices
}

/// Each `u16` as an index
pub fn widen_u16_indices(values: &[u16]) -> (indices: Vec<u32>)
    ensures
        indices@.len() == values@.len(),
        forall|i: int| 0 <= i < values@.len() ==> indices@[i] == values@[i] as u32,
{
    let mut indices: Vec<u32> = Vec::new();
    let mut i: usize = 0;
    while i < values.len()
        invariant
            i <= values@.len(),
            indices@.len() == i,
            forall|j: int| 0 <= j < i ==> indices@[j] == values@[j] as u32,
        decreases values@.len() - i,
    {
        indices.push(values[i] as u32);
        i += 1;
    }
    indices
}

/// The indices that an index accessor holds, widened to `u32`
pub fn decode_indices(buffer: &[u8], acc: &AccessorInfo) -> (r: Result<Vec<u32>, GlbError>)
    ensures
        index_error(buffer@.len() as int, *acc) is Some ==> r == Err::<Vec<u32>, GlbError>(
            index_error(buffer@.len() as int, *acc)->Some_0,
        ),
        index_error(buffer@.len() as int, *acc) is None ==> {
            ||| r is Ok && r->Ok_0@.len() == acc.count && (acc.component == ComponentType::U8
                ==> forall|i: int|
                0 <= i < acc.count ==> r->Ok_0@[i] == accessor_bytes_of(buffer@, *acc)[i] as u32)
            ||| acc.component != ComponentType::U8 && r == Err::<Vec<u32>, GlbError>(
                GlbError::Misaligned,
            )
        },
        r is Ok ==> r->Ok_0@ == index_values(accessor_bytes_of(buffer@, *acc), acc.component, true)
            || r->Ok_0@ == index_values(accessor_bytes_of(buffer@, *acc), acc.component, false),
{
    if acc.view.is_none() {
        return Err(GlbError::SparseAccessor);
    }
    let supported = match (acc.component, acc.dimensions) {
        (ComponentType::U8, AccessorDimensions::Scalar) => true,
        (ComponentType::U16, AccessorDimensions::Scalar) => true,
        (ComponentType::U32, AccessorDimensions::Scalar) => true,
        _ => false,
    };
    if !supported {
        return Err(GlbError::UnsupportedIndexFormat);
    }
    let bytes = match accessor_bytes(buffer, acc) {
        Err(e) => return Err(e),
        Ok(bytes) => bytes,
    };
    match acc.component {
        ComponentType::U8 => {
            assert(accessor_len(*acc) == acc.count) by (nonlinear_arith)
                requires
                    accessor_len(*acc) == acc.count * element_bytes(*acc),
                    element_bytes(*acc) == 1,
            ;
            Ok(widen_u8_indices(bytes))
        },
        ComponentType::U16 => match cast_to_halves(bytes) {
            None => Err(GlbError::Misaligned),
            Some(values) => {
                assert(values@.len() == acc.count) by (nonlinear_arith)
                    requires
                        values@.len() * 2 == acc.count * element_bytes(*acc),
                        element_bytes(*acc) == 2,
                ;
                Ok(widen_u16_indices(values))
            },
        },
        _ => match cast_to_words(bytes) {
            None => Err(GlbError::Misaligned),
            Some(values) => {
                assert(values@.len() == acc.count) by (nonlinear_arith)
                    requires
                        values@.len() * 4 == acc.count * element_bytes(*acc),
                        element_bytes(*acc) == 4,
                ;
                Ok(slice_to_vec(values))
            },
        },
    }
}

/// Meaning of a vertex attribute of a primitive
#[derive(Clone, Copy, Debug, PartialEq, Eq, Structural)]
pub enum AttributeSemantic {
    Positions,
    Normals,
    Tangents,
    Colors(u32),
    TexCoords(u32),
    Joints(u32),
    Weights(u32),
}

/// What the mesh reader takes an attribute for
#[derive(Clone, Copy, Debug, PartialEq, Eq, Structural)]
pub enum AttributeUse {
    Position,
    Normal,
    Tangent,
    /// Read, and not kept
    Color,
    Uv,
    /// Not read
    Skipped,
}

/// Attributes are read where they are `f32` vectors of the expected size; of the texture
/// coordinates only the first set is read
pub open spec fn attribute_use(semantic: AttributeSemantic, acc: AccessorInfo) -> AttributeUse {
    let f32_vec = |d: AccessorDimensions|
        acc.component == ComponentType::F32 && acc.dimensions == d;
    match semantic {
        AttributeSemantic::Positions => if f32_vec(AccessorDimensions::Vec3) {
            AttributeUse::Position
        } else {
            AttributeUse::Skipped
        },
        AttributeSemantic::Normals => if f32_vec(AccessorDimensions::Vec3) {
            AttributeUse::Normal
        } else {
            AttributeUse::Skipped
        },
        AttributeSemantic::Tangents => if f32_vec(AccessorDimensions::Vec4) {
            AttributeUse::Tangent
        } else {
            AttributeUse::Skipped
        },
        AttributeSemantic::Colors(_) => if f32_vec(AccessorDimensions::Vec3) {
            AttributeUse::Color
        } else {
            AttributeUse::Skipped
        },
        AttributeSemantic::TexCoords(set) => if f32_vec(AccessorDimensions::Vec2) && set == 0 {
            AttributeUse::Uv
        } else {
            AttributeUse::Skipped
        },
        _ => AttributeUse::Skipped,
    }
}

fn use_of(semantic: AttributeSemantic, acc: &AccessorInfo) -> (u: AttributeUse)
    ensures
        u == attribute_use(semantic, *acc),
{
    let is_f32 = match acc.component {
        ComponentType::F32 => true,
        _ => false,
    };
    if !is_f32 {
        return AttributeUse::Skipped;
    }
    match (semantic, acc.dimensions) {
        (AttributeSemantic::Positions, AccessorDimensions::Vec3) => AttributeUse::Position,
        (AttributeSemantic::Normals, AccessorDimensions::Vec3) => AttributeUse::Normal,
        (AttributeSemantic::Tangents, AccessorDimensions::Vec4) => AttributeUse::Tangent,
        (AttributeSemantic::Colors(_), AccessorDimensions::Vec3) => AttributeUse::Color,
        (AttributeSemantic::TexCoords(set), AccessorDimensions::Vec2) => if set == 0 {
            AttributeUse::Uv
        } else {
            AttributeUse::Skipped
        },
        _ => AttributeUse::Skipped,
    }
}

/// The error that reading one attribute stops at, if any, other than misaligned bytes
pub open spec fn attribute_error(
    buffer_len: int,
    attribute: (AttributeSemantic, AccessorInfo),
) -> Option<GlbError> {
    if attribute.1.view is None {
        Some(GlbError::SparseAccessor)
    } else if attribute_use(attribute.0, attribute.1) != AttributeUse::Skipped
        && !accessor_in_bounds(attribute.1, buffer_len) {
        Some(GlbError::OutOfBounds)
    } else {
        None
    }
}

/// The first error among the attributes, in their order
pub open spec fn attributes_error(
    buffer_len: int,
    attributes: Seq<(AttributeSemantic, AccessorInfo)>,
) -> Option<GlbError>
    decreases attributes.len(),
{
    if attributes.len() == 0 {
        None
    } else {
        match attributes_error(buffer_len, attributes.drop_last()) {
            Some(e) => Some(e),
            None => attribute_error(buffer_len, attributes.last()),
        }
    }
}

/// Number of elements that the attributes taken for `u` hold together
pub open spec fn use_count(attributes: Seq<(AttributeSemantic, AccessorInfo)>, u: AttributeUse) -> nat
    decreases attributes.len(),
{
    if attributes.len() == 0 {
        0
    } else {
        use_count(attributes.drop_last(), u) + if attribute_use(
            attributes.last().0,
            attributes.last().1,
        ) == u {
            attributes.last().1.count as nat
        } else {
            0
        }
    }
}

proof fn lemma_attributes_error_prefix(
    buffer_len: int,
    attributes: Seq<(AttributeSemantic, AccessorInfo)>,
    k: int,
)
    requires
        0 <= k <= attributes.len(),
        attributes_error(buffer_len, attributes.take(k)) is Some,
    ensures
        attributes_error(buffer_len, attributes) == attributes_error(buffer_len, attributes.take(k)),
    decreases attributes.len() - k,
{
    if k < attributes.len() {
        assert(attributes.take(k + 1).drop_last() == attributes.take(k));
        lemma_attributes_error_prefix(buffer_len, attributes, k + 1);
    } else {
        assert(attributes.take(k) == attributes);
    }
}

/// The components that the attributes taken for `u` give, one attribute after the other, the
/// words of attribute `k` read in byte order `orders[k]` (little endian where it is `true`)
pub open spec fn use_words(
    buffer: Seq<u8>,
    attributes: Seq<(AttributeSemantic, AccessorInfo)>,
    u: AttributeUse,
    orders: Seq<bool>,
) -> Seq<u32>
    decreases attributes.len(),
{
    if attributes.len() == 0 {
        Seq::empty()
    } else {
        use_words(buffer, attributes.drop_last(), u, orders) + if attribute_use(
            attributes.last().0,
            attributes.last().1,
        ) == u {
            words_of(accessor_bytes_of(buffer, attributes.last().1), orders[attributes.len() - 1])
        } else {
            Seq::empty()
        }
    }
}

proof fn lemma_use_words_orders(
    buffer: Seq<u8>,
    attributes: Seq<(AttributeSemantic, AccessorInfo)>,
    u: AttributeUse,
    orders: Seq<bool>,
    more: Seq<bool>,
)
    requires
        orders.len() >= attributes.len(),
        more.len() >= attributes.len(),
        forall|i: int| 0 <= i < attributes.len() ==> orders[i] == more[i],
    ensures
        use_words(buffer, attributes, u, orders) == use_words(buffer, attributes, u, more),
    decreases attributes.len(),
{
    if attributes.len() > 0 {
        lemma_use_words_orders(buffer, attributes.drop_last(), u, orders, more);
    }
}

/// An attribute appended to a list leaves a use's count and components as they were where it
/// is not taken for that use
proof fn lemma_use_unchanged(
    buffer: Seq<u8>,
    attributes: Seq<(AttributeSemantic, AccessorInfo)>,
    a: (AttributeSemantic, AccessorInfo),
    u: AttributeUse,
    orders: Seq<bool>,
)
    requires
        attribute_use(a.0, a.1) != u,
    ensures
        use_count(attributes.push(a), u) == use_count(attributes, u),
        use_words(buffer, attributes.push(a), u, orders) == use_words(buffer, attributes, u, orders),
{
    assert(attributes.push(a).drop_last() == attributes);
    let w = use_words(buffer, attributes, u, orders);
    assert(w + Seq::<u32>::empty() == w);
}

/// Each use is fed by attributes of its own semantic only: an attribute of another semantic,
/// appended to a primitive's attributes, changes neither how many positions, normals, tangents
/// or texture coordinates are read nor what they are.
pub proof fn uses_come_from_their_own_semantics(
    buffer: Seq<u8>,
    attributes: Seq<(AttributeSemantic, AccessorInfo)>,
    a: (AttributeSemantic, AccessorInfo),
    orders: Seq<bool>,
)
    ensures
        a.0 != AttributeSemantic::Positions ==> use_count(attributes.push(a), AttributeUse::Position)
            == use_count(attributes, AttributeUse::Position) && use_words(
            buffer,
            attributes.push(a),
            AttributeUse::Position,
            orders,
        ) == use_words(buffer, attributes, AttributeUse::Position, orders),
        a.0 != AttributeSemantic::Normals ==> use_count(attributes.push(a), AttributeUse::Normal)
            == use_count(attributes, AttributeUse::Normal) && use_words(
            buffer,
            attributes.push(a),
            AttributeUse::Normal,
            orders,
        ) == use_words(buffer, attributes, AttributeUse::Normal, orders),
        a.0 != AttributeSemantic::Tangents ==> use_count(attributes.push(a), AttributeUse::Tangent)
            == use_count(attributes, AttributeUse::Tangent) && use_words(
            buffer,
            attributes.push(a),
            AttributeUse::Tangent,
            orders,
        ) == use_words(buffer, attributes, AttributeUse::Tangent, orders),
        a.0 != AttributeSemantic::TexCoords(0) ==> use_count(attributes.push(a), AttributeUse::Uv)
            == use_count(attributes, AttributeUse::Uv) && use_words(
            buffer,
            attributes.push(a),
            AttributeUse::Uv,
            orders,
        ) == use_words(buffer, attributes, AttributeUse::Uv, orders),
{
    if a.0 != AttributeSemantic::Positions {
        lemma_use_unchanged(buffer, attributes, a, AttributeUse::Position, orders);
    }
    if a.0 != AttributeSemantic::Normals {
        lemma_use_unchanged(buffer, attributes, a, AttributeUse::Normal, orders);
    }
    if a.0 != AttributeSemantic::Tangents {
        lemma_use_unchanged(buffer, attributes, a, AttributeUse::Tangent, orders);
    }
    if a.0 != AttributeSemantic::TexCoords(0) {
        lemma_use_unchanged(buffer, attributes, a, AttributeUse::Uv, orders);
    }
}

/// An attribute of a use's own semantic feeds that use where it is an `f32` vector of the size
/// that glTF gives the semantic (three components for positions and normals, four for tangents,
/// two for texture coordinates), and then with all its elements, after those read before it;
/// of another size it feeds nothing.
pub proof fn attributes_feed_their_own_use(
    buffer: Seq<u8>,
    attributes: Seq<(AttributeSemantic, AccessorInfo)>,
    a: (AttributeSemantic, AccessorInfo),
    orders: Seq<bool>,
)
    ensures
        a.0 == AttributeSemantic::Positions && a.1.component == ComponentType::F32 && a.1.dimensions
            == AccessorDimensions::Vec3 ==> use_count(attributes.push(a), AttributeUse::Position) == use_count(
            attributes,
            AttributeUse::Position,
        ) + a.1.count && use_words(buffer, attributes.push(a), AttributeUse::Position, orders) == use_words(
            buffer,
            attributes,
            AttributeUse::Position,
            orders,
        ) + words_of(accessor_bytes_of(buffer, a.1), orders[attributes.len() as int]),
        a.0 == AttributeSemantic::Positions && !(a.1.component == ComponentType::F32 && a.1.dimensions
            == AccessorDimensions::Vec3) ==> use_count(attributes.push(a), AttributeUse::Position)
            == use_count(attributes, AttributeUse::Position),
        a.0 == AttributeSemantic::Normals && a.1.component == ComponentType::F32 && a.1.dimensions
            == AccessorDimensions::Vec3 ==> use_count(attributes.push(a), AttributeUse::Normal) == use_count(
            attributes,
            AttributeUse::Normal,
        ) + a.1.count && use_words(buffer, attributes.push(a), AttributeUse::Normal, orders) == use_words(
            buffer,
            attributes,
            AttributeUse::Normal,
            orders,
        ) + words_of(accessor_bytes_of(buffer, a.1), orders[attributes.len() as int]),
        a.0 == AttributeSemantic::Normals && !(a.1.component == ComponentType::F32 && a.1.dimensions
            == AccessorDimensions::Vec3) ==> use_count(attributes.push(a), AttributeUse::Normal)
            == use_count(attributes, AttributeUse::Normal),
        a.0 == AttributeSemantic::Tangents && a.1.component == ComponentType::F32 && a.1.dimensions
            == AccessorDimensions::Vec4 ==> use_count(attributes.push(a), AttributeUse::Tangent) == use_count(
            attributes,
            AttributeUse::Tangent,
        ) + a.1.count && use_words(buffer, attributes.push(a), AttributeUse::Tangent, orders) == use_words(
            buffer,
            attributes,
            AttributeUse::Tangent,
            orders,
        ) + words_of(accessor_bytes_of(buffer, a.1), orders[attributes.len() as int]),
        a.0 == AttributeSemantic::Tangents && !(a.1.component == ComponentType::F32 && a.1.dimensions
            == AccessorDimensions::Vec4) ==> use_count(attributes.push(a), AttributeUse::Tangent)
            == use_count(attributes, AttributeUse::Tangent),
        a.0 == AttributeSemantic::TexCoords(0) && a.1.component == ComponentType::F32 && a.1.dimensions
            == AccessorDimensions::Vec2 ==> use_count(attributes.push(a), AttributeUse::Uv) == use_count(
            attributes,
            AttributeUse::Uv,
        ) + a.1.count && use_words(buffer, attributes.push(a), AttributeUse::Uv, orders) == use_words(
            buffer,
            attributes,
            AttributeUse::Uv,
            orders,
        ) + words_of(accessor_bytes_of(buffer, a.1), orders[attributes.len() as int]),
        a.0 == AttributeSemantic::TexCoords(0) && !(a.1.component == ComponentType::F32 && a.1.dimensions
            == AccessorDimensions::Vec2) ==> use_count(attributes.push(a), AttributeUse::Uv)
            == use_count(attributes, AttributeUse::Uv),
{
    assert(attributes.push(a).drop_last() == attributes);
    assert(attributes.push(a).last() == a);
}

/// A colour attribute whose accessor lies in the buffer is read and dropped: appended to a
/// primitive's attributes, it changes neither the error that reading the primitive stops at,
/// nor whether there is one, nor the positions, normals, tangents and texture coordinates read.
pub proof fn colors_are_read_and_dropped(
    buffer: Seq<u8>,
    p: PrimitiveInfo,
    q: PrimitiveInfo,
    set: u32,
    acc: AccessorInfo,
    orders: Seq<bool>,
)
    requires
        q.indices == p.indices,
        q.attributes@ == p.attributes@.push((AttributeSemantic::Colors(set), acc)),
        acc.view is Some,
        accessor_in_bounds(acc, buffer.len() as int),
    ensures
        mesh_error(buffer.len() as int, q) == mesh_error(buffer.len() as int, p),
        forall|u: AttributeUse|
            u != AttributeUse::Color && u != AttributeUse::Skipped ==> #[trigger] use_count(q.attributes@, u) == use_count(
                p.attributes@,
                u,
            ) && use_words(buffer, q.attributes@, u, orders) == use_words(
                buffer,
                p.attributes@,
                u,
                orders,
            ),
{
    let a = (AttributeSemantic::Colors(set), acc);
    assert(q.attributes@.drop_last() == p.attributes@);
    assert forall|u: AttributeUse| u != AttributeUse::Color && u != AttributeUse::Skipped implies #[trigger] use_count(
        q.attributes@,
        u,
    ) == use_count(p.attributes@, u) && use_words(buffer, q.attributes@, u, orders) == use_words(
        buffer,
        p.attributes@,
        u,
        orders,
    ) by {
        lemma_use_unchanged(buffer, p.attributes@, a, u, orders);
    }
}

/// The pairs are consecutive pairs of the words
pub open spec fn pairs_of(groups: Seq<[u32; 2]>, words: Seq<u32>) -> bool {
    &&& words.len() == 2 * groups.len()
    &&& forall|i: int| 0 <= i < groups.len() ==> #[trigger] groups[i] == [words[2 * i], words[2 * i + 1]]
}

/// The triples are consecutive triples of the words
pub open spec fn triples_of(groups: Seq<[u32; 3]>, words: Seq<u32>) -> bool {
    &&& words.len() == 3 * groups.len()
    &&& forall|i: int|
        0 <= i < groups.len() ==> #[trigger] groups[i] == [words[3 * i], words[3 * i + 1], words[3 * i + 2]]
}

/// The quadruples are consecutive quadruples of the words
pub open spec fn quadruples_of(groups: Seq<[u32; 4]>, words: Seq<u32>) -> bool {
    &&& words.len() == 4 * groups.len()
    &&& forall|i: int|
        0 <= i < groups.len() ==> #[trigger] groups[i] == [
            words[4 * i],
            words[4 * i + 1],
            words[4 * i + 2],
            words[4 * i + 3],
        ]
}

proof fn lemma_pairs_append(a: Seq<[u32; 2]>, w: Seq<u32>, b: Seq<[u32; 2]>, x: Seq<u32>)
    requires
        pairs_of(a, w),
        pairs_of(b, x),
    ensures
        pairs_of(a + b, w + x),
{
    assert forall|i: int| 0 <= i < (a + b).len() implies #[trigger] (a + b)[i] == [
        (w + x)[2 * i],
        (w + x)[2 * i + 1],
    ] by {
        if i >= a.len() {
            assert(b[i - a.len()] == [x[2 * (i - a.len())], x[2 * (i - a.len()) + 1]]);
        }
    }
}

proof fn lemma_triples_append(a: Seq<[u32; 3]>, w: Seq<u32>, b: Seq<[u32; 3]>, x: Seq<u32>)
    requires
        triples_of(a, w),
        triples_of(b, x),
    ensures
        triples_of(a + b, w + x),
{
    assert forall|i: int| 0 <= i < (a + b).len() implies #[trigger] (a + b)[i] == [
        (w + x)[3 * i],
        (w + x)[3 * i + 1],
        (w + x)[3 * i + 2],
    ] by {
        if i >= a.len() {
            let j = i - a.len();
            assert(b[j] == [x[3 * j], x[3 * j + 1], x[3 * j + 2]]);
        }
    }
}

proof fn lemma_quadruples_append(a: Seq<[u32; 4]>, w: Seq<u32>, b: Seq<[u32; 4]>, x: Seq<u32>)
    requires
        quadruples_of(a, w),
        quadruples_of(b, x),
    ensures
        quadruples_of(a + b, w + x),
{
    assert forall|i: int| 0 <= i < (a + b).len() implies #[trigger] (a + b)[i] == [
        (w + x)[4 * i],
        (w + x)[4 * i + 1],
        (w + x)[4 * i + 2],
        (w + x)[4 * i + 3],
    ] by {
        if i >= a.len() {
            let j = i - a.len();
            assert(b[j] == [x[4 * j], x[4 * j + 1], x[4 * j + 2], x[4 * j + 3]]);
        }
    }
}

proof fn lemma_use_words_step(
    buffer: Seq<u8>,
    attributes: Seq<(AttributeSemantic, AccessorInfo)>,
    k: int,
    orders: Seq<bool>,
    little: bool,
    u: AttributeUse,
)
    requires
        0 <= k < attributes.len(),
        orders.len() == k,
    ensures
        use_words(buffer, attributes.take(k + 1), u, orders.push(little)) == if attribute_use(
            attributes[k].0,
            attributes[k].1,
        ) == u {
            use_words(buffer, attributes.take(k), u, orders) + words_of(
                accessor_bytes_of(buffer, attributes[k].1),
                little,
            )
        } else {
            use_words(buffer, attributes.take(k), u, orders)
        },
{
    assert(attributes.take(k + 1).drop_last() == attributes.take(k));
    lemma_use_words_orders(buffer, attributes.take(k), u, orders, orders.push(little));
    let prefix = use_words(buffer, attributes.take(k), u, orders);
    assert(prefix + Seq::<u32>::empty() == prefix);
}

/// The vertices hold the components that the attributes give, each attribute's words read in
/// the byte order that `orders` gives for it: vertex `i` the `i`-th position, and the `i`-th
/// normal, texture coordinate and tangent where there are that many
pub open spec fn components_match(
    buffer: Seq<u8>,
    attributes: Seq<(AttributeSemantic, AccessorInfo)>,
    orders: Seq<bool>,
    vertices: Seq<VertexFull>,
) -> bool {
    let p = use_words(buffer, attributes, AttributeUse::Position, orders);
    let n = use_words(buffer, attributes, AttributeUse::Normal, orders);
    let uv = use_words(buffer, attributes, AttributeUse::Uv, orders);
    let t = use_words(buffer, attributes, AttributeUse::Tangent, orders);
    forall|i: int|
        0 <= i < vertices.len() ==> {
            &&& (#[trigger] vertices[i]).position == [p[3 * i], p[3 * i + 1], p[3 * i + 2]]
            &&& i < use_count(attributes, AttributeUse::Normal) ==> vertices[i].normal == [
                n[3 * i],
                n[3 * i + 1],
                n[3 * i + 2],
            ]
            &&& i < use_count(attributes, AttributeUse::Uv) ==> vertices[i].uv == [
                uv[2 * i],
                uv[2 * i + 1],
            ]
            &&& i < use_count(attributes, AttributeUse::Tangent) ==> vertices[i].tangent == [
                t[4 * i],
                t[4 * i + 1],
                t[4 * i + 2],
                t[4 * i + 3],
            ]
        }
}

/// Consecutive pairs of the values
pub fn group2(values: &[u32]) -> (groups: Vec<[u32; 2]>)
    requires
        values@.len() % 2 == 0,
    ensures
        groups@.len() * 2 == values@.len(),
        forall|i: int|
            0 <= i < groups@.len() ==> #[trigger] groups@[i] == [values@[2 * i], values@[2 * i + 1]],
{
    let mut groups: Vec<[u32; 2]> = Vec::new();
    let mut i: usize = 0;
    while i < values.len()
        invariant
            values@.len() % 2 == 0,
            i == 2 * groups@.len(),
            i <= values@.len(),
            forall|j: int|
                0 <= j < groups@.len() ==> #[trigger] groups@[j] == [
                    values@[2 * j],
                    values@[2 * j + 1],
                ],
        decreases values@.len() - i,
    {
        groups.push([values[i], values[i + 1]]);
        i += 2;
    }
    groups
}

/// Consecutive triples of the values
pub fn group3(values: &[u32]) -> (groups: Vec<[u32; 3]>)
    requires
        values@.len() % 3 == 0,
    ensures
        groups@.len() * 3 == values@.len(),
        forall|i: int|
            0 <= i < groups@.len() ==> #[trigger] groups@[i] == [
                values@[3 * i],
                values@[3 * i + 1],
                values@[3 * i + 2],
            ],
{
    let mut groups: Vec<[u32; 3]> = Vec::new();
    let mut i: usize = 0;
    while i < values.len()
        invariant
            values@.len() % 3 == 0,
            i == 3 * groups@.len(),
            i <= values@.len(),
            forall|j: int|
                0 <= j < groups@.len() ==> #[trigger] groups@[j] == [
                    values@[3 * j],
                    values@[3 * j + 1],
                    values@[3 * j + 2],
                ],
        decreases values@.len() - i,
    {
        groups.push([values[i], values[i + 1], values[i + 2]]);
        i += 3;
    }
    groups
}

/// Consecutive quadruples of the values
pub fn group4(values: &[u32]) -> (groups: Vec<[u32; 4]>)
    requires
        values@.len() % 4 == 0,
    ensures
        groups@.len() * 4 == values@.len(),
        forall|i: int|
            0 <= i < groups@.len() ==> #[trigger] groups@[i] == [
                values@[4 * i],
                values@[4 * i + 1],
                values@[4 * i + 2],
                values@[4 * i + 3],
            ],
{
    let mut groups: Vec<[u32; 4]> = Vec::new();
    let mut i: usize = 0;
    while i < values.len()
        invariant
            values@.len() % 4 == 0,
            i == 4 * groups@.len(),
            i <= values@.len(),
            forall|j: int|
                0 <= j < groups@.len() ==> #[trigger] groups@[j] == [
                    values@[4 * j],
                    values@[4 * j + 1],
                    values@[4 * j + 2],
                    values@[4 * j + 3],
                ],
        decreases values@.len() - i,
    {
        groups.push([values[i], values[i + 1], values[i + 2], values[i + 3]]);
        i += 4;
    }
    groups
}

/// A vertex with every attribute that the meshes of a file supply; components are IEEE 754 bit
/// patterns of `f32` values
#[derive(Clone, Copy, Debug, PartialEq)]
pub struct VertexFull {
    pub position: [u32; 3],
    pub color: [u32; 4],
    pub normal: [u32; 3],
    pub uv: [u32; 2],
    pub tangent: [u32; 4],
}

/// Vertex `i`: the position, normal, texture coordinate and tangent at `i`, each zero where
/// there are fewer of them, and the color of the material
pub open spec fn assembled_vertex(
    positions: Seq<[u32; 3]>,
    normals: Seq<[u32; 3]>,
    uvs: Seq<[u32; 2]>,
    tangents: Seq<[u32; 4]>,
    color: [u32; 4],
    i: int,
) -> VertexFull {
    VertexFull {
        position: positions[i],
        color,
        normal: if i < normals.len() {
            normals[i]
        } else {
            [0, 0, 0]
        },
        uv: if i < uvs.len() {
            uvs[i]
        } else {
            [0, 0]
        },
        tangent: if i < tangents.len() {
            tangents[i]
        } else {
            [0, 0, 0, 0]
        },
    }
}

/// One vertex per position, with the normals, texture coordinates and tangents in their order
pub fn assemble_vertices(
    positions: &Vec<[u32; 3]>,
    normals: &Vec<[u32; 3]>,
    uvs: &Vec<[u32; 2]>,
    tangents: &Vec<[u32; 4]>,
    color: [u32; 4],
) -> (vertices: Vec<VertexFull>)
    requires
        normals@.len() <= positions@.len(),
        uvs@.len() <= positions@.len(),
        tangents@.len() <= positions@.len(),
    ensures
        vertices@.len() == positions@.len(),
        forall|i: int|
            0 <= i < positions@.len() ==> #[trigger] vertices@[i] == assembled_vertex(
                positions@,
                normals@,
                uvs@,
                tangents@,
                color,
                i,
            ),
{
    let mut vertices: Vec<VertexFull> = Vec::new();
    let mut i: usize = 0;
    while i < positions.len()
        invariant
            i <= positions@.len(),
            vertices@.len() == i,
            forall|j: int|
                0 <= j < i ==> #[trigger] vertices@[j] == assembled_vertex(
                    positions@,
                    normals@,
                    uvs@,
                    tangents@,
                    color,
                    j,
                ),
        decreases positions@.len() - i,
    {
        let normal = if i < normals.len() {
            normals[i]
        } else {
            [0, 0, 0]
        };
        let uv = if i < uvs.len() {
            uvs[i]
        } else {
            [0, 0]
        };
        let tangent = if i < tangents.len() {
            tangents[i]
        } else {
            [0, 0, 0, 0]
        };
        vertices.push(VertexFull { position: positions[i], color, normal, uv, tangent });
        i += 1;
    }
    vertices
}

/// The components of an `f32` accessor as bit patterns
fn read_float_bits(buffer: &[u8], acc: &AccessorInfo) -> (r: Result<Vec<u32>, GlbError>)
    requires
        acc.component == ComponentType::F32,
    ensures
        acc.view is None ==> r == Err::<Vec<u32>, GlbError>(GlbError::SparseAccessor),
        acc.view is Some && !accessor_in_bounds(*acc, buffer@.len() as int) ==> r == Err::<
            Vec<u32>,
            GlbError,
        >(GlbError::OutOfBounds),
        accessor_in_bounds(*acc, buffer@.len() as int) ==> {
            ||| r is Ok && r->Ok_0@.len() == acc.count * multiplicity(acc.dimensions)
            ||| r == Err::<Vec<u32>, GlbError>(GlbError::Misaligned)
        },
        r is Ok ==> r->Ok_0@ == words_of(accessor_bytes_of(buffer@, *acc), true) || r->Ok_0@
            == words_of(accessor_bytes_of(buffer@, *acc), false),
{
    let bytes = match accessor_bytes(buffer, acc) {
        Err(e) => return Err(e),
        Ok(bytes) => bytes,
    };
    match cast_to_words(bytes) {
        None => Err(GlbError::Misaligned),
        Some(values) => {
            assert(values@.len() == acc.count * multiplicity(acc.dimensions)) by (nonlinear_arith)
                requires
                    values@.len() * 4 == acc.count * element_bytes(*acc),
                    element_bytes(*acc) == 4 * multiplicity(acc.dimensions),
            ;
            Ok(slice_to_vec(values))
        },
    }
}

/// Material properties of a primitive as the file gives them; factors are bit patterns of `f32`
/// values, and a texture is the buffer view that holds its image (`None` where there is no such
/// texture or its image is referred to by a URI)
#[derive(Clone, Copy, Debug, PartialEq)]
pub struct MaterialInfo {
    pub base_color_factor: [u32; 4],
    pub roughness_factor: u32,
    pub metallic_factor: u32,
    pub occlusion_strength: Option<u32>,
    pub normal_texture: Option<BufferViewRange>,
    pub base_color_texture: Option<BufferViewRange>,
    pub metallic_roughness_texture: Option<BufferViewRange>,
}

/// A primitive of a mesh as the file describes it
#[derive(Clone, Debug)]
pub struct PrimitiveInfo {
    pub indices: Option<AccessorInfo>,
    pub attributes: Vec<(AttributeSemantic, AccessorInfo)>,
    pub material: MaterialInfo,
}

/// Vertices and triangle indices of one primitive
#[derive(Clone, Debug)]
pub struct Mesh {
    pub vertices: Vec<VertexFull>,
    pub indices: Vec<u32>,
}

/// The error that reading a primitive's mesh stops at, if any, other than misaligned bytes
pub open spec fn mesh_error(buffer_len: int, primitive: PrimitiveInfo) -> Option<GlbError> {
    let attributes = primitive.attributes@;
    match primitive.indices {
        None => Some(GlbError::MissingIndices),
        Some(acc) => if index_error(buffer_len, acc) is Some {
            index_error(buffer_len, acc)
        } else if attributes_error(buffer_len, attributes) is Some {
            attributes_error(buffer_len, attributes)
        } else {
            let positions = use_count(attributes, AttributeUse::Position);
            let normals = use_count(attributes, AttributeUse::Normal);
            let tangents = use_count(attributes, AttributeUse::Tangent);
            let uvs = use_count(attributes, AttributeUse::Uv);
            if positions == 0 || normals == 0 || tangents == 0 || uvs == 0 {
                Some(GlbError::MissingAttribute)
            } else if normals > positions || uvs > positions || tangents > positions {
                Some(GlbError::AttributeCountMismatch)
            } else {
                None
            }
        },
    }
}

/// The error that reading a primitive's mesh stops at before any bytes are cast, if any: a
/// missing index accessor, or an index accessor that cannot be read
pub open spec fn pre_cast_error(buffer_len: int, primitive: PrimitiveInfo) -> Option<GlbError> {
    match primitive.indices {
        None => Some(GlbError::MissingIndices),
        Some(acc) => index_error(buffer_len, acc),
    }
}

/// What a mesh read from a primitive is: as many indices as the index accessor has (exactly its
/// bytes where they are `u8`), one vertex per position, each with the material's color, and
/// zero normals, texture coordinates and tangents past the ones the file has
pub open spec fn mesh_shape(buffer: Seq<u8>, primitive: PrimitiveInfo, mesh: Mesh) -> bool {
    let attributes = primitive.attributes@;
    let acc = primitive.indices->Some_0;
    let vertices = mesh.vertices@;
    &&& mesh.indices@.len() == acc.count
    &&& acc.component == ComponentType::U8 ==> forall|i: int|
        0 <= i < acc.count ==> mesh.indices@[i] == accessor_bytes_of(buffer, acc)[i] as u32
    &&& (mesh.indices@ == index_values(accessor_bytes_of(buffer, acc), acc.component, true)
        || mesh.indices@ == index_values(accessor_bytes_of(buffer, acc), acc.component, false))
    &&& vertices.len() == use_count(attributes, AttributeUse::Position)
    &&& exists|orders: Seq<bool>| components_match(buffer, attributes, orders, vertices)
    &&& forall|i: int|
        0 <= i < vertices.len() ==> {
            &&& (#[trigger] vertices[i]).color == primitive.material.base_color_factor
            &&& i >= use_count(attributes, AttributeUse::Normal) ==> vertices[i].normal == [
                0u32,
                0,
                0,
            ]
            &&& i >= use_count(attributes, AttributeUse::Uv) ==> vertices[i].uv == [0u32, 0]
            &&& i >= use_count(attributes, AttributeUse::Tangent) ==> vertices[i].tangent == [
                0u32,
                0,
                0,
                0,
            ]
        }
}

/// Reads the mesh of a primitive: its indices, widened to `u32`, and one vertex per position
/// with the normal, texture coordinate (of the first set) and tangent of the same number
pub fn parse_mesh(buffer: &[u8], primitive: &PrimitiveInfo) -> (r: Result<Mesh, GlbError>)
    ensures
        mesh_error(buffer@.len() as int, *primitive) is Some ==> r == Err::<Mesh, GlbError>(
            mesh_error(buffer@.len() as int, *primitive)->Some_0,
        ) || r == Err::<Mesh, GlbError>(GlbError::Misaligned),
        mesh_error(buffer@.len() as int, *primitive) is None ==> r is Ok || r == Err::<
            Mesh,
            GlbError,
        >(GlbError::Misaligned),
        r is Err && r->Err_0 != GlbError::Misaligned ==> mesh_error(
            buffer@.len() as int,
            *primitive,
        ) == Some(r->Err_0),
        r is Ok ==> mesh_shape(buffer@, *primitive, r->Ok_0),
        pre_cast_error(buffer@.len() as int, *primitive) is Some ==> r == Err::<Mesh, GlbError>(
            pre_cast_error(buffer@.len() as int, *primitive)->Some_0,
        ),
{
    let ghost blen = buffer@.len() as int;
    let ghost attributes = primitive.attributes@;
    let index_acc = match primitive.indices {
        None => return Err(GlbError::MissingIndices),
        Some(acc) => acc,
    };
    let indices = match decode_indices(buffer, &index_acc) {
        Err(e) => return Err(e),
        Ok(indices) => indices,
    };
    let mut positions: Vec<[u32; 3]> = Vec::new();
    let mut normals: Vec<[u32; 3]> = Vec::new();
    let mut tangents: Vec<[u32; 4]> = Vec::new();
    let mut uvs: Vec<[u32; 2]> = Vec::new();
    let ghost mut orders: Seq<bool> = Seq::empty();
    let mut k: usize = 0;
    while k < primitive.attributes.len()
        invariant
            blen == buffer@.len(),
            attributes == primitive.attributes@,
            k <= attributes.len(),
            primitive.indices == Some(index_acc),
            index_error(blen, index_acc) is None,
            attributes_error(blen, attributes.take(k as int)) is None,
            positions@.len() == use_count(attributes.take(k as int), AttributeUse::Position),
            normals@.len() == use_count(attributes.take(k as int), AttributeUse::Normal),
            tangents@.len() == use_count(attributes.take(k as int), AttributeUse::Tangent),
            uvs@.len() == use_count(attributes.take(k as int), AttributeUse::Uv),
            orders.len() == k,
            triples_of(
                positions@,
                use_words(buffer@, attributes.take(k as int), AttributeUse::Position, orders),
            ),
            triples_of(
                normals@,
                use_words(buffer@, attributes.take(k as int), AttributeUse::Normal, orders),
            ),
            quadruples_of(
                tangents@,
                use_words(buffer@, attributes.take(k as int), AttributeUse::Tangent, orders),
            ),
            pairs_of(uvs@, use_words(buffer@, attributes.take(k as int), AttributeUse::Uv, orders)),
        decreases attributes.len() - k,
    {
        let (semantic, acc) = primitive.attributes[k];
        proof {
            assert(attributes.take(k + 1).drop_last() == attributes.take(k as int));
            assert(attributes.take(k + 1).last() == (semantic, acc));
        }
        if acc.view.is_none() {
            proof {
                lemma_attributes_error_prefix(blen, attributes, k + 1);
            }
            return Err(GlbError::SparseAccessor);
        }
        let usage = use_of(semantic, &acc);
        let ghost mut little: bool = true;
        let ghost bytes = accessor_bytes_of(buffer@, acc);
        let ghost p0 = positions@;
        let ghost n0 = normals@;
        let ghost t0 = tangents@;
        let ghost uv0 = uvs@;
        let ghost take_k = attributes.take(k as int);
        match usage {
            AttributeUse::Skipped => {},
            _ => {
                let bits = match read_float_bits(buffer, &acc) {
                    Err(e) => {
                        proof {
                            if e != GlbError::Misaligned {
                                lemma_attributes_error_prefix(blen, attributes, k + 1);
                            }
                        }
                        return Err(e);
                    },
                    Ok(bits) => bits,
                };
                proof {
                    little = bits@ == words_of(bytes, true);
                }
                match usage {
                    AttributeUse::Position => {
                        proof {
                            assert(bits@.len() % 3 == 0) by (nonlinear_arith)
                                requires
                                    bits@.len() == acc.count * multiplicity(acc.dimensions),
                                    multiplicity(acc.dimensions) == 3,
                            ;
                        }
                        let mut group = group3(bits.as_slice());
                        proof {
                            lemma_triples_append(p0, use_words(buffer@, take_k, AttributeUse::Position, orders), group@, bits@);
                        }
                        positions.append(&mut group);
                    },
                    AttributeUse::Normal => {
                        proof {
                            assert(bits@.len() % 3 == 0) by (nonlinear_arith)
                                requires
                                    bits@.len() == acc.count * multiplicity(acc.dimensions),
                                    multiplicity(acc.dimensions) == 3,
                            ;
                        }
                        let mut group = group3(bits.as_slice());
                        proof {
                            lemma_triples_append(n0, use_words(buffer@, take_k, AttributeUse::Normal, orders), group@, bits@);
                        }
                        normals.append(&mut group);
                    },
                    AttributeUse::Tangent => {
                        proof {
                            assert(bits@.len() % 4 == 0) by (nonlinear_arith)
                                requires
                                    bits@.len() == acc.count * multiplicity(acc.dimensions),
                                    multiplicity(acc.dimensions) == 4,
                            ;
                        }
                        let mut group = group4(bits.as_slice());
                        proof {
                            lemma_quadruples_append(t0, use_words(buffer@, take_k, AttributeUse::Tangent, orders), group@, bits@);
                        }
                        tangents.append(&mut group);
                    },
                    AttributeUse::Uv => {
                        proof {
                            assert(bits@.len() % 2 == 0) by (nonlinear_arith)
                                requires
                                    bits@.len() == acc.count * multiplicity(acc.dimensions),
                                    multiplicity(acc.dimensions) == 2,
                            ;
                        }
                        let mut group = group2(bits.as_slice());
                        proof {
                            lemma_pairs_append(uv0, use_words(buffer@, take_k, AttributeUse::Uv, orders), group@, bits@);
                        }
                        uvs.append(&mut group);
                    },
                    _ => {},
                }
            },
        }
        proof {
            lemma_use_words_step(buffer@, attributes, k as int, orders, little, AttributeUse::Position);
            lemma_use_words_step(buffer@, attributes, k as int, orders, little, AttributeUse::Normal);
            lemma_use_words_step(buffer@, attributes, k as int, orders, little, AttributeUse::Tangent);
            lemma_use_words_step(buffer@, attributes, k as int, orders, little, AttributeUse::Uv);
            orders = orders.push(little);
        }
        k += 1;
    }
    proof {
        assert(attributes.take(k as int) == attributes);
    }
    if positions.len() == 0 || normals.len() == 0 || tangents.len() == 0 || uvs.len() == 0 {
        return Err(GlbError::MissingAttribute);
    }
    if normals.len() > positions.len() || uvs.len() > positions.len() || tangents.len()
        > positions.len() {
        return Err(GlbError::AttributeCountMismatch);
    }
    let vertices = assemble_vertices(
        &positions,
        &normals,
        &uvs,
        &tangents,
        primitive.material.base_color_factor,
    );
    proof {
        assert(components_match(buffer@, attributes, orders, vertices@));
    }
    Ok(Mesh { vertices, indices })
}

/// Material of a primitive: factors are bit patterns of `f32` values, textures hold the encoded
/// image bytes
#[derive(Clone, Debug)]
pub struct Material {
    pub color_factor: [u32; 4],
    pub roughness_factor: u32,
    pub metalness_factor: u32,
    pub occlusion_strength: u32,
    pub albedo: Option<Vec<u8>>,
    pub normal: Option<Vec<u8>>,
    pub roughness: Option<Vec<u8>>,
}

impl Default for Material {
    /// White, neither rough nor metallic, fully occluding, without textures
    fn default() -> (material: Self)
        ensures
            material.color_factor == [F_ONE, F_ONE, F_ONE, F_ONE],
            material.roughness_factor == F_ZERO,
            material.metalness_factor == F_ZERO,
            material.occlusion_strength == F_ONE,
            material.albedo is None,
            material.normal is None,
            material.roughness is None,
    {
        Material {
            color_factor: [F_ONE, F_ONE, F_ONE, F_ONE],
            roughness_factor: F_ZERO,
            metalness_factor: F_ZERO,
            occlusion_strength: F_ONE,
            albedo: None,
            normal: None,
            roughness: None,
        }
    }
}

/// The buffer view lies within a chunk of `buffer_len` bytes
pub open spec fn view_in_bounds(view: BufferViewRange, buffer_len: int) -> bool {
    view.offset + view.length <= buffer_len
}

/// The bytes of a buffer view
pub open spec fn view_bytes(buffer: Seq<u8>, view: BufferViewRange) -> Seq<u8> {
    buffer.subrange(view.offset as int, view.offset + view.length)
}

/// A texture's image lies within the chunk, or there is none
pub open spec fn texture_in_bounds(texture: Option<BufferViewRange>, buffer_len: int) -> bool {
    texture is Some ==> view_in_bounds(texture->Some_0, buffer_len)
}

/// The bytes of a texture's image are those of its buffer view
pub open spec fn texture_data_matches(
    buffer: Seq<u8>,
    texture: Option<BufferViewRange>,
    data: Option<Vec<u8>>,
) -> bool {
    &&& data is Some <==> texture is Some
    &&& data is Some ==> data->Some_0@ == view_bytes(buffer, texture->Some_0)
}

/// The image bytes of a texture, copied from its buffer view
pub fn texture_data(buffer: &[u8], texture: Option<BufferViewRange>) -> (r: Result<
    Option<Vec<u8>>,
    GlbError,
>)
    ensures
        r is Ok <==> texture_in_bounds(texture, buffer@.len() as int),
        r is Err ==> r->Err_0 == GlbError::OutOfBounds,
        r is Ok ==> texture_data_matches(buffer@, texture, r->Ok_0),
{
    let buffer_len = buffer.len();
    match texture {
        None => Ok(None),
        Some(view) => {
            let end = match view.offset.checked_add(view.length) {
                None => return Err(GlbError::OutOfBounds),
                Some(end) => end,
            };
            if end > buffer_len {
                return Err(GlbError::OutOfBounds);
            }
            Ok(Some(slice_to_vec(slice_subrange(buffer, view.offset, end))))
        },
    }
}

/// The images of the material's textures lie in a chunk of `buffer_len` bytes
pub open spec fn material_in_bounds(info: MaterialInfo, buffer_len: int) -> bool {
    &&& texture_in_bounds(info.normal_texture, buffer_len)
    &&& texture_in_bounds(info.base_color_texture, buffer_len)
    &&& texture_in_bounds(info.metallic_roughness_texture, buffer_len)
}

/// The material holds the factors of the file, the occlusion strength where there is one and
/// one otherwise, and the image bytes of each texture
pub open spec fn material_matches(buffer: Seq<u8>, info: MaterialInfo, m: Material) -> bool {
    &&& m.color_factor == info.base_color_factor
    &&& m.roughness_factor == info.roughness_factor
    &&& m.metalness_factor == info.metallic_factor
    &&& m.occlusion_strength == match info.occlusion_strength {
        Some(strength) => strength,
        None => F_ONE,
    }
    &&& texture_data_matches(buffer, info.normal_texture, m.normal)
    &&& texture_data_matches(buffer, info.base_color_texture, m.albedo)
    &&& texture_data_matches(buffer, info.metallic_roughness_texture, m.roughness)
}

/// Reads the material of a primitive: its factors, the occlusion strength where the material has
/// an occlusion texture, and the images of its normal, albedo and roughness textures that lie in
/// the binary chunk; an image outside of it is an error
pub fn parse_material(buffer: &[u8], info: &MaterialInfo) -> (r: Result<Material, GlbError>)
    ensures
        r is Ok <==> material_in_bounds(*info, buffer@.len() as int),
        r is Err ==> r->Err_0 == GlbError::OutOfBounds,
        r is Ok ==> material_matches(buffer@, *info, r->Ok_0),
{
    let mut material = Material::default();
    material.color_factor = info.base_color_factor;
    material.roughness_factor = info.roughness_factor;
    material.metalness_factor = info.metallic_factor;
    material.normal = match texture_data(buffer, info.normal_texture) {
        Err(e) => return Err(e),
        Ok(data) => data,
    };
    material.albedo = match texture_data(buffer, info.base_color_texture) {
        Err(e) => return Err(e),
        Ok(data) => data,
    };
    material.roughness = match texture_data(buffer, info.metallic_roughness_texture) {
        Err(e) => return Err(e),
        Ok(data) => data,
    };
    if let Some(strength) = info.occlusion_strength {
        material.occlusion_strength = strength;
    }
    Ok(material)
}

/// Local transform of a node; components are bit patterns of `f32` values
#[derive(Clone, Copy, Debug, PartialEq)]
pub enum NodeTransform {
    /// A 4x4 matrix, column by column
    Matrix([[u32; 4]; 4]),
    /// Translation, rotation quaternion (`x, y, z, w`) and scale
    Decomposed { translation: [u32; 3], rotation: [u32; 4], scale: [u32; 3] },
}

/// A node of the file: its children, its transform and the primitives of its mesh, if it has one
#[derive(Clone, Debug)]
pub struct SceneNode {
    pub children: Vec<usize>,
    pub transform: NodeTransform,
    pub primitives: Option<Vec<PrimitiveInfo>>,
}

/// The scenes of a file, each by its root nodes, and its nodes
#[derive(Clone, Debug)]
pub struct SceneGraph {
    pub scenes: Vec<Vec<usize>>,
    pub nodes: Vec<SceneNode>,
}

/// One entry of a model: a primitive of a node's mesh, or a node without a mesh. `parent` is the
/// index of the first entry of the parent node (0 for a root), `parent_node` the parent node
#[derive(Clone, Copy, Debug, PartialEq, Eq, Structural)]
pub struct NodeEntry {
    pub node: usize,
    pub primitive: Option<usize>,
    pub parent: usize,
    pub parent_node: Option<usize>,
}

/// The entries of a node itself: one per primitive of its mesh, or one if it has no mesh
pub open spec fn own_entries(
    graph: SceneGraph,
    node: usize,
    parent: usize,
    parent_node: Option<usize>,
) -> Seq<NodeEntry> {
    match graph.nodes@[node as int].primitives {
        None => seq![NodeEntry { node, primitive: None, parent, parent_node }],
        Some(primitives) => Seq::new(
            primitives@.len(),
            |k: int| NodeEntry { node, primitive: Some(k as usize), parent, parent_node },
        ),
    }
}

/// The entries of a node and of its descendants, depth first, the first of them at `base`;
/// nesting deeper than `fuel` levels is an error
pub open spec fn node_entries(
    graph: SceneGraph,
    node: usize,
    parent: usize,
    parent_node: Option<usize>,
    base: int,
    fuel: nat,
) -> Result<Seq<NodeEntry>, GlbError>
    decreases fuel, 0nat,
{
    if node >= graph.nodes@.len() {
        Err(GlbError::InvalidNode)
    } else if fuel == 0 {
        Err(GlbError::CyclicHierarchy)
    } else {
        let own = own_entries(graph, node, parent, parent_node);
        match children_entries(
            graph,
            graph.nodes@[node as int].children@,
            base as usize,
            Some(node),
            base + own.len(),
            (fuel - 1) as nat,
        ) {
            Ok(rest) => Ok(own + rest),
            Err(e) => Err(e),
        }
    }
}

/// The entries of sibling nodes in their order, the first of them at `base`
pub open spec fn children_entries(
    graph: SceneGraph,
    children: Seq<usize>,
    parent: usize,
    parent_node: Option<usize>,
    base: int,
    fuel: nat,
) -> Result<Seq<NodeEntry>, GlbError>
    decreases fuel, children.len() + 1,
{
    if children.len() == 0 {
        Ok(Seq::empty())
    } else {
        match node_entries(graph, children[0], parent, parent_node, base, fuel) {
            Err(e) => Err(e),
            Ok(first) => match children_entries(
                graph,
                children.drop_first(),
                parent,
                parent_node,
                base + first.len(),
                fuel,
            ) {
                Err(e) => Err(e),
                Ok(rest) => Ok(first + rest),
            },
        }
    }
}

/// The root nodes of all scenes, scene by scene
pub open spec fn all_roots(scenes: Seq<Vec<usize>>) -> Seq<usize>
    decreases scenes.len(),
{
    if scenes.len() == 0 {
        Seq::empty()
    } else {
        all_roots(scenes.drop_last()) + scenes.last()@
    }
}

/// The entries of all scenes; a path from a root longer than the number of nodes is an error
pub open spec fn scene_entries(graph: SceneGraph) -> Result<Seq<NodeEntry>, GlbError> {
    children_entries(graph, all_roots(graph.scenes@), 0, None, 0, graph.nodes@.len())
}

/// The entry names an existing node and, if any, a primitive of its mesh
pub open spec fn entry_valid(graph: SceneGraph, entry: NodeEntry) -> bool {
    &&& entry.node < graph.nodes@.len()
    &&& entry.primitive is Some ==> {
        &&& graph.nodes@[entry.node as int].primitives is Some
        &&& entry.primitive->Some_0 < graph.nodes@[entry.node as int].primitives->Some_0@.len()
    }
}

/// Appends the entries of a node and of its descendants (see `node_entries`)
fn walk_node(
    graph: &SceneGraph,
    node: usize,
    parent: usize,
    parent_node: Option<usize>,
    fuel: usize,
    out: &mut Vec<NodeEntry>,
) -> (r: Result<(), GlbError>)
    ensures
        match node_entries(*graph, node, parent, parent_node, old(out)@.len() as int, fuel as nat) {
            Ok(entries) => r is Ok && final(out)@ == old(out)@ + entries,
            Err(e) => r == Err::<(), GlbError>(e),
        },
        r is Ok ==> forall|j: int|
            old(out)@.len() <= j < final(out)@.len() ==> entry_valid(*graph, #[trigger] final(out)@[j]),
    decreases fuel, 0nat,
{
    if node >= graph.nodes.len() {
        return Err(GlbError::InvalidNode);
    }
    if fuel == 0 {
        return Err(GlbError::CyclicHierarchy);
    }
    let ghost before = out@;
    let index = out.len();
    let scene_node = &graph.nodes[node];
    match &scene_node.primitives {
        None => {
            out.push(NodeEntry { node, primitive: None, parent, parent_node });
        },
        Some(primitives) => {
            let mut k: usize = 0;
            while k < primitives.len()
                invariant
                    k <= primitives@.len(),
                    scene_node == graph.nodes@[node as int],
                    node < graph.nodes@.len(),
                    scene_node.primitives == Some(*primitives),
                    out@ == before + Seq::new(
                        k as nat,
                        |j: int| NodeEntry { node, primitive: Some(j as usize), parent, parent_node },
                    ),
                decreases primitives@.len() - k,
            {
                out.push(NodeEntry { node, primitive: Some(k), parent, parent_node });
                k += 1;
                proof {
                    assert(out@ == before + Seq::new(
                        k as nat,
                        |j: int| NodeEntry { node, primitive: Some(j as usize), parent, parent_node },
                    ));
                }
            }
        },
    }
    let ghost own = own_entries(*graph, node, parent, parent_node);
    assert(out@ == before + own);
    assert forall|j: int| before.len() <= j < out@.len() implies entry_valid(*graph, #[trigger] out@[j]) by {
    }
    let r = walk_children(graph, &scene_node.children, 0, index, Some(node), fuel - 1, out);
    proof {
        assert(scene_node.children@.skip(0) == scene_node.children@);
        match children_entries(
            *graph,
            scene_node.children@,
            index,
            Some(node),
            (before.len() + own.len()) as int,
            (fuel - 1) as nat,
        ) {
            Ok(rest) => {
                assert(out@ == before + (own + rest));
            },
            Err(e) => {},
        }
    }
    r
}

/// Appends the entries of the children from the `i`-th on (see `children_entries`)
fn walk_children(
    graph: &SceneGraph,
    children: &Vec<usize>,
    i: usize,
    parent: usize,
    parent_node: Option<usize>,
    fuel: usize,
    out: &mut Vec<NodeEntry>,
) -> (r: Result<(), GlbError>)
    requires
        i <= children@.len(),
    ensures
        match children_entries(
            *graph,
            children@.skip(i as int),
            parent,
            parent_node,
            old(out)@.len() as int,
            fuel as nat,
        ) {
            Ok(entries) => r is Ok && final(out)@ == old(out)@ + entries,
            Err(e) => r == Err::<(), GlbError>(e),
        },
        r is Ok ==> forall|j: int|
            old(out)@.len() <= j < final(out)@.len() ==> entry_valid(*graph, #[trigger] final(out)@[j]),
    decreases fuel, children@.len() - i + 1,
{
    if i == children.len() {
        assert(children@.skip(i as int) == Seq::<usize>::empty());
        return Ok(());
    }
    let ghost before = out@;
    proof {
        assert(children@.skip(i as int)[0] == children@[i as int]);
        assert(children@.skip(i as int).drop_first() == children@.skip(i + 1));
    }
    match walk_node(graph, children[i], parent, parent_node, fuel, out) {
        Err(e) => return Err(e),
        Ok(()) => {},
    }
    let r = walk_children(graph, children, i + 1, parent, parent_node, fuel, out);
    proof {
        match node_entries(*graph, children@[i as int], parent, parent_node, before.len() as int, fuel as nat) {
            Ok(first) => {
                match children_entries(
                    *graph,
                    children@.skip(i + 1),
                    parent,
                    parent_node,
                    (before.len() + first.len()) as int,
                    fuel as nat,
                ) {
                    Ok(rest) => {
                        assert(out@ == before + (first + rest));
                    },
                    Err(e) => {},
                }
            },
            Err(e) => {},
        }
    }
    r
}

/// The root nodes of all scenes, scene by scene
fn collect_roots(scenes: &Vec<Vec<usize>>) -> (roots: Vec<usize>)
    ensures
        roots@ == all_roots(scenes@),
{
    let mut roots: Vec<usize> = Vec::new();
    let mut i: usize = 0;
    while i < scenes.len()
        invariant
            i <= scenes@.len(),
            roots@ == all_roots(scenes@.take(i as int)),
        decreases scenes@.len() - i,
    {
        let scene = &scenes[i];
        let ghost before = roots@;
        let mut j: usize = 0;
        while j < scene.len()
            invariant
                j <= scene@.len(),
                roots@ == before + scene@.take(j as int),
            decreases scene@.len() - j,
        {
            roots.push(scene[j]);
            j += 1;
            proof {
                assert(roots@ == before + scene@.take(j as int));
            }
        }
        proof {
            assert(scene@.take(j as int) == scene@);
            assert(scenes@.take(i + 1).drop_last() == scenes@.take(i as int));
            assert(scenes@.take(i + 1).last() == scene);
        }
        i += 1;
    }
    proof {
        assert(scenes@.take(i as int) == scenes@);
    }
    roots
}

/// The entries of a model of the scene graph: for each scene, its root nodes and their
/// descendants depth first, each node with one entry per primitive of its mesh or one entry if
/// it has none
pub fn collect_entries(graph: &SceneGraph) -> (r: Result<Vec<NodeEntry>, GlbError>)
    ensures
        match scene_entries(*graph) {
            Ok(entries) => r is Ok && r->Ok_0@ == entries,
            Err(e) => r == Err::<Vec<NodeEntry>, GlbError>(e),
        },
        r is Ok ==> forall|j: int|
            0 <= j < r->Ok_0@.len() ==> entry_valid(*graph, #[trigger] r->Ok_0@[j]),
{
    let roots = collect_roots(&graph.scenes);
    let mut entries: Vec<NodeEntry> = Vec::new();
    proof {
        assert(roots@.skip(0) == roots@);
    }
    match walk_children(graph, &roots, 0, 0, None, graph.nodes.len(), &mut entries) {
        Err(e) => Err(e),
        Ok(()) => {
            proof {
                match scene_entries(*graph) {
                    Ok(es) => {
                        assert(entries@ == Seq::<NodeEntry>::empty() + es);
                        assert(Seq::<NodeEntry>::empty() + es == es);
                    },
                    Err(e) => {},
                }
            }
            Ok(entries)
        },
    }
}

/// A node of a model: a primitive's mesh and material, or nothing for a node without a mesh,
/// with the node it comes from and its parents
#[derive(Clone, Debug)]
pub struct ModelNode {
    pub mesh: Option<(Mesh, Material)>,
    pub node: usize,
    pub parent_node: Option<usize>,
    pub parent: usize,
}

/// The meshes of a file's scenes and the local transform of each of its nodes
#[derive(Clone, Debug)]
pub struct Model {
    pub meshes: Vec<ModelNode>,
    pub transforms: Vec<NodeTransform>,
}

/// The primitive that an entry stands for
pub open spec fn entry_primitive(graph: SceneGraph, entry: NodeEntry) -> PrimitiveInfo {
    graph.nodes@[entry.node as int].primitives->Some_0@[entry.primitive->Some_0 as int]
}

/// The error that reading a primitive's mesh and material stops at, if any, other than
/// misaligned bytes
pub open spec fn primitive_error(buffer_len: int, primitive: PrimitiveInfo) -> Option<GlbError> {
    if mesh_error(buffer_len, primitive) is Some {
        mesh_error(buffer_len, primitive)
    } else if !material_in_bounds(primitive.material, buffer_len) {
        Some(GlbError::OutOfBounds)
    } else {
        None
    }
}

/// Every primitive that the entries stand for is read without an error other than misaligned
/// bytes
pub open spec fn entries_readable(buffer_len: int, graph: SceneGraph, entries: Seq<NodeEntry>) -> bool {
    forall|i: int|
        0 <= i < entries.len() && (#[trigger] entries[i]).primitive is Some ==> primitive_error(
            buffer_len,
            entry_primitive(graph, entries[i]),
        ) is None
}

/// Some primitive that the entries stand for stops at the error
pub open spec fn entries_fail_with(
    buffer_len: int,
    graph: SceneGraph,
    entries: Seq<NodeEntry>,
    e: GlbError,
) -> bool {
    exists|i: int|
        0 <= i < entries.len() && (#[trigger] entries[i]).primitive is Some && primitive_error(
            buffer_len,
            entry_primitive(graph, entries[i]),
        ) == Some(e)
}

/// The model node of an entry: its node and parents, and for a primitive its mesh and material
pub open spec fn model_node_matches(
    buffer: Seq<u8>,
    graph: SceneGraph,
    entry: NodeEntry,
    model_node: ModelNode,
) -> bool {
    &&& model_node.node == entry.node
    &&& model_node.parent_node == entry.parent_node
    &&& model_node.parent == entry.parent
    &&& (model_node.mesh is Some <==> entry.primitive is Some)
    &&& entry.primitive is Some ==> {
        &&& mesh_shape(buffer, entry_primitive(graph, entry), model_node.mesh->Some_0.0)
        &&& material_matches(
            buffer,
            entry_primitive(graph, entry).material,
            model_node.mesh->Some_0.1,
        )
    }
}

/// No entry stands for a primitive
pub open spec fn reads_no_primitive(entries: Seq<NodeEntry>) -> bool {
    forall|i: int| 0 <= i < entries.len() ==> (#[trigger] entries[i]).primitive is None
}

/// Entry `i` is the first that stands for a primitive
pub open spec fn first_primitive_entry(entries: Seq<NodeEntry>, i: int) -> bool {
    &&& 0 <= i < entries.len()
    &&& entries[i].primitive is Some
    &&& forall|j: int| 0 <= j < i ==> (#[trigger] entries[j]).primitive is None
}

/// Reads the mesh and material of each entry's primitive, in the order of the entries
fn read_entries(graph: &SceneGraph, buffer: &[u8], entries: &Vec<NodeEntry>) -> (r: Result<
    Vec<ModelNode>,
    GlbError,
>)
    requires
        forall|j: int| 0 <= j < entries@.len() ==> entry_valid(*graph, #[trigger] entries@[j]),
    ensures
        r is Ok ==> r->Ok_0@.len() == entries@.len() && forall|i: int|
            0 <= i < entries@.len() ==> model_node_matches(
                buffer@,
                *graph,
                entries@[i],
                #[trigger] r->Ok_0@[i],
            ),
        r is Err ==> r->Err_0 == GlbError::Misaligned || entries_fail_with(
            buffer@.len() as int,
            *graph,
            entries@,
            r->Err_0,
        ),
        entries_readable(buffer@.len() as int, *graph, entries@) ==> r is Ok || r == Err::<
            Vec<ModelNode>,
            GlbError,
        >(GlbError::Misaligned),
        reads_no_primitive(entries@) ==> r is Ok,
        forall|i: int|
            first_primitive_entry(entries@, i) && pre_cast_error(
                buffer@.len() as int,
                entry_primitive(*graph, #[trigger] entries@[i]),
            ) is Some ==> r == Err::<Vec<ModelNode>, GlbError>(
                pre_cast_error(buffer@.len() as int, entry_primitive(*graph, entries@[i]))->Some_0,
            ),
{
    let ghost blen = buffer@.len() as int;
    let mut nodes: Vec<ModelNode> = Vec::new();
    let mut i: usize = 0;
    let ghost mut seen: bool = false;
    let ghost mut first: int = 0;
    while i < entries.len()
        invariant
            blen == buffer@.len(),
            i <= entries@.len(),
            nodes@.len() == i,
            !seen ==> forall|j: int| 0 <= j < i ==> (#[trigger] entries@[j]).primitive is None,
            seen ==> first_primitive_entry(entries@, first) && first < i && pre_cast_error(
                blen,
                entry_primitive(*graph, entries@[first]),
            ) is None,
            forall|j: int| 0 <= j < entries@.len() ==> entry_valid(*graph, #[trigger] entries@[j]),
            forall|j: int|
                0 <= j < i ==> model_node_matches(buffer@, *graph, entries@[j], #[trigger] nodes@[j]),
        decreases entries@.len() - i,
    {
        let entry = entries[i];
        assert(entry_valid(*graph, entries@[i as int]));
        let mesh = match entry.primitive {
            None => None,
            Some(k) => {
                let primitive = &graph.nodes[entry.node].primitives.as_ref().unwrap()[k];
                assert(*primitive == entry_primitive(*graph, entry));
                let mesh = match parse_mesh(buffer, primitive) {
                    Err(e) => {
                        assert(e != GlbError::Misaligned ==> entries@[i as int].primitive is Some
                            && primitive_error(blen, entry_primitive(*graph, entries@[i as int]))
                            == Some(e));
                        proof {
                            if !seen {
                                assert(first_primitive_entry(entries@, i as int));
                            }
                            assert forall|f: int|
                                first_primitive_entry(entries@, f) && pre_cast_error(
                                    blen,
                                    entry_primitive(*graph, #[trigger] entries@[f]),
                                ) is Some implies e == pre_cast_error(
                                    blen,
                                    entry_primitive(*graph, entries@[f]),
                                )->Some_0 by {
                                if seen {
                                    if f < first {
                                        assert(entries@[f].primitive is None);
                                    } else if f > first {
                                        assert(entries@[first].primitive is None);
                                    }
                                } else {
                                    if f < i {
                                        assert(entries@[f].primitive is None);
                                    } else if f > i {
                                        assert(entries@[i as int].primitive is None);
                                    }
                                }
                            }
                        }
                        return Err(e);
                    },
                    Ok(mesh) => mesh,
                };
                proof {
                    if !seen {
                        seen = true;
                        first = i as int;
                    }
                }
                let material = match parse_material(buffer, &primitive.material) {
                    Err(e) => {
                        assert(entries@[i as int].primitive is Some && primitive_error(
                            blen,
                            entry_primitive(*graph, entries@[i as int]),
                        ) == Some(e));
                        proof {
                            assert forall|f: int|
                                first_primitive_entry(entries@, f) && pre_cast_error(
                                    blen,
                                    entry_primitive(*graph, #[trigger] entries@[f]),
                                ) is Some implies false by {
                                if f < first {
                                    assert(entries@[f].primitive is None);
                                } else if f > first {
                                    assert(entries@[first].primitive is None);
                                }
                            }
                        }
                        return Err(e);
                    },
                    Ok(material) => material,
                };
                Some((mesh, material))
            },
        };
        nodes.push(
            ModelNode { mesh, node: entry.node, parent_node: entry.parent_node, parent: entry.parent },
        );
        i += 1;
    }
    Ok(nodes)
}

/// Reads the model of a scene graph whose primitives read from the binary chunk `buffer`: the
/// entries of the scenes (see `collect_entries`), each with the mesh and material of its
/// primitive, and the local transforms of all nodes
pub fn build_model(graph: &SceneGraph, buffer: &[u8]) -> (r: Result<Model, GlbError>)
    ensures
        model_outcome(*graph, buffer@, r),
{
    let entries = match collect_entries(graph) {
        Err(e) => return Err(e),
        Ok(entries) => entries,
    };
    let meshes = match read_entries(graph, buffer, &entries) {
        Err(e) => return Err(e),
        Ok(meshes) => meshes,
    };
    let mut transforms: Vec<NodeTransform> = Vec::new();
    let mut k: usize = 0;
    while k < graph.nodes.len()
        invariant
            k <= graph.nodes@.len(),
            transforms@.len() == k,
            forall|j: int| 0 <= j < k ==> #[trigger] transforms@[j] == graph.nodes@[j].transform,
        decreases graph.nodes@.len() - k,
    {
        transforms.push(graph.nodes[k].transform);
        k += 1;
    }
    let model = Model { meshes, transforms };
    proof {
        lemma_build_model_is_model(*graph, buffer@, model);
    }
    Ok(model)
}

/// What reading the model of a scene graph over a binary chunk gives: the error of its
/// entries; otherwise its model, or an error of a primitive or misaligned bytes. It succeeds
/// where no entry stands for a primitive, and where the first entry that does stops before any
/// bytes are cast, it gives that error.
pub open spec fn model_outcome(graph: SceneGraph, buffer: Seq<u8>, r: Result<Model, GlbError>) -> bool {
    match scene_entries(graph) {
        Err(e) => r == Err::<Model, GlbError>(e),
        Ok(entries) => {
            &&& r is Ok ==> is_model_of(graph, buffer, r->Ok_0)
            &&& r is Err ==> r->Err_0 == GlbError::Misaligned || entries_fail_with(
                buffer.len() as int,
                graph,
                entries,
                r->Err_0,
            )
            &&& entries_readable(buffer.len() as int, graph, entries) ==> r is Ok || r == Err::<
                Model,
                GlbError,
            >(GlbError::Misaligned)
            &&& reads_no_primitive(entries) ==> r is Ok
            &&& forall|i: int|
                first_primitive_entry(entries, i) && pre_cast_error(
                    buffer.len() as int,
                    entry_primitive(graph, #[trigger] entries[i]),
                ) is Some ==> r == Err::<Model, GlbError>(
                    pre_cast_error(buffer.len() as int, entry_primitive(graph, entries[i]))->Some_0,
                )
        },
    }
}

/// The model node of each entry of the scene graph, and the transform of each node
pub open spec fn is_model_of(graph: SceneGraph, buffer: Seq<u8>, model: Model) -> bool {
    &&& scene_entries(graph) is Ok
    &&& model.meshes@.len() == scene_entries(graph)->Ok_0.len()
    &&& forall|i: int|
        0 <= i < model.meshes@.len() ==> model_node_matches(
            buffer,
            graph,
            scene_entries(graph)->Ok_0[i],
            #[trigger] model.meshes@[i],
        )
    &&& model.transforms@.len() == graph.nodes@.len()
    &&& forall|k: int|
        0 <= k < graph.nodes@.len() ==> #[trigger] model.transforms@[k]
            == graph.nodes@[k].transform
}

proof fn lemma_build_model_is_model(graph: SceneGraph, buffer: Seq<u8>, model: Model)
    requires
        scene_entries(graph) is Ok,
        model.meshes@.len() == scene_entries(graph)->Ok_0.len(),
        forall|i: int|
            0 <= i < scene_entries(graph)->Ok_0.len() ==> model_node_matches(
                buffer,
                graph,
                scene_entries(graph)->Ok_0[i],
                #[trigger] model.meshes@[i],
            ),
        model.transforms@.len() == graph.nodes@.len(),
        forall|k: int|
            0 <= k < graph.nodes@.len() ==> #[trigger] model.transforms@[k]
                == graph.nodes@[k].transform,
    ensures
        is_model_of(graph, buffer, model),
{
}

#[verifier::external_type_specification]
#[verifier::external_body]
pub struct ExGltf(gltf::Gltf);

/// The JSON chunk and the binary chunk, if there is one, of a binary glTF container, or `None`
/// where the bytes are not one (see `split_glb`)
pub uninterp spec fn glb_chunks(bytes: Seq<u8>) -> Option<(Seq<u8>, Option<Seq<u8>>)>;

/// The little-endian `u32` at `at`
pub open spec fn le_u32(bytes: Seq<u8>, at: int) -> int {
    bytes[at] + bytes[at + 1] * 0x100 + bytes[at + 2] * 0x1_0000 + bytes[at + 3] * 0x100_0000
}

/// Where the bytes start with the `glTF` magic and a whole header, the length that the header
/// gives covers at least the header
pub open spec fn glb_header_length_ok(bytes: Seq<u8>) -> bool {
    bytes.len() >= 12 && bytes[0] == 0x67 && bytes[1] == 0x6C && bytes[2] == 0x54 && bytes[3]
        == 0x46 ==> le_u32(bytes, 8) >= 12
}

/// `gltf::Glb::from_slice`: splits a binary glTF container into its JSON chunk and its binary
/// chunk, if it has one; `None` where the bytes are not such a container. The chunks are named
/// by `glb_chunks`, not stated. A header whose length is under 12 would make the call subtract
/// past zero, so it is left out.
#[verifier::external_body]
fn split_glb(bytes: &[u8]) -> (r: Option<(Vec<u8>, Option<Vec<u8>>)>)
    requires
        glb_header_length_ok(bytes@),
    ensures
        glb_chunks(bytes@) == match r {
            None => None,
            Some(chunks) => Some(
                (
                    chunks.0@,
                    match chunks.1 {
                        None => None,
                        Some(bin) => Some(bin@),
                    },
                ),
            ),
        },
{
    let glb = gltf::Glb::from_slice(bytes).ok()?;
    Some((glb.json.into_owned(), glb.bin.map(|bin| bin.into_owned())))
}

/// A glTF document with the JSON chunk that it was read from; `load_document` makes them
pub struct LoadedDocument {
    document: gltf::Gltf,
    json: Vec<u8>,
}

impl LoadedDocument {
    /// The JSON chunk that the document was read from
    pub closed spec fn source(&self) -> Seq<u8> {
        self.json@
    }
}

/// Whether `gltf::Gltf::from_slice` reads a valid document from the bytes
pub uninterp spec fn gltf_document_valid(json: Seq<u8>) -> bool;

/// The indices of each scene's root nodes, by `Document::scenes` and `Scene::nodes`
pub uninterp spec fn gltf_scene_roots(json: Seq<u8>) -> Seq<Seq<usize>>;

/// The number of nodes, by `Document::nodes`
pub uninterp spec fn gltf_node_count(json: Seq<u8>) -> usize;

/// The children of a node, by `Node::children`; `None` where there is no such node
pub uninterp spec fn gltf_node_children(json: Seq<u8>, node: usize) -> Option<Seq<usize>>;

/// The local transform of a node, by `Node::transform`, as bit patterns
pub uninterp spec fn gltf_node_transform(json: Seq<u8>, node: usize) -> Option<NodeTransform>;

/// The number of primitives of a node's mesh, by `Node::mesh` and `Mesh::primitives`: `None`
/// where there is no such node, `Some(None)` where it has no mesh
pub uninterp spec fn gltf_node_primitive_count(json: Seq<u8>, node: usize) -> Option<Option<usize>>;

/// The accessor index of a primitive's indices, by `Primitive::indices`; `None` where there is
/// no such primitive
pub uninterp spec fn gltf_primitive_indices(
    json: Seq<u8>,
    node: usize,
    primitive: usize,
) -> Option<Option<usize>>;

/// The attributes of a primitive with their accessor indices, by `Primitive::attributes`
pub uninterp spec fn gltf_primitive_attributes(
    json: Seq<u8>,
    node: usize,
    primitive: usize,
) -> Option<Seq<(AttributeSemantic, usize)>>;

/// The base color, roughness and metallic factors and the occlusion strength of a primitive's
/// material, as bit patterns
pub uninterp spec fn gltf_material_factors(
    json: Seq<u8>,
    node: usize,
    primitive: usize,
) -> Option<([u32; 4], u32, u32, Option<u32>)>;

/// The image indices of the normal, base color and metallic-roughness textures of a
/// primitive's material
pub uninterp spec fn gltf_material_images(
    json: Seq<u8>,
    node: usize,
    primitive: usize,
) -> Option<(Option<usize>, Option<usize>, Option<usize>)>;

/// The buffer view, offset and count of an accessor, by `Accessor::view`, `Accessor::offset`
/// and `Accessor::count`
pub uninterp spec fn gltf_accessor_layout(json: Seq<u8>, accessor: usize) -> Option<
    (Option<BufferViewRange>, usize, usize),
>;

/// The component type of an accessor, by `Accessor::data_type`
pub uninterp spec fn gltf_accessor_component(json: Seq<u8>, accessor: usize) -> Option<
    ComponentType,
>;

/// The dimensions of an accessor, by `Accessor::dimensions`
pub uninterp spec fn gltf_accessor_dimensions(json: Seq<u8>, accessor: usize) -> Option<
    AccessorDimensions,
>;

/// The buffer view that an image is stored in; `None` for an image that a URI refers to
pub uninterp spec fn gltf_image_view(json: Seq<u8>, image: usize) -> Option<BufferViewRange>;

/// `gltf::Gltf::from_slice`: the validated document of a JSON chunk, or `None` where it holds
/// none; whether it holds one is named by `gltf_document_valid`. A chunk that itself starts like
/// a binary container is read as one, so its header length has to cover the header.
#[verifier::external_body]
fn load_document(json: Vec<u8>) -> (r: Option<LoadedDocument>)
    requires
        glb_header_length_ok(json@),
    ensures
        r is Some == gltf_document_valid(json@),
        r is Some ==> r->Some_0.source() == json@,
{
    let document = gltf::Gltf::from_slice(&json).ok()?;
    Some(LoadedDocument { document, json })
}

/// `Document::scenes` and `Scene::nodes`: the indices of each scene's root nodes, named by
/// `gltf_scene_roots`
#[verifier::external_body]
fn scene_roots(document: &LoadedDocument) -> (r: Vec<Vec<usize>>)
    ensures
        r@.len() == gltf_scene_roots(document.source()).len(),
        forall|s: int|
            0 <= s < r@.len() ==> #[trigger] r@[s]@ == gltf_scene_roots(document.source())[s],
{
    let scenes = document.document.scenes();
    scenes.map(|scene| scene.nodes().map(|node| node.index()).collect()).collect()
}

/// `Document::nodes`: the number of nodes, named by `gltf_node_count`
#[verifier::external_body]
fn node_count(document: &LoadedDocument) -> (r: usize)
    ensures
        r == gltf_node_count(document.source()),
{
    document.document.nodes().len()
}

/// `Node::children` of the node at an index: the children's indices, named by
/// `gltf_node_children`
#[verifier::external_body]
fn node_children(document: &LoadedDocument, node: usize) -> (r: Option<Vec<usize>>)
    ensures
        gltf_node_children(document.source(), node) == match r {
            None => None,
            Some(v) => Some(v@),
        },
{
    let node = document.document.nodes().nth(node)?;
    Some(node.children().map(|child| child.index()).collect())
}

/// `Node::transform` of the node at an index, as bit patterns, named by `gltf_node_transform`
#[verifier::external_body]
fn node_transform(document: &LoadedDocument, node: usize) -> (r: Option<NodeTransform>)
    ensures
        r == gltf_node_transform(document.source(), node),
{
    Some(match document.document.nodes().nth(node)?.transform() {
        gltf::scene::Transform::Matrix { matrix } => NodeTransform::Matrix(
            matrix.map(|column| column.map(|x| x.to_bits())),
        ),
        gltf::scene::Transform::Decomposed { translation, rotation, scale } => {
            NodeTransform::Decomposed {
                translation: translation.map(|x| x.to_bits()),
                rotation: rotation.map(|x| x.to_bits()),
                scale: scale.map(|x| x.to_bits()),
            }
        },
    })
}

/// `Node::mesh` and `Mesh::primitives` of the node at an index: the number of primitives of its
/// mesh, if it has one, named by `gltf_node_primitive_count`
#[verifier::external_body]
fn node_primitive_count(document: &LoadedDocument, node: usize) -> (r: Option<Option<usize>>)
    ensures
        r == gltf_node_primitive_count(document.source(), node),
{
    let node = document.document.nodes().nth(node)?;
    Some(node.mesh().map(|mesh| mesh.primitives().len()))
}

/// `Primitive::indices` of a primitive of a node's mesh: the index of its index accessor, if it
/// has one, named by `gltf_primitive_indices`
#[verifier::external_body]
fn primitive_indices(document: &LoadedDocument, node: usize, primitive: usize) -> (r: Option<
    Option<usize>,
>)
    ensures
        r == gltf_primitive_indices(document.source(), node, primitive),
{
    let mesh = document.document.nodes().nth(node)?.mesh()?;
    Some(mesh.primitives().nth(primitive)?.indices().map(|accessor| accessor.index()))
}

/// `Primitive::attributes` of a primitive of a node's mesh: its attributes with the indices of
/// their accessors, named by `gltf_primitive_attributes`
#[verifier::external_body]
fn primitive_attributes(document: &LoadedDocument, node: usize, primitive: usize) -> (r: Option<
    Vec<(AttributeSemantic, usize)>,
>)
    ensures
        gltf_primitive_attributes(document.source(), node, primitive) == match r {
            None => None,
            Some(v) => Some(v@),
        },
{
    let primitive = document.document.nodes().nth(node)?.mesh()?.primitives().nth(primitive)?;
    Some(primitive.attributes().map(|(semantic, accessor)| (match semantic {
        gltf::Semantic::Positions => AttributeSemantic::Positions,
        gltf::Semantic::Normals => AttributeSemantic::Normals,
        gltf::Semantic::Tangents => AttributeSemantic::Tangents,
        gltf::Semantic::Colors(set) => AttributeSemantic::Colors(set),
        gltf::Semantic::TexCoords(set) => AttributeSemantic::TexCoords(set),
        gltf::Semantic::Joints(set) => AttributeSemantic::Joints(set),
        gltf::Semantic::Weights(set) => AttributeSemantic::Weights(set),
    }, accessor.index())).collect())
}

/// `Primitive::material` of a primitive of a node's mesh: the base color, roughness and
/// metallic factors of its `pbr_metallic_roughness` and the strength of its occlusion texture,
/// if it has one, as bit patterns; named by `gltf_material_factors`
#[verifier::external_body]
fn material_factors(document: &LoadedDocument, node: usize, primitive: usize) -> (r: Option<
    ([u32; 4], u32, u32, Option<u32>),
>)
    ensures
        r == gltf_material_factors(document.source(), node, primitive),
{
    let primitive = document.document.nodes().nth(node)?.mesh()?.primitives().nth(primitive)?;
    let material = primitive.material();
    let pbr = material.pbr_metallic_roughness();
    let occlusion = material.occlusion_texture().map(|texture| texture.strength().to_bits());
    let color = pbr.base_color_factor().map(|x| x.to_bits());
    Some((color, pbr.roughness_factor().to_bits(), pbr.metallic_factor().to_bits(), occlusion))
}

/// `Primitive::material` of a primitive of a node's mesh: the image indices of its normal
/// texture and of the base color and metallic-roughness textures of its
/// `pbr_metallic_roughness`, where it has them; named by `gltf_material_images`
#[verifier::external_body]
fn material_images(document: &LoadedDocument, node: usize, primitive: usize) -> (r: Option<
    (Option<usize>, Option<usize>, Option<usize>),
>)
    ensures
        r == gltf_material_images(document.source(), node, primitive),
{
    let primitive = document.document.nodes().nth(node)?.mesh()?.primitives().nth(primitive)?;
    let material = primitive.material();
    let pbr = material.pbr_metallic_roughness();
    let normal = material.normal_texture().map(|t| t.texture().source().index());
    let color = pbr.base_color_texture().map(|t| t.texture().source().index());
    let roughness = pbr.metallic_roughness_texture().map(|t| t.texture().source().index());
    Some((normal, color, roughness))
}

/// `Accessor::view` (with `View::offset` and `View::length`), `Accessor::offset` and
/// `Accessor::count` of the accessor at an index, named by `gltf_accessor_layout`
#[verifier::external_body]
fn accessor_layout(document: &LoadedDocument, accessor: usize) -> (r: Option<
    (Option<BufferViewRange>, usize, usize),
>)
    ensures
        r == gltf_accessor_layout(document.source(), accessor),
{
    let accessor = document.document.accessors().nth(accessor)?;
    let view = accessor.view().map(
        |view| BufferViewRange { offset: view.offset(), length: view.length() },
    );
    Some((view, accessor.offset(), accessor.count()))
}

/// `Accessor::data_type` of the accessor at an index, named by `gltf_accessor_component`
#[verifier::external_body]
fn accessor_component(document: &LoadedDocument, accessor: usize) -> (r: Option<ComponentType>)
    ensures
        r == gltf_accessor_component(document.source(), accessor),
{
    Some(match document.document.accessors().nth(accessor)?.data_type() {
        gltf::accessor::DataType::I8 => ComponentType::I8,
        gltf::accessor::DataType::U8 => ComponentType::U8,
        gltf::accessor::DataType::I16 => ComponentType::I16,
        gltf::accessor::DataType::U16 => ComponentType::U16,
        gltf::accessor::DataType::U32 => ComponentType::U32,
        gltf::accessor::DataType::F32 => ComponentType::F32,
    })
}

/// `Accessor::dimensions` of the accessor at an index, named by `gltf_accessor_dimensions`
#[verifier::external_body]
fn accessor_dimensions(document: &LoadedDocument, accessor: usize) -> (r: Option<
    AccessorDimensions,
>)
    ensures
        r == gltf_accessor_dimensions(document.source(), accessor),
{
    Some(match document.document.accessors().nth(accessor)?.dimensions() {
        gltf::accessor::Dimensions::Scalar => AccessorDimensions::Scalar,
        gltf::accessor::Dimensions::Vec2 => AccessorDimensions::Vec2,
        gltf::accessor::Dimensions::Vec3 => AccessorDimensions::Vec3,
        gltf::accessor::Dimensions::Vec4 => AccessorDimensions::Vec4,
        gltf::accessor::Dimensions::Mat2 => AccessorDimensions::Mat2,
        gltf::accessor::Dimensions::Mat3 => AccessorDimensions::Mat3,
        gltf::accessor::Dimensions::Mat4 => AccessorDimensions::Mat4,
    })
}

/// The buffer view (`View::offset`, `View::length`) that an image of the document is stored
/// in, read from the document's JSON as `Image::source` reads it; `None` for an image that a
/// URI refers to. Unlike `Image::source`, this does not require the image to name a MIME type.
/// Named by `gltf_image_view`.
#[verifier::external_body]
fn image_view(document: &LoadedDocument, image: usize) -> (r: Option<BufferViewRange>)
    ensures
        r == gltf_image_view(document.source(), image),
{
    let json = document.document.as_json();
    let view = json.images.get(image).and_then(|image| image.buffer_view)?;
    let view = document.document.views().nth(view.value())?;
    Some(BufferViewRange { offset: view.offset(), length: view.length() })
}

/// The accessor at an index, as the document gives it
pub open spec fn accessor_info_of(json: Seq<u8>, accessor: usize) -> Option<AccessorInfo> {
    match (
        gltf_accessor_layout(json, accessor),
        gltf_accessor_component(json, accessor),
        gltf_accessor_dimensions(json, accessor),
    ) {
        (Some(layout), Some(component), Some(dimensions)) => Some(
            AccessorInfo { view: layout.0, offset: layout.1, count: layout.2, component, dimensions },
        ),
        _ => None,
    }
}

/// The buffer view of a texture's image, where there is a texture
pub open spec fn texture_view_of(json: Seq<u8>, image: Option<usize>) -> Option<BufferViewRange> {
    match image {
        Some(i) => gltf_image_view(json, i),
        None => None,
    }
}

/// The material of a primitive, as the document gives it
pub open spec fn material_info_of(json: Seq<u8>, node: usize, primitive: usize) -> Option<
    MaterialInfo,
> {
    match (
        gltf_material_factors(json, node, primitive),
        gltf_material_images(json, node, primitive),
    ) {
        (Some(f), Some(images)) => Some(
            MaterialInfo {
                base_color_factor: f.0,
                roughness_factor: f.1,
                metallic_factor: f.2,
                occlusion_strength: f.3,
                normal_texture: texture_view_of(json, images.0),
                base_color_texture: texture_view_of(json, images.1),
                metallic_roughness_texture: texture_view_of(json, images.2),
            },
        ),
        _ => None,
    }
}

/// The index accessor of a primitive, as the document gives it: `Some(None)` where it has none
pub open spec fn indices_of(json: Seq<u8>, node: usize, primitive: usize) -> Option<
    Option<AccessorInfo>,
> {
    match gltf_primitive_indices(json, node, primitive) {
        None => None,
        Some(None) => Some(None),
        Some(Some(a)) => match accessor_info_of(json, a) {
            None => None,
            Some(info) => Some(Some(info)),
        },
    }
}

/// Every accessor of the attributes is one that the document gives
pub open spec fn attributes_defined(json: Seq<u8>, described: Seq<(AttributeSemantic, usize)>) -> bool {
    forall|k: int| 0 <= k < described.len() ==> accessor_info_of(json, #[trigger] described[k].1) is Some
}

/// The attributes have the semantics of the described ones and the accessors that the document
/// gives for them
pub open spec fn attributes_match(
    json: Seq<u8>,
    described: Seq<(AttributeSemantic, usize)>,
    attributes: Seq<(AttributeSemantic, AccessorInfo)>,
) -> bool {
    &&& attributes.len() == described.len()
    &&& forall|k: int|
        0 <= k < described.len() ==> #[trigger] attributes[k] == (
            described[k].0,
            accessor_info_of(json, described[k].1)->Some_0,
        )
}

/// The document gives all that is read of a primitive
pub open spec fn primitive_defined(json: Seq<u8>, node: usize, primitive: usize) -> bool {
    &&& indices_of(json, node, primitive) is Some
    &&& gltf_primitive_attributes(json, node, primitive) is Some
    &&& attributes_defined(json, gltf_primitive_attributes(json, node, primitive)->Some_0)
    &&& material_info_of(json, node, primitive) is Some
}

/// The primitive is the one that the document gives
pub open spec fn primitive_matches(
    json: Seq<u8>,
    node: usize,
    primitive: usize,
    info: PrimitiveInfo,
) -> bool {
    &&& indices_of(json, node, primitive) == Some(info.indices)
    &&& gltf_primitive_attributes(json, node, primitive) is Some
    &&& attributes_match(
        json,
        gltf_primitive_attributes(json, node, primitive)->Some_0,
        info.attributes@,
    )
    &&& material_info_of(json, node, primitive) == Some(info.material)
}

/// The document gives all that is read of a node
pub open spec fn node_defined(json: Seq<u8>, node: usize) -> bool {
    &&& gltf_node_children(json, node) is Some
    &&& gltf_node_transform(json, node) is Some
    &&& match gltf_node_primitive_count(json, node) {
        None => false,
        Some(None) => true,
        Some(Some(count)) => forall|p: usize| p < count ==> #[trigger] primitive_defined(json, node, p),
    }
}

/// The node is the one that the document gives
pub open spec fn node_matches(json: Seq<u8>, node: usize, scene_node: SceneNode) -> bool {
    &&& gltf_node_children(json, node) == Some(scene_node.children@)
    &&& gltf_node_transform(json, node) == Some(scene_node.transform)
    &&& match gltf_node_primitive_count(json, node) {
        None => false,
        Some(None) => scene_node.primitives is None,
        Some(Some(count)) => {
            &&& scene_node.primitives is Some
            &&& scene_node.primitives->Some_0@.len() == count
            &&& forall|p: usize|
                p < count ==> #[trigger] primitive_matches(
                    json,
                    node,
                    p,
                    scene_node.primitives->Some_0@[p as int],
                )
        },
    }
}

/// The document gives all that is read of its nodes
pub open spec fn graph_defined(json: Seq<u8>) -> bool {
    forall|n: usize| n < gltf_node_count(json) ==> #[trigger] node_defined(json, n)
}

/// The scene graph is the one that the document gives: its scenes' roots and its nodes
pub open spec fn graph_matches(json: Seq<u8>, graph: SceneGraph) -> bool {
    &&& graph.scenes@.len() == gltf_scene_roots(json).len()
    &&& forall|s: int|
        0 <= s < graph.scenes@.len() ==> #[trigger] graph.scenes@[s]@ == gltf_scene_roots(json)[s]
    &&& graph.nodes@.len() == gltf_node_count(json)
    &&& forall|n: int| 0 <= n < graph.nodes@.len() ==> node_matches(json, n as usize, #[trigger] graph.nodes@[n])
}

/// The accessor at an index, as the document gives it
fn accessor_info(document: &LoadedDocument, accessor: usize) -> (info: Option<AccessorInfo>)
    ensures
        info == accessor_info_of(document.source(), accessor),
{
    let layout = accessor_layout(document, accessor);
    let component = accessor_component(document, accessor);
    let dimensions = accessor_dimensions(document, accessor);
    match (layout, component, dimensions) {
        (Some((view, offset, count)), Some(component), Some(dimensions)) => Some(
            AccessorInfo { view, offset, count, component, dimensions },
        ),
        _ => None,
    }
}

/// The buffer view of a texture's image, where there is a texture
fn texture_view(document: &LoadedDocument, image: Option<usize>) -> (view: Option<BufferViewRange>)
    ensures
        view == texture_view_of(document.source(), image),
{
    match image {
        None => None,
        Some(image) => image_view(document, image),
    }
}

/// A primitive of a node's mesh, as the document gives it; `None` where it does not give all
/// that is read of it
fn primitive_info(document: &LoadedDocument, node: usize, primitive: usize) -> (info: Option<
    PrimitiveInfo,
>)
    ensures
        info is Some == primitive_defined(document.source(), node, primitive),
        info is Some ==> primitive_matches(document.source(), node, primitive, info->Some_0),
{
    let ghost json = document.source();
    let indices = match primitive_indices(document, node, primitive) {
        None => return None,
        Some(None) => None,
        Some(Some(accessor)) => match accessor_info(document, accessor) {
            None => return None,
            Some(info) => Some(info),
        },
    };
    let described = match primitive_attributes(document, node, primitive) {
        None => return None,
        Some(described) => described,
    };
    let mut attributes: Vec<(AttributeSemantic, AccessorInfo)> = Vec::new();
    let mut i: usize = 0;
    while i < described.len()
        invariant
            json == document.source(),
            gltf_primitive_attributes(json, node, primitive) == Some(described@),
            i <= described@.len(),
            attributes_match(json, described@.take(i as int), attributes@),
            attributes_defined(json, described@.take(i as int)),
        decreases described@.len() - i,
    {
        let (semantic, accessor) = described[i];
        let info = match accessor_info(document, accessor) {
            None => {
                proof {
                    assert(described@[i as int].1 == accessor);
                    assert(accessor_info_of(json, described@[i as int].1) is None);
                    assert(!attributes_defined(json, described@));
                }
                return None;
            },
            Some(info) => info,
        };
        attributes.push((semantic, info));
        i += 1;
        proof {
            assert forall|k: int| 0 <= k < described@.take(i as int).len() implies accessor_info_of(
                json,
                #[trigger] described@.take(i as int)[k].1,
            ) is Some by {
                if k < i - 1 {
                    assert(described@.take(i as int)[k] == described@.take(i - 1)[k]);
                }
            }
        }
    }
    proof {
        assert(described@.take(i as int) == described@);
    }
    let (base_color_factor, roughness_factor, metallic_factor, occlusion_strength) =
        match material_factors(document, node, primitive) {
        None => return None,
        Some(factors) => factors,
    };
    let (normal, base_color, metallic_roughness) = match material_images(
        document,
        node,
        primitive,
    ) {
        None => return None,
        Some(images) => images,
    };
    let material = MaterialInfo {
        base_color_factor,
        roughness_factor,
        metallic_factor,
        occlusion_strength,
        normal_texture: texture_view(document, normal),
        base_color_texture: texture_view(document, base_color),
        metallic_roughness_texture: texture_view(document, metallic_roughness),
    };
    Some(PrimitiveInfo { indices, attributes, material })
}

/// A node, as the document gives it; `None` where it does not give all that is read of it
fn node_info(document: &LoadedDocument, node: usize) -> (info: Option<SceneNode>)
    ensures
        info is Some == node_defined(document.source(), node),
        info is Some ==> node_matches(document.source(), node, info->Some_0),
{
    let ghost json = document.source();
    let children = match node_children(document, node) {
        None => return None,
        Some(children) => children,
    };
    let transform = match node_transform(document, node) {
        None => return None,
        Some(transform) => transform,
    };
    let primitives = match node_primitive_count(document, node) {
        None => return None,
        Some(None) => None,
        Some(Some(count)) => {
            let mut primitives: Vec<PrimitiveInfo> = Vec::new();
            let mut k: usize = 0;
            while k < count
                invariant
                    json == document.source(),
                    gltf_node_primitive_count(json, node) == Some(Some(count)),
                    k <= count,
                    primitives@.len() == k,
                    forall|p: usize| p < k ==> #[trigger] primitive_defined(json, node, p),
                    forall|p: usize|
                        p < k ==> #[trigger] primitive_matches(json, node, p, primitives@[p as int]),
                decreases count - k,
            {
                let info = match primitive_info(document, node, k) {
                    None => {
                        assert(!primitive_defined(json, node, k));
                        return None;
                    },
                    Some(info) => info,
                };
                let ghost before = primitives@;
                primitives.push(info);
                k += 1;
                proof {
                    assert forall|p: usize| p < k implies #[trigger] primitive_matches(
                        json,
                        node,
                        p,
                        primitives@[p as int],
                    ) by {
                        if p < k - 1 {
                            assert(primitives@[p as int] == before[p as int]);
                        }
                    }
                }
            }
            Some(primitives)
        },
    };
    Some(SceneNode { children, transform, primitives })
}

/// The scenes and nodes of the document; `None` where it does not give all that is read of them
fn scene_graph(document: &LoadedDocument) -> (graph: Option<SceneGraph>)
    ensures
        graph is Some == graph_defined(document.source()),
        graph is Some ==> graph_matches(document.source(), graph->Some_0),
{
    let ghost json = document.source();
    let scenes = scene_roots(document);
    let count = node_count(document);
    let mut nodes: Vec<SceneNode> = Vec::new();
    let mut n: usize = 0;
    while n < count
        invariant
            json == document.source(),
            count == gltf_node_count(json),
            n <= count,
            nodes@.len() == n,
            forall|m: usize| m < n ==> #[trigger] node_defined(json, m),
            forall|m: int| 0 <= m < n ==> node_matches(json, m as usize, #[trigger] nodes@[m]),
        decreases count - n,
    {
        let node = match node_info(document, n) {
            None => return None,
            Some(node) => node,
        };
        nodes.push(node);
        n += 1;
    }
    Some(SceneGraph { scenes, nodes })
}

/// Whether the container's header is one that the container reader takes (see
/// `glb_header_length_ok`)
fn header_length_ok(bytes: &[u8]) -> (ok: bool)
    ensures
        ok == glb_header_length_ok(bytes@),
{
    if bytes.len() < 12 || bytes[0] != 0x67 || bytes[1] != 0x6C || bytes[2] != 0x54 || bytes[3]
        != 0x46 {
        return true;
    }
    bytes[9] != 0 || bytes[10] != 0 || bytes[11] != 0 || bytes[8] >= 12
}

/// What reading a model from the bytes of a binary glTF file gives: an invalid container or
/// document is an error, so is a file without a binary chunk; otherwise the outcome of reading
/// the model (see `model_outcome`) of the scene graph that the document gives over the binary
/// chunk
pub open spec fn glb_outcome(bytes: Seq<u8>, r: Result<Model, GlbError>) -> bool {
    if !glb_header_length_ok(bytes) || glb_chunks(bytes) is None {
        r == Err::<Model, GlbError>(GlbError::InvalidContainer)
    } else {
        let json = glb_chunks(bytes)->Some_0.0;
        let bin = glb_chunks(bytes)->Some_0.1;
        if !glb_header_length_ok(json) || !gltf_document_valid(json) {
            r == Err::<Model, GlbError>(GlbError::InvalidDocument)
        } else if bin is None {
            r == Err::<Model, GlbError>(GlbError::MissingBinaryChunk)
        } else if !graph_defined(json) {
            r == Err::<Model, GlbError>(GlbError::InvalidDocument)
        } else {
            exists|graph: SceneGraph|
                graph_matches(json, graph) && model_outcome(graph, bin->Some_0, r)
        }
    }
}

/// Reads a model from the bytes of a binary glTF file: the container's chunks, the document of
/// its JSON chunk, and the meshes and materials of the document's scenes from its binary chunk
/// (see `build_model`)
pub fn parse_glb(bytes: &[u8]) -> (r: Result<Model, GlbError>)
    ensures
        glb_outcome(bytes@, r),
{
    if !header_length_ok(bytes) {
        return Err(GlbError::InvalidContainer);
    }
    let (json, bin) = match split_glb(bytes) {
        None => return Err(GlbError::InvalidContainer),
        Some(chunks) => chunks,
    };
    if !header_length_ok(json.as_slice()) {
        return Err(GlbError::InvalidDocument);
    }
    let ghost json_view = json@;
    let document = match load_document(json) {
        None => return Err(GlbError::InvalidDocument),
        Some(document) => document,
    };
    let buffer = match bin {
        None => return Err(GlbError::MissingBinaryChunk),
        Some(buffer) => buffer,
    };
    let graph = match scene_graph(&document) {
        None => return Err(GlbError::InvalidDocument),
        Some(graph) => graph,
    };
    let r = build_model(&graph, buffer.as_slice());
    proof {
        assert(graph_matches(json_view, graph) && model_outcome(graph, buffer@, r));
    }
    r
}

impl Model {
    /// Reads a model from the bytes of a binary glTF file (see `parse_glb`)
    pub fn from_glb_bytes(bytes: &[u8]) -> (r: Result<Model, GlbError>)
        ensures
            glb_outcome(bytes@, r),
    {
        parse_glb(bytes)
    }
}

/// The source of a texture of one RGBA pixel
pub open spec fn is_single_pixel(source: TextureSource, pixel: [u8; 4]) -> bool {
    match source {
        TextureSource::RawBytes { width, height, format, bytes } => {
            &&& width == 1
            &&& height == 1
            &&& format == TextureFormat::Rgba8Unorm
            &&& bytes@ == pixel@
        },
        TextureSource::FormattedBytes(_) => false,
    }
}

/// The source of a texture of the encoded image
pub open spec fn is_image(source: TextureSource, encoded: Seq<u8>) -> bool {
    match source {
        TextureSource::FormattedBytes(bytes) => bytes@ == encoded,
        TextureSource::RawBytes { .. } => false,
    }
}

/// A texture of one RGBA pixel
pub fn single_pixel(pixel: [u8; 4]) -> (source: TextureSource)
    ensures
        is_single_pixel(source, pixel),
{
    let bytes = vec![pixel[0], pixel[1], pixel[2], pixel[3]];
    assert(bytes@ == pixel@);
    TextureSource::RawBytes { width: 1, height: 1, format: TextureFormat::Rgba8Unorm, bytes }
}

/// The pixel of a normal map that leaves surfaces as they are
pub fn flat_normal_pixel() -> (pixel: [u8; 4])
    ensures
        pixel == [128u8, 128, 255, 128],
{
    [128, 128, 255, 128]
}

/// The texture of a material's image, or of a single pixel where it has none
fn image_or_pixel(image: &Option<Vec<u8>>, pixel: [u8; 4]) -> (source: TextureSource)
    ensures
        match image {
            Some(encoded) => is_image(source, encoded@),
            None => is_single_pixel(source, pixel),
        },
{
    match image {
        Some(encoded) => TextureSource::FormattedBytes(encoded.clone()),
        None => single_pixel(pixel),
    }
}

/// The albedo, normal and roughness textures of a material: its images where it has them;
/// otherwise a pixel of its color, a flat normal, and a pixel of its occlusion, roughness and
/// metalness (`color_pixel` and `roughness_pixel`, its factors scaled to bytes)
pub fn material_texture_sources(
    material: &Material,
    color_pixel: [u8; 4],
    roughness_pixel: [u8; 4],
) -> (sources: (TextureSource, TextureSource, TextureSource))
    ensures
        match material.albedo {
            Some(encoded) => is_image(sources.0, encoded@),
            None => is_single_pixel(sources.0, color_pixel),
        },
        match material.normal {
            Some(encoded) => is_image(sources.1, encoded@),
            None => is_single_pixel(sources.1, [128u8, 128, 255, 128]),
        },
        match material.roughness {
            Some(encoded) => is_image(sources.2, encoded@),
            None => is_single_pixel(sources.2, roughness_pixel),
        },
{
    let albedo = image_or_pixel(&material.albedo, color_pixel);
    let normal = image_or_pixel(&material.normal, flat_normal_pixel());
    let roughness = image_or_pixel(&material.roughness, roughness_pixel);
    (albedo, normal, roughness)
}

/// Each entry's parent index is at most its position (counted from `base`), and its parent node
/// is a node that has its node among its children, or, for an entry without one, its node is
/// among `roots`
pub open spec fn entries_linked(
    graph: SceneGraph,
    roots: Seq<usize>,
    entries: Seq<NodeEntry>,
    base: int,
) -> bool {
    forall|j: int|
        0 <= j < entries.len() ==> {
            &&& (#[trigger] entries[j]).parent <= base + j
            &&& match entries[j].parent_node {
                Some(p) => p < graph.nodes@.len() && graph.nodes@[p as int].children@.contains(
                    entries[j].node,
                ),
                None => roots.contains(entries[j].node),
            }
        }
}

proof fn lemma_node_entries_linked(
    graph: SceneGraph,
    roots: Seq<usize>,
    node: usize,
    parent: usize,
    parent_node: Option<usize>,
    base: int,
    fuel: nat,
)
    requires
        parent <= base,
        parent_node is Some ==> parent_node->Some_0 < graph.nodes@.len()
            && graph.nodes@[parent_node->Some_0 as int].children@.contains(node),
        parent_node is None ==> roots.contains(node),
    ensures
        node_entries(graph, node, parent, parent_node, base, fuel) is Ok && base + node_entries(
            graph,
            node,
            parent,
            parent_node,
            base,
            fuel,
        )->Ok_0.len() <= usize::MAX ==> entries_linked(
            graph,
            roots,
            node_entries(graph, node, parent, parent_node, base, fuel)->Ok_0,
            base,
        ),
    decreases fuel, 0nat,
{
    if node < graph.nodes@.len() && fuel > 0 {
        let own = own_entries(graph, node, parent, parent_node);
        let children = graph.nodes@[node as int].children@;
        assert forall|k: int| 0 <= k < children.len() implies graph.nodes@[node as int].children@.contains(
            #[trigger] children[k],
        ) by {}
        lemma_children_entries_linked(
            graph,
            roots,
            children,
            base as usize,
            Some(node),
            base + own.len(),
            (fuel - 1) as nat,
        );
        let result = node_entries(graph, node, parent, parent_node, base, fuel);
        if result is Ok && base + result->Ok_0.len() <= usize::MAX {
            let rest = children_entries(
                graph,
                children,
                base as usize,
                Some(node),
                base + own.len(),
                (fuel - 1) as nat,
            )->Ok_0;
            assert(result->Ok_0 == own + rest);
            assert forall|j: int| 0 <= j < result->Ok_0.len() implies {
                &&& (#[trigger] result->Ok_0[j]).parent <= base + j
                &&& match result->Ok_0[j].parent_node {
                    Some(p) => p < graph.nodes@.len() && graph.nodes@[p as int].children@.contains(
                        result->Ok_0[j].node,
                    ),
                    None => roots.contains(result->Ok_0[j].node),
                }
            } by {
                if j >= own.len() {
                    assert(result->Ok_0[j] == rest[j - own.len()]);
                } else {
                    assert(result->Ok_0[j] == own[j]);
                }
            }
        }
    }
}

proof fn lemma_children_entries_linked(
    graph: SceneGraph,
    roots: Seq<usize>,
    children: Seq<usize>,
    parent: usize,
    parent_node: Option<usize>,
    base: int,
    fuel: nat,
)
    requires
        parent <= base,
        parent_node is Some ==> parent_node->Some_0 < graph.nodes@.len() && forall|k: int|
            0 <= k < children.len() ==> graph.nodes@[parent_node->Some_0 as int].children@.contains(
                #[trigger] children[k],
            ),
        parent_node is None ==> forall|k: int| 0 <= k < children.len() ==> roots.contains(
            #[trigger] children[k],
        ),
    ensures
        children_entries(graph, children, parent, parent_node, base, fuel) is Ok && base
            + children_entries(graph, children, parent, parent_node, base, fuel)->Ok_0.len()
            <= usize::MAX ==> entries_linked(
            graph,
            roots,
            children_entries(graph, children, parent, parent_node, base, fuel)->Ok_0,
            base,
        ),
    decreases fuel, children.len() + 1,
{
    if children.len() > 0 {
        lemma_node_entries_linked(graph, roots, children[0], parent, parent_node, base, fuel);
        let first = node_entries(graph, children[0], parent, parent_node, base, fuel);
        if first is Ok {
            let tail = children.drop_first();
            assert forall|k: int| 0 <= k < tail.len() implies tail[k] == children[k + 1] by {}
            lemma_children_entries_linked(
                graph,
                roots,
                tail,
                parent,
                parent_node,
                base + first->Ok_0.len(),
                fuel,
            );
            let result = children_entries(graph, children, parent, parent_node, base, fuel);
            if result is Ok && base + result->Ok_0.len() <= usize::MAX {
                let f = first->Ok_0;
                let rest = children_entries(
                    graph,
                    tail,
                    parent,
                    parent_node,
                    base + f.len(),
                    fuel,
                )->Ok_0;
                assert(result->Ok_0 == f + rest);
                assert forall|j: int| 0 <= j < result->Ok_0.len() implies {
                    &&& (#[trigger] result->Ok_0[j]).parent <= base + j
                    &&& match result->Ok_0[j].parent_node {
                        Some(p) => p < graph.nodes@.len() && graph.nodes@[p as int].children@.contains(
                            result->Ok_0[j].node,
                        ),
                        None => roots.contains(result->Ok_0[j].node),
                    }
                } by {
                    if j >= f.len() {
                        assert(result->Ok_0[j] == rest[j - f.len()]);
                    } else {
                        assert(result->Ok_0[j] == f[j]);
                    }
                }
            }
        }
    }
}

/// In the entries of a model, an entry's parent comes no later than the entry itself, and an
/// entry with a parent node is one of that node's children; one without is a root of a scene.
/// (Entries fit in memory: there are at most `usize::MAX` of them.)
pub proof fn entries_follow_the_hierarchy(graph: SceneGraph)
    requires
        scene_entries(graph) is Ok,
        scene_entries(graph)->Ok_0.len() <= usize::MAX,
    ensures
        entries_linked(graph, all_roots(graph.scenes@), scene_entries(graph)->Ok_0, 0),
{
    let roots = all_roots(graph.scenes@);
    assert forall|k: int| 0 <= k < roots.len() implies roots.contains(#[trigger] roots[k]) by {}
    lemma_children_entries_linked(graph, roots, roots, 0, None, 0, graph.nodes@.len());
}

} // verus!
