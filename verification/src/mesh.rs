use crate::vertex::{is_dense_layout, VertexBufferLayout, VertexFormat, VertexStepMode};
use vstd::prelude::*;

verus! {

/// How vertices are assembled into primitives
#[derive(Clone, Copy, Debug, PartialEq, Eq, Structural)]
pub enum PrimitiveTopology {
    PointList,
    LineList,
    LineStrip,
    TriangleList,
    TriangleStrip,
}

#[derive(Clone, Copy, Debug, PartialEq, Eq, Hash, PartialOrd, Ord, Structural)]
pub enum VertexAttributeId {
    Position,
    Normal,
    Tangent,
    Uv(u32),
    Color(u32),
}

/// Position of an attribute id in the order of the ids: by variant, then by index
pub open spec fn attribute_key(id: VertexAttributeId) -> int {
    match id {
        VertexAttributeId::Position => 0,
        VertexAttributeId::Normal => 0x1_0000_0000,
        VertexAttributeId::Tangent => 0x2_0000_0000,
        VertexAttributeId::Uv(i) => 0x3_0000_0000 + i,
        VertexAttributeId::Color(i) => 0x4_0000_0000 + i,
    }
}

/// Vertex format that an attribute is stored in
pub open spec fn attribute_format(id: VertexAttributeId) -> VertexFormat {
    match id {
        VertexAttributeId::Position => VertexFormat::Float32x3,
        VertexAttributeId::Normal => VertexFormat::Float32x3,
        VertexAttributeId::Tangent => VertexFormat::Float32x4,
        VertexAttributeId::Uv(_) => VertexFormat::Float32x2,
        VertexAttributeId::Color(_) => VertexFormat::Float32x3,
    }
}

proof fn lemma_key_injective(a: VertexAttributeId, b: VertexAttributeId)
    ensures
        attribute_key(a) == attribute_key(b) <==> a == b,
{
}

impl VertexAttributeId {
    pub fn format(&self) -> (format: VertexFormat)
        ensures
            format == attribute_format(*self),
    {
        match self {
            VertexAttributeId::Position => VertexFormat::Float32x3,
            VertexAttributeId::Normal => VertexFormat::Float32x3,
            VertexAttributeId::Tangent => VertexFormat::Float32x4,
            VertexAttributeId::Uv(_) => VertexFormat::Float32x2,
            VertexAttributeId::Color(_) => VertexFormat::Float32x3,
        }
    }

    /// Whether `self` comes before `other` in the order of attribute ids
    pub fn precedes(&self, other: &VertexAttributeId) -> (before: bool)
        ensures
            before == (attribute_key(*self) < attribute_key(*other)),
    {
        let (rank_a, index_a): (u8, u32) = match self {
            VertexAttributeId::Position => (0, 0),
            VertexAttributeId::Normal => (1, 0),
            VertexAttributeId::Tangent => (2, 0),
            VertexAttributeId::Uv(i) => (3, *i),
            VertexAttributeId::Color(i) => (4, *i),
        };
        let (rank_b, index_b): (u8, u32) = match other {
            VertexAttributeId::Position => (0, 0),
            VertexAttributeId::Normal => (1, 0),
            VertexAttributeId::Tangent => (2, 0),
            VertexAttributeId::Uv(i) => (3, *i),
            VertexAttributeId::Color(i) => (4, *i),
        };
        rank_a < rank_b || (rank_a == rank_b && index_a < index_b)
    }
}

/// Values of one vertex attribute, one element per vertex.
///
/// Components of the float variants are held as their IEEE 754 bit patterns.
#[derive(Clone, Debug)]
pub enum VertexAttributeValues {
    Float32(Vec<u32>),
    Float32x2(Vec<[u32; 2]>),
    Float32x3(Vec<[u32; 3]>),
    Float32x4(Vec<[u32; 4]>),
    Uint32(Vec<u32>),
    Uint32x2(Vec<[u32; 2]>),
    Uint32x3(Vec<[u32; 3]>),
    Uint32x4(Vec<[u32; 4]>),
    Sint32(Vec<i32>),
    Sint32x2(Vec<[i32; 2]>),
    Sint32x3(Vec<[i32; 3]>),
    Sint32x4(Vec<[i32; 4]>),
}

/// Number of vertices that the values hold
pub open spec fn values_len(values: VertexAttributeValues) -> nat {
    match values {
        VertexAttributeValues::Float32(v) => v@.len(),
        VertexAttributeValues::Float32x2(v) => v@.len(),
        VertexAttributeValues::Float32x3(v) => v@.len(),
        VertexAttributeValues::Float32x4(v) => v@.len(),
        VertexAttributeValues::Uint32(v) => v@.len(),
        VertexAttributeValues::Uint32x2(v) => v@.len(),
        VertexAttributeValues::Uint32x3(v) => v@.len(),
        VertexAttributeValues::Uint32x4(v) => v@.len(),
        VertexAttributeValues::Sint32(v) => v@.len(),
        VertexAttributeValues::Sint32x2(v) => v@.len(),
        VertexAttributeValues::Sint32x3(v) => v@.len(),
        VertexAttributeValues::Sint32x4(v) => v@.len(),
    }
}

/// Number of bytes that one vertex takes in the values
pub open spec fn element_size(values: VertexAttributeValues) -> nat {
    match values {
        VertexAttributeValues::Float32(_) => 4,
        VertexAttributeValues::Float32x2(_) => 8,
        VertexAttributeValues::Float32x3(_) => 12,
        VertexAttributeValues::Float32x4(_) => 16,
        VertexAttributeValues::Uint32(_) => 4,
        VertexAttributeValues::Uint32x2(_) => 8,
        VertexAttributeValues::Uint32x3(_) => 12,
        VertexAttributeValues::Uint32x4(_) => 16,
        VertexAttributeValues::Sint32(_) => 4,
        VertexAttributeValues::Sint32x2(_) => 8,
        VertexAttributeValues::Sint32x3(_) => 12,
        VertexAttributeValues::Sint32x4(_) => 16,
    }
}

/// Number of bytes that the values take
pub open spec fn values_byte_len(values: VertexAttributeValues) -> nat {
    values_len(values) * element_size(values)
}

/// The four bytes of a word: least significant first where `little`, else most significant first
pub open spec fn word_bytes(word: u32, little: bool) -> Seq<u8> {
    let b0 = (word % 256) as u8;
    let b1 = ((word / 256) % 256) as u8;
    let b2 = ((word / 65536) % 256) as u8;
    let b3 = (word / 16777216) as u8;
    if little {
        seq![b0, b1, b2, b3]
    } else {
        seq![b3, b2, b1, b0]
    }
}

/// The bytes of words, one word after the other, all in one byte order
pub open spec fn words_bytes(words: Seq<u32>, little: bool) -> Seq<u8> {
    Seq::new((4 * words.len()) as nat, |k: int| word_bytes(words[k / 4], little)[k % 4])
}

/// The elements of arrays, one array after the other
pub open spec fn flat_seq<T, const N: usize>(arrays: Seq<[T; N]>) -> Seq<T> {
    Seq::new((arrays.len() * N) as nat, |k: int| arrays[k / (N as int)]@[k % (N as int)])
}

/// The bits of signed words
pub open spec fn signed_words(words: Seq<i32>) -> Seq<u32> {
    words.map_values(|w: i32| w as u32)
}

/// The words of the values: vertex after vertex, the components of each in order, signed ones
/// by their two's complement bits
pub open spec fn values_words(values: VertexAttributeValues) -> Seq<u32> {
    match values {
        VertexAttributeValues::Float32(v) => v@,
        VertexAttributeValues::Float32x2(v) => flat_seq(v@),
        VertexAttributeValues::Float32x3(v) => flat_seq(v@),
        VertexAttributeValues::Float32x4(v) => flat_seq(v@),
        VertexAttributeValues::Uint32(v) => v@,
        VertexAttributeValues::Uint32x2(v) => flat_seq(v@),
        VertexAttributeValues::Uint32x3(v) => flat_seq(v@),
        VertexAttributeValues::Uint32x4(v) => flat_seq(v@),
        VertexAttributeValues::Sint32(v) => signed_words(v@),
        VertexAttributeValues::Sint32x2(v) => signed_words(flat_seq(v@)),
        VertexAttributeValues::Sint32x3(v) => signed_words(flat_seq(v@)),
        VertexAttributeValues::Sint32x4(v) => signed_words(flat_seq(v@)),
    }
}

/// The bytes of the values in memory: their words, in the byte order of the machine, which is
/// one of the two
pub open spec fn values_in_memory(values: VertexAttributeValues, bytes: Seq<u8>) -> bool {
    bytes == words_bytes(values_words(values), true) || bytes == words_bytes(values_words(values), false)
}

impl VertexAttributeValues {
    pub fn len(&self) -> (len: usize)
        ensures
            len == values_len(*self),
    {
        match self {
            VertexAttributeValues::Float32(vec) => vec.len(),
            VertexAttributeValues::Float32x2(vec) => vec.len(),
            VertexAttributeValues::Float32x3(vec) => vec.len(),
            VertexAttributeValues::Float32x4(vec) => vec.len(),
            VertexAttributeValues::Uint32(vec) => vec.len(),
            VertexAttributeValues::Uint32x2(vec) => vec.len(),
            VertexAttributeValues::Uint32x3(vec) => vec.len(),
            VertexAttributeValues::Uint32x4(vec) => vec.len(),
            VertexAttributeValues::Sint32(vec) => vec.len(),
            VertexAttributeValues::Sint32x2(vec) => vec.len(),
            VertexAttributeValues::Sint32x3(vec) => vec.len(),
            VertexAttributeValues::Sint32x4(vec) => vec.len(),
        }
    }

    pub fn is_empty(&self) -> (empty: bool)
        ensures
            empty == (values_len(*self) == 0),
    {
        self.len() == 0
    }

    /// Number of bytes of the values
    fn byte_len(&self) -> (n: u64)
        requires
            values_byte_len(*self) <= u64::MAX,
        ensures
            n == values_byte_len(*self),
    {
        let size: u64 = match self {
            VertexAttributeValues::Float32(_) => 4,
            VertexAttributeValues::Float32x2(_) => 8,
            VertexAttributeValues::Float32x3(_) => 12,
            VertexAttributeValues::Float32x4(_) => 16,
            VertexAttributeValues::Uint32(_) => 4,
            VertexAttributeValues::Uint32x2(_) => 8,
            VertexAttributeValues::Uint32x3(_) => 12,
            VertexAttributeValues::Uint32x4(_) => 16,
            VertexAttributeValues::Sint32(_) => 4,
            VertexAttributeValues::Sint32x2(_) => 8,
            VertexAttributeValues::Sint32x3(_) => 12,
            VertexAttributeValues::Sint32x4(_) => 16,
        };
        assert(size == element_size(*self));
        (self.len() as u64) * size
    }

    /// The values as raw bytes, in the byte order of the machine
    pub fn as_bytes(&self) -> (bytes: &[u8])
        requires
            values_byte_len(*self) <= usize::MAX,
        ensures
            bytes@.len() == values_byte_len(*self),
            values_in_memory(*self, bytes@),
    {
        match self {
            VertexAttributeValues::Float32(vec) => words_as_bytes(vec.as_slice()),
            VertexAttributeValues::Float32x2(vec) => words_as_bytes(flatten(vec.as_slice())),
            VertexAttributeValues::Float32x3(vec) => words_as_bytes(flatten(vec.as_slice())),
            VertexAttributeValues::Float32x4(vec) => words_as_bytes(flatten(vec.as_slice())),
            VertexAttributeValues::Uint32(vec) => words_as_bytes(vec.as_slice()),
            VertexAttributeValues::Uint32x2(vec) => words_as_bytes(flatten(vec.as_slice())),
            VertexAttributeValues::Uint32x3(vec) => words_as_bytes(flatten(vec.as_slice())),
            VertexAttributeValues::Uint32x4(vec) => words_as_bytes(flatten(vec.as_slice())),
            VertexAttributeValues::Sint32(vec) => signed_as_bytes(vec.as_slice()),
            VertexAttributeValues::Sint32x2(vec) => signed_as_bytes(flatten(vec.as_slice())),
            VertexAttributeValues::Sint32x3(vec) => signed_as_bytes(flatten(vec.as_slice())),
            VertexAttributeValues::Sint32x4(vec) => signed_as_bytes(flatten(vec.as_slice())),
        }
    }
}

/// `<[[T; N]]>::as_flattened`: the elements of the arrays, one array after the other. The call
/// panics where their number overflows `usize`, so that is left out.
#[verifier::external_body]
fn flatten<T, const N: usize>(arrays: &[[T; N]]) -> (flat: &[T])
    requires
        arrays@.len() * N <= usize::MAX,
    ensures
        flat@ == flat_seq(arrays@),
{
    arrays.as_flattened()
}

/// `bytemuck::cast_slice` from `u32` to bytes: the memory of the slice viewed as bytes, each
/// word's bytes in the machine's byte order, which is little or big endian
#[verifier::external_body]
fn words_as_bytes(values: &[u32]) -> (bytes: &[u8])
    ensures
        bytes@ == words_bytes(values@, true) || bytes@ == words_bytes(values@, false),
{
    bytemuck::cast_slice(values)
}

/// `bytemuck::cast_slice` from `i32` to bytes: as for `u32`, of each word's two's complement
/// bits
#[verifier::external_body]
fn signed_as_bytes(values: &[i32]) -> (bytes: &[u8])
    ensures
        bytes@ == words_bytes(signed_words(values@), true) || bytes@ == words_bytes(
            signed_words(values@),
            false,
        ),
{
    bytemuck::cast_slice(values)
}

/// The entries are in strictly increasing order of their attribute ids
pub open spec fn sorted_entries(entries: Seq<(VertexAttributeId, VertexAttributeValues)>) -> bool {
    forall|i: int, j: int|
        0 <= i < j < entries.len() ==> attribute_key(#[trigger] entries[i].0) < attribute_key(
            #[trigger] entries[j].0,
        )
}

/// The map from attribute id to values that a sequence of entries holds
pub open spec fn entries_map(entries: Seq<(VertexAttributeId, VertexAttributeValues)>) -> Map<
    VertexAttributeId,
    VertexAttributeValues,
> {
    Map::new(
        |id: VertexAttributeId| exists|i: int| 0 <= i < entries.len() && entries[i].0 == id,
        |id: VertexAttributeId|
            entries[choose|i: int| 0 <= i < entries.len() && entries[i].0 == id].1,
    )
}

proof fn lemma_entries_map_at(entries: Seq<(VertexAttributeId, VertexAttributeValues)>, i: int)
    requires
        sorted_entries(entries),
        0 <= i < entries.len(),
    ensures
        entries_map(entries).contains_key(entries[i].0),
        entries_map(entries)[entries[i].0] == entries[i].1,
{
    let id = entries[i].0;
    assert(exists|k: int| 0 <= k < entries.len() && entries[k].0 == id);
    let k = choose|k: int| 0 <= k < entries.len() && entries[k].0 == id;
    if k < i {
        assert(attribute_key(entries[k].0) < attribute_key(entries[i].0));
    } else if k > i {
        assert(attribute_key(entries[i].0) < attribute_key(entries[k].0));
    }
}

/// Writing `(id, values)` at `pos`, in place of an entry of `id` or between the others,
/// inserts into the map of the entries.
proof fn lemma_map_after_write(
    old_entries: Seq<(VertexAttributeId, VertexAttributeValues)>,
    new_entries: Seq<(VertexAttributeId, VertexAttributeValues)>,
    pos: int,
    id: VertexAttributeId,
    values: VertexAttributeValues,
    shifted: bool,
)
    requires
        sorted_entries(old_entries),
        sorted_entries(new_entries),
        0 <= pos < new_entries.len(),
        new_entries[pos] == (id, values),
        shifted ==> {
            &&& new_entries.len() == old_entries.len() + 1
            &&& forall|i: int| 0 <= i < pos ==> new_entries[i] == old_entries[i]
            &&& forall|i: int| pos < i < new_entries.len() ==> new_entries[i] == old_entries[i - 1]
            &&& forall|j: int| 0 <= j < old_entries.len() ==> old_entries[j].0 != id
        },
        !shifted ==> {
            &&& new_entries.len() == old_entries.len()
            &&& forall|i: int| 0 <= i < new_entries.len() && i != pos ==> new_entries[i] == old_entries[i]
            &&& old_entries[pos].0 == id
        },
    ensures
        entries_map(new_entries) =~= entries_map(old_entries).insert(id, values),
{
    let nm = entries_map(new_entries);
    let om = entries_map(old_entries);
    lemma_entries_map_at(new_entries, pos);
    assert forall|k: VertexAttributeId| nm.contains_key(k) <==> #[trigger] om.insert(id, values).contains_key(k) by {
        if nm.contains_key(k) && k != id {
            let i = choose|i: int| 0 <= i < new_entries.len() && new_entries[i].0 == k;
            let j = if shifted && i > pos { i - 1 } else { i };
            assert(old_entries[j].0 == k);
        }
        if om.contains_key(k) && k != id {
            let j = choose|j: int| 0 <= j < old_entries.len() && old_entries[j].0 == k;
            let i = if shifted && j >= pos { j + 1 } else { j };
            assert(new_entries[i].0 == k);
        }
    }
    assert forall|k: VertexAttributeId| nm.contains_key(k) && k != id implies nm[k] == om[k] by {
        let i = choose|i: int| 0 <= i < new_entries.len() && new_entries[i].0 == k;
        let j = if shifted && i > pos { i - 1 } else { i };
        lemma_entries_map_at(new_entries, i);
        lemma_entries_map_at(old_entries, j);
    }
}

/// Removing the entry at `pos` removes its id from the map of the entries.
proof fn lemma_map_after_remove(
    old_entries: Seq<(VertexAttributeId, VertexAttributeValues)>,
    new_entries: Seq<(VertexAttributeId, VertexAttributeValues)>,
    pos: int,
)
    requires
        sorted_entries(old_entries),
        sorted_entries(new_entries),
        0 <= pos < old_entries.len(),
        new_entries == old_entries.remove(pos),
    ensures
        entries_map(new_entries) =~= entries_map(old_entries).remove(old_entries[pos].0),
{
    let id = old_entries[pos].0;
    let nm = entries_map(new_entries);
    let om = entries_map(old_entries);
    assert forall|k: VertexAttributeId| nm.contains_key(k) <==> #[trigger] om.remove(id).contains_key(k) by {
        if nm.contains_key(k) {
            let i = choose|i: int| 0 <= i < new_entries.len() && new_entries[i].0 == k;
            let j = if i < pos { i } else { i + 1 };
            assert(old_entries[j].0 == k);
            assert(attribute_key(old_entries[j].0) != attribute_key(id));
        }
        if om.contains_key(k) && k != id {
            let j = choose|j: int| 0 <= j < old_entries.len() && old_entries[j].0 == k;
            let i = if j < pos { j } else { j - 1 };
            assert(new_entries[i].0 == k);
        }
    }
    assert forall|k: VertexAttributeId| nm.contains_key(k) implies nm[k] == om[k] by {
        let i = choose|i: int| 0 <= i < new_entries.len() && new_entries[i].0 == k;
        let j = if i < pos { i } else { i + 1 };
        lemma_entries_map_at(new_entries, i);
        lemma_entries_map_at(old_entries, j);
    }
}

/// The values of the attribute with the smallest id in `map`, if any
pub open spec fn min_key_values(map: Map<VertexAttributeId, VertexAttributeValues>) -> Option<
    VertexAttributeValues,
> {
    if exists|k: VertexAttributeId| map.contains_key(k) {
        Some(
            map[choose|k: VertexAttributeId|
                map.contains_key(k) && forall|k2: VertexAttributeId|
                    #[trigger] map.contains_key(k2) ==> attribute_key(k) <= attribute_key(k2)],
        )
    } else {
        None
    }
}

/// The vertex count of attributes: the length of the attribute with the smallest id, if any
pub open spec fn vertex_count_of(map: Map<VertexAttributeId, VertexAttributeValues>) -> Option<u32> {
    match min_key_values(map) {
        Some(values) => Some(values_len(values) as u32),
        None => None,
    }
}

/// There is at least one attribute, and all attributes have the same length
pub open spec fn attributes_valid(map: Map<VertexAttributeId, VertexAttributeValues>) -> bool {
    &&& exists|k: VertexAttributeId| map.contains_key(k)
    &&& forall|a: VertexAttributeId, b: VertexAttributeId|
        #[trigger] map.contains_key(a) && #[trigger] map.contains_key(b) ==> values_len(map[a])
            == values_len(map[b])
}

/// The first of sorted entries holds the attribute with the smallest id.
proof fn lemma_first_entry_is_min(entries: Seq<(VertexAttributeId, VertexAttributeValues)>)
    requires
        sorted_entries(entries),
    ensures
        entries.len() == 0 ==> min_key_values(entries_map(entries)) is None,
        entries.len() > 0 ==> min_key_values(entries_map(entries)) == Some(entries[0].1),
{
    let m = entries_map(entries);
    if entries.len() == 0 {
        assert(!exists|k: VertexAttributeId| m.contains_key(k));
    } else {
        lemma_entries_map_at(entries, 0);
        let first = entries[0].0;
        assert forall|k2: VertexAttributeId| #[trigger] m.contains_key(k2) implies attribute_key(first)
            <= attribute_key(k2) by {
            let i = choose|i: int| 0 <= i < entries.len() && entries[i].0 == k2;
            if i > 0 {
                assert(attribute_key(entries[0].0) < attribute_key(entries[i].0));
            }
        }
        let k = choose|k: VertexAttributeId|
            m.contains_key(k) && forall|k2: VertexAttributeId|
                #[trigger] m.contains_key(k2) ==> attribute_key(k) <= attribute_key(k2);
        assert(attribute_key(k) <= attribute_key(first));
        assert(attribute_key(first) <= attribute_key(k));
        lemma_key_injective(k, first);
    }
}

/// Number of bytes that the values of the first `count` entries take
pub open spec fn bytes_before(entries: Seq<(VertexAttributeId, VertexAttributeValues)>, count: int) -> nat
    decreases count,
{
    if count <= 0 {
        0
    } else {
        bytes_before(entries, count - 1) + values_byte_len(entries[count - 1].1)
    }
}

proof fn lemma_bytes_before_monotonic(
    entries: Seq<(VertexAttributeId, VertexAttributeValues)>,
    i: int,
    j: int,
)
    requires
        0 <= i <= j,
    ensures
        bytes_before(entries, i) <= bytes_before(entries, j),
    decreases j - i,
{
    if i < j {
        lemma_bytes_before_monotonic(entries, i, j - 1);
    }
}

/// Bit pattern of the float 1.0, the color component of generated colors
pub const COLOR_COMPONENT_ONE: u32 = 0x3F80_0000;

/// A mesh on the CPU: per-vertex attributes, kept in the order of their ids, and indices
#[derive(Debug)]
pub struct Mesh {
    primitive_topology: PrimitiveTopology,
    attributes: Vec<(VertexAttributeId, VertexAttributeValues)>,
    indices: Option<Vec<u32>>,
}

impl Mesh {
    #[verifier::type_invariant]
    spec fn attributes_sorted(self) -> bool {
        sorted_entries(self.attributes@)
    }

    /// The attributes, in increasing order of their ids
    pub closed spec fn entries(self) -> Seq<(VertexAttributeId, VertexAttributeValues)> {
        self.attributes@
    }

    /// The attributes by id
    pub open spec fn attribute_map(self) -> Map<VertexAttributeId, VertexAttributeValues> {
        entries_map(self.entries())
    }

    pub closed spec fn topology(self) -> PrimitiveTopology {
        self.primitive_topology
    }

    pub closed spec fn index_list(self) -> Option<Seq<u32>> {
        match self.indices {
            Some(v) => Some(v@),
            None => None,
        }
    }

    /// The vertex count: the length of the attribute with the smallest id, if any
    pub open spec fn spec_vertex_count(self) -> Option<u32> {
        if self.entries().len() == 0 {
            None
        } else {
            Some(values_len(self.entries()[0].1) as u32)
        }
    }

    pub fn new(primitive_topology: PrimitiveTopology) -> (mesh: Self)
        ensures
            mesh.topology() == primitive_topology,
            mesh.entries().len() == 0,
            mesh.index_list() == None::<Seq<u32>>,
    {
        Self { primitive_topology, attributes: Vec::new(), indices: None }
    }

    pub fn set_indices(&mut self, indices: Vec<u32>)
        ensures
            final(self).index_list() == Some(indices@),
            final(self).entries() == old(self).entries(),
            final(self).topology() == old(self).topology(),
    {
        proof {
            use_type_invariant(&*self);
        }
        self.indices = Some(indices);
    }

    pub fn get_indices(&self) -> (indices: Option<&Vec<u32>>)
        ensures
            match indices {
                Some(v) => self.index_list() == Some(v@),
                None => self.index_list() == None::<Seq<u32>>,
            },
    {
        self.indices.as_ref()
    }

    pub fn remove_indices(&mut self)
        ensures
            final(self).index_list() == None::<Seq<u32>>,
            final(self).entries() == old(self).entries(),
            final(self).topology() == old(self).topology(),
    {
        proof {
            use_type_invariant(&*self);
        }
        self.indices = None;
    }

    /// Index of the first entry whose id does not come before `id`
    fn lower_bound(&self, id: &VertexAttributeId) -> (pos: usize)
        ensures
            pos <= self.entries().len(),
            forall|i: int| 0 <= i < pos ==> attribute_key(#[trigger] self.entries()[i].0) < attribute_key(*id),
            forall|i: int|
                pos <= i < self.entries().len() ==> attribute_key(*id) <= attribute_key(
                    #[trigger] self.entries()[i].0,
                ),
    {
        proof {
            use_type_invariant(self);
        }
        let mut pos: usize = 0;
        while pos < self.attributes.len() && self.attributes[pos].0.precedes(id)
            invariant
                pos <= self.attributes@.len(),
                sorted_entries(self.attributes@),
                forall|i: int| 0 <= i < pos ==> attribute_key(#[trigger] self.attributes@[i].0) < attribute_key(*id),
            decreases self.attributes@.len() - pos,
        {
            pos = pos + 1;
        }
        proof {
            if pos < self.attributes@.len() {
                assert forall|i: int| pos <= i < self.attributes@.len() implies attribute_key(*id)
                    <= attribute_key(#[trigger] self.attributes@[i].0) by {
                    if i > pos {
                        assert(attribute_key(self.attributes@[pos as int].0) < attribute_key(
                            self.attributes@[i].0,
                        ));
                    }
                }
            }
        }
        pos
    }

    pub fn set_attribute(&mut self, id: VertexAttributeId, values: VertexAttributeValues)
        ensures
            final(self).attribute_map() == old(self).attribute_map().insert(id, values),
            final(self).topology() == old(self).topology(),
            final(self).index_list() == old(self).index_list(),
            final(self).spec_vertex_count() == if old(self).entries().len() == 0 || attribute_key(id)
                <= attribute_key(old(self).entries()[0].0) {
                Some(values_len(values) as u32)
            } else {
                old(self).spec_vertex_count()
            },
    {
        proof {
            use_type_invariant(&*self);
        }
        let pos = self.lower_bound(&id);
        let mut entries: Vec<(VertexAttributeId, VertexAttributeValues)> = Vec::new();
        std::mem::swap(&mut entries, &mut self.attributes);
        let ghost old_entries = entries@;
        if pos < entries.len() && entries[pos].0 == id {
            entries.remove(pos);
        }
        entries.insert(pos, (id, values));
        proof {
            let new_entries = entries@;
            lemma_key_injective(id, id);
            assert(sorted_entries(new_entries)) by {
                assert forall|i: int, j: int| 0 <= i < j < new_entries.len() implies attribute_key(
                    #[trigger] new_entries[i].0,
                ) < attribute_key(#[trigger] new_entries[j].0) by {
                    if new_entries.len() == old_entries.len() {
                        if i != pos {
                            assert(new_entries[i] == old_entries[i]);
                        }
                        if j != pos {
                            assert(new_entries[j] == old_entries[j]);
                        }
                    } else {
                        if i < pos {
                            assert(new_entries[i] == old_entries[i]);
                        } else if i > pos {
                            assert(new_entries[i] == old_entries[i - 1]);
                        }
                        if j < pos {
                            assert(new_entries[j] == old_entries[j]);
                        } else if j > pos {
                            assert(new_entries[j] == old_entries[j - 1]);
                        }
                    }
                }
            }
            if new_entries.len() == old_entries.len() {
                lemma_map_after_write(old_entries, new_entries, pos as int, id, values, false);
            } else {
                assert forall|j: int| 0 <= j < old_entries.len() implies old_entries[j].0 != id by {
                    if j >= pos {
                        lemma_key_injective(old_entries[j].0, id);
                    }
                }
                lemma_map_after_write(old_entries, new_entries, pos as int, id, values, true);
            }
        }
        proof {
            if old_entries.len() > 0 && attribute_key(old_entries[0].0) < attribute_key(id) {
                assert(pos > 0);
                assert(entries@[0] == old_entries[0]);
            }
        }
        self.attributes = entries;
    }

    pub fn get_attribute(&self, id: VertexAttributeId) -> (values: Option<&VertexAttributeValues>)
        ensures
            match values {
                Some(v) => self.attribute_map().contains_key(id) && self.attribute_map()[id] == *v,
                None => !self.attribute_map().contains_key(id),
            },
    {
        proof {
            use_type_invariant(self);
        }
        let pos = self.lower_bound(&id);
        if pos < self.attributes.len() && self.attributes[pos].0 == id {
            proof {
                lemma_entries_map_at(self.attributes@, pos as int);
            }
            Some(&self.attributes[pos].1)
        } else {
            proof {
                self.lemma_absent_below(id, pos as int);
            }
            None
        }
    }

    /// An id that the entry at `pos` does not hold, where `pos` is the lower bound of the id,
    /// is not in the mesh.
    proof fn lemma_absent_below(self, id: VertexAttributeId, pos: int)
        requires
            sorted_entries(self.attributes@),
            0 <= pos <= self.attributes@.len(),
            forall|i: int| 0 <= i < pos ==> attribute_key(#[trigger] self.attributes@[i].0) < attribute_key(id),
            forall|i: int|
                pos <= i < self.attributes@.len() ==> attribute_key(id) <= attribute_key(
                    #[trigger] self.attributes@[i].0,
                ),
            pos < self.attributes@.len() ==> self.attributes@[pos].0 != id,
        ensures
            !self.attribute_map().contains_key(id),
            forall|j: int| 0 <= j < self.attributes@.len() ==> self.attributes@[j].0 != id,
    {
        assert forall|j: int| 0 <= j < self.attributes@.len() implies self.attributes@[j].0 != id by {
            if j > pos {
                assert(attribute_key(self.attributes@[pos].0) < attribute_key(self.attributes@[j].0));
            }
        }
    }

    pub fn remove_attribute(&mut self, id: VertexAttributeId) -> (removed: Option<
        VertexAttributeValues,
    >)
        ensures
            final(self).attribute_map() == old(self).attribute_map().remove(id),
            removed == (if old(self).attribute_map().contains_key(id) {
                Some(old(self).attribute_map()[id])
            } else {
                None
            }),
            final(self).topology() == old(self).topology(),
            final(self).index_list() == old(self).index_list(),
    {
        proof {
            use_type_invariant(&*self);
        }
        let pos = self.lower_bound(&id);
        if pos < self.attributes.len() && self.attributes[pos].0 == id {
            let mut entries: Vec<(VertexAttributeId, VertexAttributeValues)> = Vec::new();
            std::mem::swap(&mut entries, &mut self.attributes);
            let ghost old_entries = entries@;
            proof {
                lemma_entries_map_at(old_entries, pos as int);
            }
            let (_, values) = entries.remove(pos);
            proof {
                let new_entries = entries@;
                assert(sorted_entries(new_entries)) by {
                    assert forall|i: int, j: int| 0 <= i < j < new_entries.len() implies attribute_key(
                        #[trigger] new_entries[i].0,
                    ) < attribute_key(#[trigger] new_entries[j].0) by {
                        let oi = if i < pos { i } else { i + 1 };
                        let oj = if j < pos { j } else { j + 1 };
                        assert(new_entries[i] == old_entries[oi]);
                        assert(new_entries[j] == old_entries[oj]);
                    }
                }
                lemma_map_after_remove(old_entries, new_entries, pos as int);
            }
            self.attributes = entries;
            Some(values)
        } else {
            proof {
                self.lemma_absent_below(id, pos as int);
                assert(self.attribute_map().remove(id) =~= self.attribute_map());
            }
            None
        }
    }

    pub fn remove_all_attributes(&mut self)
        ensures
            final(self).entries().len() == 0,
            final(self).attribute_map() == Map::<VertexAttributeId, VertexAttributeValues>::empty(),
            final(self).topology() == old(self).topology(),
            final(self).index_list() == old(self).index_list(),
    {
        proof {
            use_type_invariant(&*self);
        }
        self.attributes = Vec::new();
        assert(self.attribute_map() =~= Map::<VertexAttributeId, VertexAttributeValues>::empty());
    }

    pub fn vertex_count(&self) -> (count: Option<u32>)
        ensures
            count == self.spec_vertex_count(),
            count == vertex_count_of(self.attribute_map()),
    {
        proof {
            use_type_invariant(self);
            lemma_first_entry_is_min(self.attributes@);
        }
        if self.attributes.len() == 0 {
            None
        } else {
            Some(self.attributes[0].1.len() as u32)
        }
    }

    pub fn index_count(&self) -> (count: Option<u32>)
        ensures
            count == match self.index_list() {
                Some(inds) => Some(inds.len() as u32),
                None => None,
            },
    {
        match &self.indices {
            Some(inds) => Some(inds.len() as u32),
            None => None,
        }
    }

    proof fn lemma_valid_entries(&self)
        requires
            sorted_entries(self.entries()),
        ensures
            (self.entries().len() > 0 && forall|i: int|
                0 <= i < self.entries().len() ==> values_len(#[trigger] self.entries()[i].1)
                    == values_len(self.entries()[0].1)) == attributes_valid(self.attribute_map()),
    {
        let e = self.entries();
        let m = self.attribute_map();
        let lhs = e.len() > 0 && forall|i: int|
            0 <= i < e.len() ==> values_len(#[trigger] e[i].1) == values_len(e[0].1);
        if lhs {
            lemma_entries_map_at(e, 0);
            assert forall|a: VertexAttributeId, b: VertexAttributeId|
                #[trigger] m.contains_key(a) && #[trigger] m.contains_key(b) implies values_len(m[a])
                    == values_len(m[b]) by {
                let ia = choose|i: int| 0 <= i < e.len() && e[i].0 == a;
                let ib = choose|i: int| 0 <= i < e.len() && e[i].0 == b;
                lemma_entries_map_at(e, ia);
                lemma_entries_map_at(e, ib);
            }
        }
        if attributes_valid(m) {
            lemma_entries_map_at(e, 0);
            assert(e.len() > 0);
            assert forall|i: int| 0 <= i < e.len() implies values_len(#[trigger] e[i].1) == values_len(
                e[0].1,
            ) by {
                lemma_entries_map_at(e, i);
                assert(m.contains_key(e[i].0) && m.contains_key(e[0].0));
            }
        } else if e.len() > 0 {
            lemma_entries_map_at(e, 0);
        }
    }


    /// Checks
    ///
    /// At least one attribute exists
    /// All attributes have the same length
    pub fn validate(&self) -> (valid: bool)
        ensures
            valid == (self.entries().len() > 0 && forall|i: int|
                0 <= i < self.entries().len() ==> values_len(#[trigger] self.entries()[i].1)
                    == values_len(self.entries()[0].1)),
            valid == attributes_valid(self.attribute_map()),
    {
        proof {
            use_type_invariant(self);
            self.lemma_valid_entries();
        }
        if self.attributes.len() == 0 {
            return false;
        }
        let first_attribute_len = self.attributes[0].1.len();
        let mut i: usize = 1;
        while i < self.attributes.len()
            invariant
                1 <= i <= self.attributes@.len(),
                first_attribute_len == values_len(self.attributes@[0].1),
                (self.entries().len() > 0 && forall|j: int|
                    0 <= j < self.entries().len() ==> values_len(#[trigger] self.entries()[j].1)
                        == values_len(self.entries()[0].1)) == attributes_valid(self.attribute_map()),
                forall|j: int| 0 <= j < i ==> values_len(#[trigger] self.attributes@[j].1) == first_attribute_len,
            decreases self.attributes@.len() - i,
        {
            if self.attributes[i].1.len() != first_attribute_len {
                return false;
            }
            i = i + 1;
        }
        true
    }

    /// One vertex buffer layout per attribute, in increasing order of the attribute ids
    pub fn layouts(&self) -> (layouts: Vec<VertexBufferLayout>)
        ensures
            sorted_entries(self.entries()),
            layouts@.len() == self.entries().len(),
            forall|i: int|
                0 <= i < self.entries().len() ==> is_dense_layout(
                    #[trigger] layouts@[i],
                    VertexStepMode::Vertex,
                    seq![attribute_format(self.entries()[i].0)],
                ),
    {
        proof {
            use_type_invariant(self);
        }
        let mut layouts: Vec<VertexBufferLayout> = Vec::new();
        let mut i: usize = 0;
        while i < self.attributes.len()
            invariant
                i <= self.attributes@.len(),
                layouts@.len() == i,
                forall|j: int|
                    0 <= j < i ==> is_dense_layout(
                        #[trigger] layouts@[j],
                        VertexStepMode::Vertex,
                        seq![attribute_format(self.attributes@[j].0)],
                    ),
            decreases self.attributes@.len() - i,
        {
            let format = self.attributes[i].0.format();
            let formats = vec![format];
            assert(formats@ =~= seq![attribute_format(self.attributes@[i as int].0)]);
            let layout = VertexBufferLayout::from_vertex_formats(VertexStepMode::Vertex, formats);
            layouts.push(layout);
            i = i + 1;
        }
        layouts
    }

    /// One vertex buffer layout per attribute, in increasing order of the attribute ids
    pub fn buffer_layout(&self) -> (buffers: Vec<VertexBufferLayout>)
        ensures
            sorted_entries(self.entries()),
            buffers@.len() == self.entries().len(),
            forall|i: int|
                0 <= i < self.entries().len() ==> is_dense_layout(
                    #[trigger] buffers@[i],
                    VertexStepMode::Vertex,
                    seq![attribute_format(self.entries()[i].0)],
                ),
    {
        self.layouts()
    }

    /// Sets color attribute `color_index` to `color` for every vertex; a mesh without vertices
    /// is left as it is.
    pub fn generate_colors(&mut self, color_index: u32, color: [u32; 3])
        ensures
            final(self).topology() == old(self).topology(),
            final(self).index_list() == old(self).index_list(),
            final(self).spec_vertex_count() == old(self).spec_vertex_count(),
            match old(self).spec_vertex_count() {
                None => final(self).attribute_map() == old(self).attribute_map(),
                Some(count) => {
                    &&& final(self).attribute_map().dom() == old(self).attribute_map().dom().insert(
                        VertexAttributeId::Color(color_index),
                    )
                    &&& forall|k: VertexAttributeId|
                        k != VertexAttributeId::Color(color_index) && #[trigger] old(
                            self,
                        ).attribute_map().contains_key(k) ==> final(self).attribute_map()[k] == old(
                            self,
                        ).attribute_map()[k]
                    &&& final(self).attribute_map()[VertexAttributeId::Color(color_index)] matches VertexAttributeValues::Float32x3(colors)
                        && colors@ == Seq::new(count as nat, |_i: int| color)
                },
            },
    {
        let count = match self.vertex_count() {
            Some(count) => count,
            None => {
                return ;
            },
        };
        let mut colors: Vec<[u32; 3]> = Vec::with_capacity(count as usize);
        let mut i: u32 = 0;
        while i < count
            invariant
                i <= count,
                colors@ =~= Seq::new(i as nat, |_i: int| color),
            decreases count - i,
        {
            colors.push(color);
            i = i + 1;
        }
        let ghost old_map = self.attribute_map();
        let ghost values = VertexAttributeValues::Float32x3(colors);
        self.set_attribute(VertexAttributeId::Color(color_index), VertexAttributeValues::Float32x3(colors));
        proof {
            assert(values_len(values) == count);
            assert(self.attribute_map() == old_map.insert(VertexAttributeId::Color(color_index), values));
            assert(self.attribute_map().dom() =~= old_map.dom().insert(VertexAttributeId::Color(color_index)));
        }
    }

    fn contains_id(ids: &Vec<VertexAttributeId>, id: &VertexAttributeId) -> (found: bool)
        ensures
            found == ids@.contains(*id),
    {
        let mut i: usize = 0;
        while i < ids.len()
            invariant
                i <= ids@.len(),
                forall|j: int| 0 <= j < i ==> ids@[j] != *id,
            decreases ids@.len() - i,
        {
            if ids[i] == *id {
                return true;
            }
            i = i + 1;
        }
        false
    }

    /// Ids of the attributes, in their order
    fn attribute_ids(&self) -> (ids: Vec<VertexAttributeId>)
        ensures
            forall|k: VertexAttributeId| #[trigger] ids@.contains(k) <==> self.attribute_map().contains_key(k),
    {
        let mut ids: Vec<VertexAttributeId> = Vec::new();
        let mut i: usize = 0;
        while i < self.attributes.len()
            invariant
                i <= self.attributes@.len(),
                ids@.len() == i,
                forall|j: int| 0 <= j < i ==> #[trigger] ids@[j] == self.attributes@[j].0,
            decreases self.attributes@.len() - i,
        {
            ids.push(self.attributes[i].0);
            i = i + 1;
        }
        proof {
            assert forall|k: VertexAttributeId| #[trigger] ids@.contains(k) <==> self.attribute_map().contains_key(k) by {
                if ids@.contains(k) {
                    let j = choose|j: int| 0 <= j < ids@.len() && ids@[j] == k;
                    assert(self.attributes@[j].0 == k);
                }
                if self.attribute_map().contains_key(k) {
                    let j = choose|j: int| 0 <= j < self.attributes@.len() && self.attributes@[j].0 == k;
                    assert(ids@[j] == k);
                }
            }
        }
        ids
    }

    /// Number of bytes that all attributes take, one after the other
    pub open spec fn packed_size(self) -> nat {
        bytes_before(self.entries(), self.entries().len() as int)
    }

    /// Byte range of each attribute when the attributes are laid out one after the other, in
    /// their order, as they are uploaded into one GPU buffer
    pub fn attribute_byte_ranges(&self) -> (ranges: Vec<(VertexAttributeId, (u64, u64))>)
        requires
            self.packed_size() <= u64::MAX,
        ensures
            sorted_entries(self.entries()),
            ranges@.len() == self.entries().len(),
            forall|i: int|
                0 <= i < ranges@.len() ==> #[trigger] ranges@[i] == (
                    self.entries()[i].0,
                    (
                        bytes_before(self.entries(), i) as u64,
                        bytes_before(self.entries(), i + 1) as u64,
                    ),
                ),
    {
        proof {
            use_type_invariant(self);
        }
        let mut ranges: Vec<(VertexAttributeId, (u64, u64))> = Vec::new();
        let mut cursor: u64 = 0;
        let mut i: usize = 0;
        while i < self.attributes.len()
            invariant
                i <= self.attributes@.len(),
                bytes_before(self.attributes@, self.attributes@.len() as int) <= u64::MAX,
                cursor == bytes_before(self.attributes@, i as int),
                ranges@.len() == i,
                forall|j: int|
                    0 <= j < i ==> #[trigger] ranges@[j] == (
                        self.attributes@[j].0,
                        (
                            bytes_before(self.attributes@, j) as u64,
                            bytes_before(self.attributes@, j + 1) as u64,
                        ),
                    ),
            decreases self.attributes@.len() - i,
        {
            proof {
                lemma_bytes_before_monotonic(self.attributes@, i + 1, self.attributes@.len() as int);
            }
            let len = self.attributes[i].1.byte_len();
            let start = cursor;
            cursor = cursor + len;
            ranges.push((self.attributes[i].0, (start, cursor)));
            i = i + 1;
        }
        ranges
    }

    /// Number of bytes of all attributes together, where it fits in `u64`
    pub fn packed_byte_count(&self) -> (n: Option<u64>)
        ensures
            n is Some <==> self.packed_size() <= u64::MAX,
            n is Some ==> n->Some_0 == self.packed_size(),
    {
        let mut total: u64 = 0;
        let mut i: usize = 0;
        while i < self.attributes.len()
            invariant
                i <= self.attributes@.len(),
                total == bytes_before(self.attributes@, i as int),
            decreases self.attributes@.len() - i,
        {
            proof {
                lemma_bytes_before_monotonic(self.attributes@, i + 1, self.attributes@.len() as int);
            }
            let values = &self.attributes[i].1;
            let count = values.len() as u64;
            let size: u64 = match values {
                VertexAttributeValues::Float32(_) => 4,
                VertexAttributeValues::Float32x2(_) => 8,
                VertexAttributeValues::Float32x3(_) => 12,
                VertexAttributeValues::Float32x4(_) => 16,
                VertexAttributeValues::Uint32(_) => 4,
                VertexAttributeValues::Uint32x2(_) => 8,
                VertexAttributeValues::Uint32x3(_) => 12,
                VertexAttributeValues::Uint32x4(_) => 16,
                VertexAttributeValues::Sint32(_) => 4,
                VertexAttributeValues::Sint32x2(_) => 8,
                VertexAttributeValues::Sint32x3(_) => 12,
                VertexAttributeValues::Sint32x4(_) => 16,
            };
            assert(size == element_size(*values));
            let bytes = match count.checked_mul(size) {
                None => return None,
                Some(bytes) => bytes,
            };
            total = match total.checked_add(bytes) {
                None => return None,
                Some(total) => total,
            };
            i += 1;
        }
        Some(total)
    }

    /// The bytes of all attributes, one after the other, in increasing order of their ids
    pub fn packed_attribute_bytes(&self) -> (bytes: Vec<u8>)
        requires
            self.packed_size() <= usize::MAX,
        ensures
            sorted_entries(self.entries()),
            bytes@.len() == self.packed_size(),
            forall|i: int|
                0 <= i < self.entries().len() ==> values_in_memory(
                    #[trigger] self.entries()[i].1,
                    bytes@.subrange(
                        bytes_before(self.entries(), i) as int,
                        bytes_before(self.entries(), i + 1) as int,
                    ),
                ),
    {
        proof {
            use_type_invariant(self);
        }
        let mut bytes: Vec<u8> = Vec::new();
        let mut i: usize = 0;
        while i < self.attributes.len()
            invariant
                i <= self.attributes@.len(),
                bytes_before(self.attributes@, self.attributes@.len() as int) <= usize::MAX,
                bytes@.len() == bytes_before(self.attributes@, i as int),
                forall|j: int|
                    0 <= j < i ==> values_in_memory(
                        #[trigger] self.attributes@[j].1,
                        bytes@.subrange(
                            bytes_before(self.attributes@, j) as int,
                            bytes_before(self.attributes@, j + 1) as int,
                        ),
                    ),
            decreases self.attributes@.len() - i,
        {
            proof {
                lemma_bytes_before_monotonic(self.attributes@, i + 1, self.attributes@.len() as int);
            }
            let ghost before = bytes@;
            let values = self.attributes[i].1.as_bytes();
            bytes.extend_from_slice(values);
            proof {
                let entries = self.attributes@;
                assert forall|j: int| 0 <= j < i + 1 implies values_in_memory(
                    #[trigger] entries[j].1,
                    bytes@.subrange(bytes_before(entries, j) as int, bytes_before(entries, j + 1) as int),
                ) by {
                    if j < i {
                        lemma_bytes_before_monotonic(entries, j + 1, i as int);
                        assert(bytes@.subrange(
                            bytes_before(entries, j) as int,
                            bytes_before(entries, j + 1) as int,
                        ) =~= before.subrange(
                            bytes_before(entries, j) as int,
                            bytes_before(entries, j + 1) as int,
                        ));
                    } else {
                        assert(bytes@.subrange(
                            bytes_before(entries, j) as int,
                            bytes_before(entries, j + 1) as int,
                        ) =~= values@);
                    }
                }
            }
            i = i + 1;
        }
        bytes
    }

    /// Removes the attributes that are not in `attributes`
    fn retain_requested(&mut self, attributes: &Vec<VertexAttributeId>)
        ensures
            final(self).topology() == old(self).topology(),
            final(self).index_list() == old(self).index_list(),
            final(self).attribute_map() == old(self).attribute_map().restrict(attributes@.to_set()),
    {
        let ghost old_map = self.attribute_map();
        let ghost req = attributes@;
        let ids = self.attribute_ids();
        let mut r: usize = 0;
        while r < ids.len()
            invariant
                r <= ids@.len(),
                req == attributes@,
                self.topology() == old(self).topology(),
                self.index_list() == old(self).index_list(),
                old_map == old(self).attribute_map(),
                forall|k: VertexAttributeId| #[trigger] ids@.contains(k) <==> old_map.contains_key(k),
                forall|k: VertexAttributeId|
                    #[trigger] self.attribute_map().contains_key(k) <==> old_map.contains_key(k) && (
                    req.contains(k) || !ids@.take(r as int).contains(k)),
                forall|k: VertexAttributeId|
                    #[trigger] self.attribute_map().contains_key(k) ==> self.attribute_map()[k]
                        == old_map[k],
            decreases ids@.len() - r,
        {
            let id = ids[r];
            if !Self::contains_id(attributes, &id) {
                self.remove_attribute(id);
            }
            proof {
                assert forall|k: VertexAttributeId| #[trigger] ids@.take(r + 1).contains(k) <==> (ids@.take(
                    r as int,
                ).contains(k) || k == id) by {
                    if ids@.take(r + 1).contains(k) && k != id {
                        let j = choose|j: int| 0 <= j < r + 1 && #[trigger] ids@.take(r + 1)[j] == k;
                        assert(ids@.take(r as int)[j] == k);
                    }
                    if ids@.take(r as int).contains(k) {
                        let j = choose|j: int| 0 <= j < r && #[trigger] ids@.take(r as int)[j] == k;
                        assert(ids@.take(r + 1)[j] == k);
                    }
                    if k == id {
                        assert(ids@.take(r + 1)[r as int] == k);
                    }
                }
            }
            r = r + 1;
        }
        proof {
            assert(ids@.take(ids@.len() as int) =~= ids@);
            assert(self.attribute_map() =~= old_map.restrict(req.to_set()));
        }
    }

    /// Generates, white for every vertex, the colors in `attributes` that the mesh lacks
    fn add_missing_colors(&mut self, attributes: &Vec<VertexAttributeId>)
        requires
            forall|k: VertexAttributeId|
                #[trigger] attributes@.contains(k) && !old(self).attribute_map().contains_key(k) ==> k is Color,
        ensures
            final(self).topology() == old(self).topology(),
            final(self).index_list() == old(self).index_list(),
            final(self).spec_vertex_count() == old(self).spec_vertex_count(),
            forall|k: VertexAttributeId|
                #[trigger] final(self).attribute_map().contains_key(k) <==> (old(self).attribute_map().contains_key(k) || (
                old(self).spec_vertex_count() is Some && attributes@.contains(k))),
            forall|k: VertexAttributeId|
                #[trigger] old(self).attribute_map().contains_key(k) ==> final(self).attribute_map()[k] == old(self).attribute_map()[k],
            forall|k: VertexAttributeId|
                #[trigger] final(self).attribute_map().contains_key(k) && !old(self).attribute_map().contains_key(k)
                    ==> (final(self).attribute_map()[k] matches VertexAttributeValues::Float32x3(colors)
                    && colors@ == Seq::new(
                    old(self).spec_vertex_count()->0 as nat,
                    |_i: int| [COLOR_COMPONENT_ONE, COLOR_COMPONENT_ONE, COLOR_COMPONENT_ONE],
                )),
    {
        let ghost req = attributes@;
        let ghost start_map = self.attribute_map();
        let ghost count = self.spec_vertex_count();
        let mut r: usize = 0;
        while r < attributes.len()
            invariant
                r <= attributes@.len(),
                req == attributes@,
                start_map == old(self).attribute_map(),
                count == old(self).spec_vertex_count(),
                self.topology() == old(self).topology(),
                self.index_list() == old(self).index_list(),
                self.spec_vertex_count() == count,
                forall|k: VertexAttributeId|
                    #[trigger] req.contains(k) && !start_map.contains_key(k) ==> k is Color,
                forall|k: VertexAttributeId|
                    #[trigger] self.attribute_map().contains_key(k) <==> (start_map.contains_key(k) || (
                    count is Some && req.take(r as int).contains(k))),
                forall|k: VertexAttributeId|
                    #[trigger] start_map.contains_key(k) ==> self.attribute_map()[k] == start_map[k],
                forall|k: VertexAttributeId|
                    #[trigger] self.attribute_map().contains_key(k) && !start_map.contains_key(k)
                        ==> (self.attribute_map()[k] matches VertexAttributeValues::Float32x3(colors)
                        && colors@ == Seq::new(
                        count->0 as nat,
                        |_i: int| [COLOR_COMPONENT_ONE, COLOR_COMPONENT_ONE, COLOR_COMPONENT_ONE],
                    )),
            decreases attributes@.len() - r,
        {
            let id = attributes[r];
            proof {
                assert(req[r as int] == id);
                assert(req.contains(id));
                assert forall|k: VertexAttributeId| #[trigger] req.take(r + 1).contains(k) <==> (req.take(
                    r as int,
                ).contains(k) || k == id) by {
                    if req.take(r + 1).contains(k) && k != id {
                        let j = choose|j: int| 0 <= j < r + 1 && #[trigger] req.take(r + 1)[j] == k;
                        assert(req.take(r as int)[j] == k);
                    }
                    if req.take(r as int).contains(k) {
                        let j = choose|j: int| 0 <= j < r && #[trigger] req.take(r as int)[j] == k;
                        assert(req.take(r + 1)[j] == k);
                    }
                    if k == id {
                        assert(req.take(r + 1)[r as int] == k);
                    }
                }
            }
            let present = match self.get_attribute(id) {
                Some(_) => true,
                None => false,
            };
            if !present {
                proof {
                    assert(!start_map.contains_key(id));
                    assert(id is Color);
                }
                match id {
                    VertexAttributeId::Color(i) => {
                        self.generate_colors(
                            i,
                            [COLOR_COMPONENT_ONE, COLOR_COMPONENT_ONE, COLOR_COMPONENT_ONE],
                        );
                    },
                    _ => {},
                }
            }
            r = r + 1;
        }
        proof {
            assert(req.take(req.len() as int) =~= req);
        }
    }

    /// Keeps only the attributes in `attributes` and generates the requested colors that are
    /// missing, white for every vertex.
    #[verifier::rlimit(40)]
    pub fn extract_attributes(self, attributes: Vec<VertexAttributeId>) -> (mesh: Self)
        requires
            forall|k: VertexAttributeId|
                #[trigger] attributes@.contains(k) && !self.attribute_map().contains_key(k) ==> k is Color,
        ensures
            mesh.topology() == self.topology(),
            mesh.index_list() == self.index_list(),
            forall|k: VertexAttributeId|
                #[trigger] mesh.attribute_map().contains_key(k) <==> attributes@.contains(k) && (
                self.attribute_map().contains_key(k) || min_key_values(
                    self.attribute_map().restrict(attributes@.to_set()),
                ) is Some),
            forall|k: VertexAttributeId|
                attributes@.contains(k) && #[trigger] self.attribute_map().contains_key(k)
                    ==> mesh.attribute_map()[k] == self.attribute_map()[k],
            forall|k: VertexAttributeId|
                attributes@.contains(k) && !self.attribute_map().contains_key(k) && min_key_values(
                    self.attribute_map().restrict(attributes@.to_set()),
                ) is Some ==> (#[trigger] mesh.attribute_map()[k] matches VertexAttributeValues::Float32x3(colors)
                    && colors@ == Seq::new(
                    (values_len(min_key_values(self.attribute_map().restrict(attributes@.to_set()))->0) as u32) as nat,
                    |_i: int| [COLOR_COMPONENT_ONE, COLOR_COMPONENT_ONE, COLOR_COMPONENT_ONE],
                )),
            vertex_count_of(mesh.attribute_map()) == vertex_count_of(
                self.attribute_map().restrict(attributes@.to_set()),
            ),
    {
        let ghost old_map = self.attribute_map();
        let ghost req_set = attributes@.to_set();
        let ghost kept_spec = old_map.restrict(req_set);
        let mut mesh = self;
        mesh.retain_requested(&attributes);
        let ghost kept_map = mesh.attribute_map();
        let ghost count = mesh.spec_vertex_count();
        proof {
            assert(kept_map == kept_spec);
            use_type_invariant(&mesh);
            lemma_first_entry_is_min(mesh.attributes@);
            assert(count == match min_key_values(kept_spec) {
                Some(v) => Some(values_len(v) as u32),
                None => None::<u32>,
            });
            assert forall|k: VertexAttributeId|
                #[trigger] attributes@.contains(k) && !kept_map.contains_key(k) implies k is Color by {
                assert(req_set.contains(k));
            }
        }
        mesh.add_missing_colors(&attributes);
        proof {
            assert forall|k: VertexAttributeId| #[trigger] kept_map.contains_key(k) <==> attributes@.contains(k) && old_map.contains_key(k) by {
                if attributes@.contains(k) {
                    assert(req_set.contains(k));
                }
            }
            assert forall|k: VertexAttributeId|
                attributes@.contains(k) && !old_map.contains_key(k) && min_key_values(kept_spec) is Some
                implies (#[trigger] mesh.attribute_map()[k] matches VertexAttributeValues::Float32x3(colors)
                && colors@ == Seq::new(
                (values_len(min_key_values(kept_spec)->0) as u32) as nat,
                |_i: int| [COLOR_COMPONENT_ONE, COLOR_COMPONENT_ONE, COLOR_COMPONENT_ONE],
            )) by {
                assert(!kept_map.contains_key(k));
                assert(count is Some);
                assert(mesh.attribute_map().contains_key(k));
                assert(count->0 == values_len(min_key_values(kept_spec)->0) as u32);
            }
            use_type_invariant(&mesh);
            lemma_first_entry_is_min(mesh.attributes@);
        }
        mesh
    }
}

impl Default for Mesh {
    fn default() -> (mesh: Self)
        ensures
            mesh.topology() == PrimitiveTopology::TriangleList,
            mesh.entries().len() == 0,
            mesh.index_list() == None::<Seq<u32>>,
    {
        Mesh::new(PrimitiveTopology::TriangleList)
    }
}

/// Bit patterns of the floats that the quads are built from
pub const F_ZERO: u32 = 0x0000_0000;

pub const F_ONE: u32 = 0x3F80_0000;

pub const F_MINUS_ONE: u32 = 0xBF80_0000;

pub const F_HALF: u32 = 0x3F00_0000;

pub const F_MINUS_HALF: u32 = 0xBF00_0000;

/// Vertex data of a mesh under construction; float components are held as their bit
/// patterns.
pub struct MeshBuilder {
    positions: Vec<[u32; 3]>,
    uvs: Vec<[u32; 2]>,
    normals: Vec<[u32; 3]>,
    tangents: Vec<[u32; 4]>,
    indices: Vec<u32>,
}

impl MeshBuilder {
    pub closed spec fn spec_positions(self) -> Seq<[u32; 3]> {
        self.positions@
    }

    pub closed spec fn spec_uvs(self) -> Seq<[u32; 2]> {
        self.uvs@
    }

    pub closed spec fn spec_normals(self) -> Seq<[u32; 3]> {
        self.normals@
    }

    pub closed spec fn spec_tangents(self) -> Seq<[u32; 4]> {
        self.tangents@
    }

    pub closed spec fn spec_indices(self) -> Seq<u32> {
        self.indices@
    }

    /// Two triangles that cover the screen, from (-1, -1) to (1, 1)
    pub fn fullscreen_quad() -> (builder: Self)
        ensures
            builder.spec_positions() == seq![
                [F_MINUS_ONE, F_MINUS_ONE, F_ZERO],
                [F_ONE, F_MINUS_ONE, F_ZERO],
                [F_MINUS_ONE, F_ONE, F_ZERO],
                [F_ONE, F_ONE, F_ZERO],
            ],
            builder.spec_uvs() == seq![[F_ZERO, F_ONE], [F_ONE, F_ONE], [F_ZERO, F_ZERO], [F_ONE, F_ZERO]],
            builder.spec_normals() == seq![[F_ZERO, F_ZERO, F_ONE]; 4],
            builder.spec_tangents() == seq![[F_ONE, F_ZERO, F_ZERO, F_ONE]; 4],
            builder.spec_indices() == seq![0u32, 1, 3, 0, 3, 2],
    {
        Self {
            positions: vec![
                [F_MINUS_ONE, F_MINUS_ONE, F_ZERO],  // bottom left
                [F_ONE, F_MINUS_ONE, F_ZERO],  // bottom right
                [F_MINUS_ONE, F_ONE, F_ZERO],  // top left
                [F_ONE, F_ONE, F_ZERO],  // top right
            ],
            uvs: vec![
                [F_ZERO, F_ONE],  // bottom left
                [F_ONE, F_ONE],  // bottom right
                [F_ZERO, F_ZERO],  // top left
                [F_ONE, F_ZERO],  // top right
            ],
            normals: vec![
                [F_ZERO, F_ZERO, F_ONE],
                [F_ZERO, F_ZERO, F_ONE],
                [F_ZERO, F_ZERO, F_ONE],
                [F_ZERO, F_ZERO, F_ONE],
            ],
            tangents: vec![
                [F_ONE, F_ZERO, F_ZERO, F_ONE],
                [F_ONE, F_ZERO, F_ZERO, F_ONE],
                [F_ONE, F_ZERO, F_ZERO, F_ONE],
                [F_ONE, F_ZERO, F_ZERO, F_ONE],
            ],
            indices: vec![0, 1, 3, 0, 3, 2],
        }
    }

    /// Two triangles that form a unit quad around the origin, from (-0.5, -0.5) to (0.5, 0.5)
    pub fn quad() -> (builder: Self)
        ensures
            builder.spec_positions() == seq![
                [F_MINUS_HALF, F_MINUS_HALF, F_ZERO],
                [F_HALF, F_MINUS_HALF, F_ZERO],
                [F_MINUS_HALF, F_HALF, F_ZERO],
                [F_HALF, F_HALF, F_ZERO],
            ],
            builder.spec_uvs() == seq![[F_ZERO, F_ONE], [F_ONE, F_ONE], [F_ZERO, F_ZERO], [F_ONE, F_ZERO]],
            builder.spec_normals() == seq![[F_ZERO, F_ZERO, F_ONE]; 4],
            builder.spec_tangents() == seq![[F_ONE, F_ZERO, F_ZERO, F_ONE]; 4],
            builder.spec_indices() == seq![0u32, 1, 3, 0, 3, 2],
    {
        Self {
            positions: vec![
                [F_MINUS_HALF, F_MINUS_HALF, F_ZERO],  // bottom left
                [F_HALF, F_MINUS_HALF, F_ZERO],  // bottom right
                [F_MINUS_HALF, F_HALF, F_ZERO],  // top left
                [F_HALF, F_HALF, F_ZERO],  // top right
            ],
            uvs: vec![
                [F_ZERO, F_ONE],  // bottom left
                [F_ONE, F_ONE],  // bottom right
                [F_ZERO, F_ZERO],  // top left
                [F_ONE, F_ZERO],  // top right
            ],
            normals: vec![
                [F_ZERO, F_ZERO, F_ONE],
                [F_ZERO, F_ZERO, F_ONE],
                [F_ZERO, F_ZERO, F_ONE],
                [F_ZERO, F_ZERO, F_ONE],
            ],
            tangents: vec![
                [F_ONE, F_ZERO, F_ZERO, F_ONE],
                [F_ONE, F_ZERO, F_ZERO, F_ONE],
                [F_ONE, F_ZERO, F_ZERO, F_ONE],
                [F_ONE, F_ZERO, F_ZERO, F_ONE],
            ],
            indices: vec![0, 1, 3, 0, 3, 2],
        }
    }

    /// A triangle list mesh with position, normal, uv 0 and tangent attributes and the indices
    #[verifier::rlimit(50)]
    pub fn build(self) -> (mesh: Mesh)
        ensures
            mesh.topology() == PrimitiveTopology::TriangleList,
            mesh.index_list() == Some(self.spec_indices()),
            mesh.attribute_map().dom() == set![
                VertexAttributeId::Position,
                VertexAttributeId::Normal,
                VertexAttributeId::Uv(0),
                VertexAttributeId::Tangent,
            ],
            mesh.attribute_map()[VertexAttributeId::Position] matches VertexAttributeValues::Float32x3(v)
                && v@ == self.spec_positions(),
            mesh.attribute_map()[VertexAttributeId::Normal] matches VertexAttributeValues::Float32x3(v)
                && v@ == self.spec_normals(),
            mesh.attribute_map()[VertexAttributeId::Uv(0)] matches VertexAttributeValues::Float32x2(v)
                && v@ == self.spec_uvs(),
            mesh.attribute_map()[VertexAttributeId::Tangent] matches VertexAttributeValues::Float32x4(v)
                && v@ == self.spec_tangents(),
            vertex_count_of(mesh.attribute_map()) == Some(self.spec_positions().len() as u32),
            attributes_valid(mesh.attribute_map()) == (self.spec_normals().len()
                == self.spec_positions().len() && self.spec_uvs().len()
                == self.spec_positions().len() && self.spec_tangents().len()
                == self.spec_positions().len()),
    {
        let mut mesh = Mesh::new(PrimitiveTopology::TriangleList);
        proof {
            assert(mesh.attribute_map() =~= Map::<VertexAttributeId, VertexAttributeValues>::empty());
        }
        mesh.set_attribute(
            VertexAttributeId::Position,
            VertexAttributeValues::Float32x3(self.positions),
        );
        mesh.set_attribute(VertexAttributeId::Normal, VertexAttributeValues::Float32x3(self.normals));
        mesh.set_attribute(VertexAttributeId::Uv(0), VertexAttributeValues::Float32x2(self.uvs));
        mesh.set_attribute(
            VertexAttributeId::Tangent,
            VertexAttributeValues::Float32x4(self.tangents),
        );
        mesh.set_indices(self.indices);
        proof {
            assert(mesh.attribute_map().dom() =~= set![
                VertexAttributeId::Position,
                VertexAttributeId::Normal,
                VertexAttributeId::Uv(0),
                VertexAttributeId::Tangent,
            ]);
            lemma_four_attributes(mesh.attribute_map());
        }
        mesh
    }
}

/// The attribute with the smallest id of attributes with a position is the position
proof fn lemma_min_is_position(m: Map<VertexAttributeId, VertexAttributeValues>)
    requires
        m.contains_key(VertexAttributeId::Position),
    ensures
        min_key_values(m) == Some(m[VertexAttributeId::Position]),
{
    let p = VertexAttributeId::Position;
    assert forall|k2: VertexAttributeId| #[trigger] m.contains_key(k2) implies attribute_key(p)
        <= attribute_key(k2) by {}
    let k = choose|k: VertexAttributeId|
        m.contains_key(k) && forall|k2: VertexAttributeId|
            #[trigger] m.contains_key(k2) ==> attribute_key(k) <= attribute_key(k2);
    assert(attribute_key(k) <= attribute_key(p));
    lemma_key_injective(k, p);
}

/// Attributes of exactly a position, a normal, the first uv set and a tangent are valid where
/// the four have the same length, and their vertex count is that of the positions
proof fn lemma_four_attributes(m: Map<VertexAttributeId, VertexAttributeValues>)
    requires
        m.dom() == set![
            VertexAttributeId::Position,
            VertexAttributeId::Normal,
            VertexAttributeId::Uv(0),
            VertexAttributeId::Tangent,
        ],
    ensures
        vertex_count_of(m) == Some(values_len(m[VertexAttributeId::Position]) as u32),
        attributes_valid(m) == (values_len(m[VertexAttributeId::Normal]) == values_len(
            m[VertexAttributeId::Position],
        ) && values_len(m[VertexAttributeId::Uv(0)]) == values_len(m[VertexAttributeId::Position])
            && values_len(m[VertexAttributeId::Tangent]) == values_len(
            m[VertexAttributeId::Position],
        )),
{
    let p = VertexAttributeId::Position;
    let n = VertexAttributeId::Normal;
    let u = VertexAttributeId::Uv(0);
    let t = VertexAttributeId::Tangent;
    assert(m.contains_key(p) && m.contains_key(n) && m.contains_key(u) && m.contains_key(t));
    lemma_min_is_position(m);
    if values_len(m[n]) == values_len(m[p]) && values_len(m[u]) == values_len(m[p]) && values_len(
        m[t],
    ) == values_len(m[p]) {
        assert forall|a: VertexAttributeId, b: VertexAttributeId|
            #[trigger] m.contains_key(a) && #[trigger] m.contains_key(b) implies values_len(m[a])
                == values_len(m[b]) by {
            assert(m.dom().contains(a) && m.dom().contains(b));
        }
    }
}


/// Reading an attribute after setting it gives the values set, and leaves every other
/// attribute as it was.
pub proof fn attribute_read_after_write(
    before: Mesh,
    id: VertexAttributeId,
    values: VertexAttributeValues,
    after: Mesh,
    other: VertexAttributeId,
)
    requires
        after.attribute_map() == before.attribute_map().insert(id, values),
    ensures
        after.attribute_map().contains_key(id),
        after.attribute_map()[id] == values,
        other != id ==> (after.attribute_map().contains_key(other) <==> before.attribute_map().contains_key(
            other,
        )),
        other != id && before.attribute_map().contains_key(other) ==> after.attribute_map()[other]
            == before.attribute_map()[other],
{
}

/// After an attribute is removed it reads as absent, every other attribute as it was; setting
/// an attribute and removing it again leaves the attributes as they were without it.
pub proof fn attribute_removal(
    before: Mesh,
    id: VertexAttributeId,
    values: VertexAttributeValues,
    set: Mesh,
    removed: Mesh,
)
    requires
        set.attribute_map() == before.attribute_map().insert(id, values),
        removed.attribute_map() == set.attribute_map().remove(id),
    ensures
        !removed.attribute_map().contains_key(id),
        removed.attribute_map() == before.attribute_map().remove(id),
{
    assert(removed.attribute_map() =~= before.attribute_map().remove(id));
}

} // verus!
