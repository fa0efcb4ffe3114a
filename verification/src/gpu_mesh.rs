use crate::handle::ArcHandle;
use crate::mesh::{
    attribute_key, bytes_before, entries_map, sorted_entries, Mesh, VertexAttributeId,
    VertexAttributeValues,
};
use vstd::prelude::*;

verus! {

#[verifier::external_type_specification]
#[verifier::external_body]
pub struct ExBuffer(wgpu::Buffer);

#[verifier::external_type_specification]
#[verifier::external_body]
pub struct ExVec3(glam::Vec3);

/// Handle of a GPU buffer
pub type ArcBuffer = ArcHandle<wgpu::Buffer>;

/// Axis aligned box that holds all positions of a mesh
pub struct BoundingBox {
    pub min: glam::Vec3,
    pub max: glam::Vec3,
}

/// Format of the indices in an index buffer
#[derive(Clone, Copy, Debug, PartialEq, Eq, Structural)]
pub enum IndexFormat {
    Uint16,
    Uint32,
}

/// A vertex buffer slot and the byte range of the attribute buffer bound to it
#[derive(Clone, Copy, Debug, PartialEq, Eq, Structural)]
pub struct VertexBufferBinding {
    pub slot: u32,
    pub start: u64,
    pub end: u64,
}

/// What binding a mesh to a render pass sets: each attribute's byte range of the attribute
/// buffer at its vertex buffer slot, and the index buffer, in its format, where there is one
pub struct PassBindings {
    pub vertex_buffers: Vec<VertexBufferBinding>,
    pub index_format: Option<IndexFormat>,
}

/// How a mesh is drawn: by its indices, or by its vertices in order
#[derive(Clone, Copy, Debug, PartialEq, Eq, Structural)]
pub enum DrawCall {
    Indexed { index_count: u32 },
    Vertices { vertex_count: u32 },
}

/// A mesh uploaded to the GPU: all attributes in one buffer, at their byte ranges
pub struct GpuMesh {
    pub attribute_buffer: ArcBuffer,
    pub attribute_ranges: Vec<(VertexAttributeId, (u64, u64))>,
    pub index_buffer: Option<ArcBuffer>,
    pub vertex_count: u32,
    pub index_count: Option<u32>,
    pub bounds: BoundingBox,
}

/// Ranges that name the entries' ids one for one, in the same order, name each id of the map
/// once, in increasing order where the entries are sorted
proof fn lemma_ranges_follow_entries(
    entries: Seq<(VertexAttributeId, VertexAttributeValues)>,
    ranges: Seq<(VertexAttributeId, (u64, u64))>,
)
    requires
        sorted_entries(entries),
        ranges.len() == entries.len(),
        forall|i: int| 0 <= i < ranges.len() ==> (#[trigger] ranges[i]).0 == entries[i].0,
    ensures
        forall|i: int, j: int|
            0 <= i < j < ranges.len() ==> attribute_key(#[trigger] ranges[i].0) < attribute_key(
                #[trigger] ranges[j].0,
            ),
        forall|i: int|
            0 <= i < ranges.len() ==> entries_map(entries).contains_key(#[trigger] ranges[i].0),
        forall|id: VertexAttributeId|
            #[trigger] entries_map(entries).contains_key(id) ==> exists|i: int|
                0 <= i < ranges.len() && ranges[i].0 == id,
{
    assert forall|i: int, j: int| 0 <= i < j < ranges.len() implies attribute_key(
        #[trigger] ranges[i].0,
    ) < attribute_key(#[trigger] ranges[j].0) by {
        assert(ranges[i].0 == entries[i].0 && ranges[j].0 == entries[j].0);
    }
    assert forall|i: int| 0 <= i < ranges.len() implies entries_map(entries).contains_key(
        #[trigger] ranges[i].0,
    ) by {
        assert(ranges[i].0 == entries[i].0);
    }
    assert forall|id: VertexAttributeId| #[trigger] entries_map(entries).contains_key(id) implies exists|
        i: int,
    | 0 <= i < ranges.len() && ranges[i].0 == id by {
        let i = choose|i: int| 0 <= i < entries.len() && entries[i].0 == id;
        assert(ranges[i].0 == id);
    }
}

impl GpuMesh {
    /// The byte range of each attribute, the vertex count and the index count of a mesh
    #[verifier::rlimit(40)]
    fn layout_of(mesh: &Mesh) -> (layout: (Vec<(VertexAttributeId, (u64, u64))>, u32, Option<u32>))
        requires
            mesh.spec_vertex_count() is Some,
            mesh.packed_size() <= u64::MAX,
        ensures
            layout.0@.len() == mesh.entries().len(),
            forall|i: int, j: int|
                0 <= i < j < layout.0@.len() ==> attribute_key(#[trigger] layout.0@[i].0)
                    < attribute_key(#[trigger] layout.0@[j].0),
            forall|i: int|
                0 <= i < layout.0@.len() ==> mesh.attribute_map().contains_key(#[trigger] layout.0@[i].0),
            forall|id: VertexAttributeId|
                #[trigger] mesh.attribute_map().contains_key(id) ==> exists|i: int|
                    0 <= i < layout.0@.len() && layout.0@[i].0 == id,
            forall|i: int|
                0 <= i < mesh.entries().len() ==> #[trigger] layout.0@[i] == (
                    mesh.entries()[i].0,
                    (
                        bytes_before(mesh.entries(), i) as u64,
                        bytes_before(mesh.entries(), i + 1) as u64,
                    ),
                ),
            Some(layout.1) == mesh.spec_vertex_count(),
            layout.2 == match mesh.index_list() {
                Some(inds) => Some(inds.len() as u32),
                None => None,
            },
    {
        let attribute_ranges = mesh.attribute_byte_ranges();
        let vertex_count = match mesh.vertex_count() {
            Some(count) => count,
            None => 0,
        };
        let index_count = mesh.index_count();
        proof {
            lemma_ranges_follow_entries(mesh.entries(), attribute_ranges@);
        }
        (attribute_ranges, vertex_count, index_count)
    }

    /// Takes the attribute layout of `mesh` for a mesh whose attributes have been uploaded,
    /// packed by `Mesh::packed_attribute_bytes`, into `attribute_buffer`, and whose indices, where
    /// it has any, have been uploaded into `index_buffer`
    pub fn new(
        mesh: &Mesh,
        attribute_buffer: ArcBuffer,
        index_buffer: Option<ArcBuffer>,
        bounds: BoundingBox,
    ) -> (gpu_mesh: Self)
        requires
            mesh.spec_vertex_count() is Some,
            mesh.packed_size() <= u64::MAX,
            mesh.attribute_map().contains_key(VertexAttributeId::Position),
            mesh.attribute_map()[VertexAttributeId::Position] is Float32x3,
            index_buffer is Some <==> mesh.index_list() is Some,
        ensures
            gpu_mesh.attribute_ranges@.len() == mesh.entries().len(),
            forall|i: int, j: int|
                0 <= i < j < gpu_mesh.attribute_ranges@.len() ==> attribute_key(
                    #[trigger] gpu_mesh.attribute_ranges@[i].0,
                ) < attribute_key(#[trigger] gpu_mesh.attribute_ranges@[j].0),
            forall|i: int|
                0 <= i < gpu_mesh.attribute_ranges@.len() ==> mesh.attribute_map().contains_key(
                    #[trigger] gpu_mesh.attribute_ranges@[i].0,
                ),
            forall|id: VertexAttributeId|
                #[trigger] mesh.attribute_map().contains_key(id) ==> exists|i: int|
                    0 <= i < gpu_mesh.attribute_ranges@.len() && gpu_mesh.attribute_ranges@[i].0
                        == id,
            forall|i: int|
                0 <= i < mesh.entries().len() ==> #[trigger] gpu_mesh.attribute_ranges@[i] == (
                    mesh.entries()[i].0,
                    (
                        bytes_before(mesh.entries(), i) as u64,
                        bytes_before(mesh.entries(), i + 1) as u64,
                    ),
                ),
            Some(gpu_mesh.vertex_count) == mesh.spec_vertex_count(),
            gpu_mesh.index_count == match mesh.index_list() {
                Some(inds) => Some(inds.len() as u32),
                None => None,
            },
            gpu_mesh.attribute_buffer == attribute_buffer,
            gpu_mesh.index_buffer == index_buffer,
            gpu_mesh.bounds == bounds,
    {
        let (attribute_ranges, vertex_count, index_count) = Self::layout_of(mesh);
        Self { attribute_buffer, attribute_ranges, index_buffer, vertex_count, index_count, bounds }
    }

    /// The vertex buffer bindings: attribute `i` at slot `i`
    pub fn vertex_buffer_bindings(&self) -> (bindings: Vec<VertexBufferBinding>)
        requires
            self.attribute_ranges@.len() <= u32::MAX,
        ensures
            bindings@.len() == self.attribute_ranges@.len(),
            forall|i: int|
                0 <= i < bindings@.len() ==> #[trigger] bindings@[i] == (VertexBufferBinding {
                    slot: i as u32,
                    start: self.attribute_ranges@[i].1.0,
                    end: self.attribute_ranges@[i].1.1,
                }),
    {
        let mut bindings: Vec<VertexBufferBinding> = Vec::new();
        let mut i: usize = 0;
        while i < self.attribute_ranges.len()
            invariant
                i <= self.attribute_ranges@.len(),
                self.attribute_ranges@.len() <= u32::MAX,
                bindings@.len() == i,
                forall|j: int|
                    0 <= j < i ==> #[trigger] bindings@[j] == (VertexBufferBinding {
                        slot: j as u32,
                        start: self.attribute_ranges@[j].1.0,
                        end: self.attribute_ranges@[j].1.1,
                    }),
            decreases self.attribute_ranges@.len() - i,
        {
            let (_, (start, end)) = self.attribute_ranges[i];
            bindings.push(VertexBufferBinding { slot: i as u32, start, end });
            i = i + 1;
        }
        bindings
    }

    /// The bindings that drawing the mesh sets on a render pass: attribute `i` at vertex
    /// buffer slot `i`, and the index buffer with `u32` indices where the mesh has one
    pub fn bind_to_render_pass(&self) -> (bindings: PassBindings)
        requires
            self.attribute_ranges@.len() <= u32::MAX,
        ensures
            bindings.vertex_buffers@.len() == self.attribute_ranges@.len(),
            forall|i: int|
                0 <= i < bindings.vertex_buffers@.len() ==> #[trigger] bindings.vertex_buffers@[i]
                    == (VertexBufferBinding {
                    slot: i as u32,
                    start: self.attribute_ranges@[i].1.0,
                    end: self.attribute_ranges@[i].1.1,
                }),
            bindings.index_format == if self.index_buffer is Some {
                Some(IndexFormat::Uint32)
            } else {
                None
            },
    {
        let vertex_buffers = self.vertex_buffer_bindings();
        let index_format = match &self.index_buffer {
            Some(_) => Some(IndexFormat::Uint32),
            None => None,
        };
        PassBindings { vertex_buffers, index_format }
    }

    /// The draw of the mesh, with base vertex 0 and 1 instance: by its indices where it has
    /// any, otherwise by its vertices
    pub fn draw_in_render_pass(&self) -> (call: DrawCall)
        ensures
            call == match self.index_count {
                Some(count) => DrawCall::Indexed { index_count: count },
                None => DrawCall::Vertices { vertex_count: self.vertex_count },
            },
    {
        match self.index_count {
            Some(count) => DrawCall::Indexed { index_count: count },
            None => DrawCall::Vertices { vertex_count: self.vertex_count },
        }
    }
}

} // verus!
