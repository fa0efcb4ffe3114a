use vstd::prelude::*;

verus! {

/// Number of vertices of a gizmo circle
pub const GIZMO_RESOLUTION: u32 = 16;

/// Indices of the two triangles of a quad whose four vertices start at `offset`, in the order
/// top left, top right, bottom left, bottom right
pub open spec fn spec_quad_indices(offset: u32) -> Seq<u32> {
    seq![offset, (offset + 1) as u32, (offset + 2) as u32, (offset + 2) as u32, (offset + 1) as u32, (offset + 3) as u32]
}

/// Triangle indices of a quad whose four vertices start at `offset`
pub fn quad_indices(offset: u32) -> (indices: [u32; 6])
    requires
        offset + 3 <= u32::MAX,
    ensures
        indices@ == spec_quad_indices(offset),
{
    let indices = [offset, offset + 1, offset + 2, offset + 2, offset + 1, offset + 3];
    assert(indices@ =~= spec_quad_indices(offset));
    indices
}

/// Line list indices that join vertex `start + i` to `start + (i + 1) % count` for each `i`:
/// a closed loop through `count` vertices
pub open spec fn spec_ring_indices(start: u32, count: u32) -> Seq<u32> {
    Seq::new(
        2 * count as nat,
        |k: int|
            if k % 2 == 0 {
                (start + k / 2) as u32
            } else {
                (start + (k / 2 + 1) % (count as int)) as u32
            },
    )
}

/// Line list indices of a closed loop through the `count` vertices from `start`
pub fn ring_indices(start: u32, count: u32) -> (indices: Vec<u32>)
    requires
        count > 0,
        start + count <= u32::MAX,
    ensures
        indices@ == spec_ring_indices(start, count),
{
    let mut indices: Vec<u32> = Vec::new();
    let mut i: u32 = 0;
    while i < count
        invariant
            count > 0,
            start + count <= u32::MAX,
            i <= count,
            indices@ =~= spec_ring_indices(start, count).take(2 * i as int),
        decreases count - i,
    {
        let ghost target = spec_ring_indices(start, count);
        indices.push(start + i);
        indices.push(start + (i + 1) % count);
        proof {
            assert(target[2 * i as int] == (start + i) as u32);
            assert(target[2 * i + 1] == (start + (i + 1) % (count as int)) as u32) by {
                assert((2 * i + 1) / 2 == i as int);
                assert((2 * i + 1) % 2 == 1);
            }
            assert(indices@ =~= target.take(2 * (i + 1) as int));
        }
        i = i + 1;
    }
    proof {
        assert(spec_ring_indices(start, count).take(2 * count as int) =~= spec_ring_indices(start, count));
    }
    indices
}

/// Line list indices of the twelve edges of a box whose eight vertices start at `start`:
/// four of the bottom, four of the top, then four from bottom to top
pub open spec fn spec_cube_indices(start: u32) -> Seq<u32> {
    seq![
        start, (start + 1) as u32, (start + 1) as u32, (start + 2) as u32,
        (start + 2) as u32, (start + 3) as u32, (start + 3) as u32, start,
        (start + 4) as u32, (start + 5) as u32, (start + 5) as u32, (start + 6) as u32,
        (start + 6) as u32, (start + 7) as u32, (start + 7) as u32, (start + 4) as u32,
        start, (start + 4) as u32, (start + 1) as u32, (start + 5) as u32,
        (start + 2) as u32, (start + 6) as u32, (start + 3) as u32, (start + 7) as u32,
    ]
}

/// Line list indices of the edges of a box whose eight vertices start at `start`
pub fn cube_indices(start: u32) -> (indices: Vec<u32>)
    requires
        start + 7 <= u32::MAX,
    ensures
        indices@ == spec_cube_indices(start),
{
    let indices = vec![
        // Bottom
        start, start + 1, start + 1, start + 2, start + 2, start + 3, start + 3, start,
        // Top
        start + 4, start + 5, start + 5, start + 6, start + 6, start + 7, start + 7, start + 4,
        // Connections
        start, start + 4, start + 1, start + 5, start + 2, start + 6, start + 3, start + 7,
    ];
    assert(indices@ =~= spec_cube_indices(start));
    indices
}

/// Line list indices of the four edges of a quad whose four vertices start at `start`
pub fn quad_line_indices(start: u32) -> (indices: Vec<u32>)
    requires
        start + 3 <= u32::MAX,
    ensures
        indices@ == seq![
            start, (start + 1) as u32, (start + 1) as u32, (start + 2) as u32,
            (start + 2) as u32, (start + 3) as u32, (start + 3) as u32, start,
        ],
        indices@ == spec_ring_indices(start, 4),
{
    let indices = vec![start, start + 1, start + 1, start + 2, start + 2, start + 3, start + 3, start];
    assert(spec_ring_indices(start, 4) =~= seq![
        start, (start + 1) as u32, (start + 1) as u32, (start + 2) as u32,
        (start + 2) as u32, (start + 3) as u32, (start + 3) as u32, start,
    ]);
    assert(indices@ =~= seq![
        start, (start + 1) as u32, (start + 1) as u32, (start + 2) as u32,
        (start + 2) as u32, (start + 3) as u32, (start + 3) as u32, start,
    ]);
    indices
}

/// Line list indices of a line between the two vertices from `start`
pub fn line_indices(start: u32) -> (indices: [u32; 2])
    requires
        start + 1 <= u32::MAX,
    ensures
        indices@ == seq![start, (start + 1) as u32],
{
    let indices = [start, start + 1];
    assert(indices@ =~= seq![start, (start + 1) as u32]);
    indices
}

/// Line list indices of the three great circles of a sphere, each `resolution` vertices,
/// one after the other from `start`
pub fn sphere_indices(start: u32, resolution: u32) -> (indices: Vec<u32>)
    requires
        resolution > 0,
        start + 3 * resolution <= u32::MAX,
    ensures
        indices@ == spec_ring_indices(start, resolution) + spec_ring_indices(
            (start + resolution) as u32,
            resolution,
        ) + spec_ring_indices((start + 2 * resolution) as u32, resolution),
{
    let mut indices = ring_indices(start, resolution);
    let mut second = ring_indices(start + resolution, resolution);
    let mut third = ring_indices(start + 2 * resolution, resolution);
    indices.append(&mut second);
    indices.append(&mut third);
    indices
}

/// Some line of a line list starts at vertex `v`
pub open spec fn starts_a_line(lines: Seq<u32>, v: int) -> bool {
    exists|k: int| 0 <= k < lines.len() / 2 && #[trigger] lines[2 * k] == v
}

/// Some index of the list is vertex `v`
pub open spec fn uses_vertex(indices: Seq<u32>, v: int) -> bool {
    exists|i: int| 0 <= i < indices.len() && #[trigger] indices[i] == v
}

/// The lines of a ring run round one closed loop through all its vertices: each line goes
/// from a vertex to the next one round the loop, the last back to the first, and each vertex
/// starts exactly one line.
pub proof fn ring_lines_close_a_loop(start: u32, count: u32)
    requires
        count > 0,
        start + count <= u32::MAX,
    ensures
        spec_ring_indices(start, count).len() == 2 * count,
        forall|k: int|
            0 <= k < count ==> start <= #[trigger] spec_ring_indices(start, count)[2 * k] < start
                + count && spec_ring_indices(start, count)[2 * k + 1] - start == (
            spec_ring_indices(start, count)[2 * k] - start + 1) % (count as int),
        forall|k: int, j: int|
            0 <= k < j < count ==> #[trigger] spec_ring_indices(start, count)[2 * k]
                != #[trigger] spec_ring_indices(start, count)[2 * j],
        forall|v: int|
            start <= v < start + count ==> #[trigger] starts_a_line(spec_ring_indices(start, count), v),
{
    let s = spec_ring_indices(start, count);
    assert forall|k: int| 0 <= k < count implies start <= #[trigger] s[2 * k] < start + count
        && s[2 * k + 1] - start == (s[2 * k] - start + 1) % (count as int) by {
        assert((2 * k) / 2 == k && (2 * k) % 2 == 0);
        assert((2 * k + 1) / 2 == k && (2 * k + 1) % 2 == 1);
    }
    assert forall|k: int, j: int| 0 <= k < j < count implies #[trigger] s[2 * k] != #[trigger] s[2
        * j] by {
        assert((2 * k) / 2 == k && (2 * k) % 2 == 0);
        assert((2 * j) / 2 == j && (2 * j) % 2 == 0);
    }
    assert forall|v: int| start <= v < start + count implies #[trigger] starts_a_line(s, v) by {
        let k = v - start;
        assert((2 * k) / 2 == k && (2 * k) % 2 == 0);
        assert(s[2 * k] == v);
    }
}

/// Column of corner `v` of a quad whose corners are numbered top left, top right, bottom left,
/// bottom right
pub open spec fn corner_x(v: int) -> int {
    v % 2
}

/// Row of corner `v` of a quad, rows counted downwards
pub open spec fn corner_y(v: int) -> int {
    v / 2
}

/// Twice the signed area of the triangle of corners `a`, `b`, `c`: its sign is the direction in
/// which the triangle turns
pub open spec fn turn(a: int, b: int, c: int) -> int {
    (corner_x(b) - corner_x(a)) * (corner_y(c) - corner_y(a)) - (corner_y(b) - corner_y(a)) * (
    corner_x(c) - corner_x(a))
}

/// The two triangles of a quad cover it: both turn the same way, neither is flat, together they
/// take the whole area of the quad, and every corner is used.
pub proof fn quad_triangles_cover_the_quad(offset: u32)
    requires
        offset + 3 <= u32::MAX,
    ensures
        ({
            let s = spec_quad_indices(offset);
            let r = |i: int| s[i] - offset;
            &&& s.len() == 6
            &&& forall|i: int| 0 <= i < 6 ==> 0 <= #[trigger] s[i] - offset < 4
            &&& turn(r(0), r(1), r(2)) == turn(r(3), r(4), r(5))
            &&& turn(r(0), r(1), r(2)) != 0
            &&& turn(r(0), r(1), r(2)) + turn(r(3), r(4), r(5)) == 2 || turn(r(0), r(1), r(2))
                + turn(r(3), r(4), r(5)) == -2
            &&& forall|v: int| offset <= v < offset + 4 ==> #[trigger] uses_vertex(s, v)
        }),
{
    let s = spec_quad_indices(offset);
    assert(s[0] - offset == 0 && s[1] - offset == 1 && s[2] - offset == 2);
    assert(s[3] - offset == 2 && s[4] - offset == 1 && s[5] - offset == 3);
    assert(corner_x(0) == 0 && corner_y(0) == 0 && corner_x(1) == 1 && corner_y(1) == 0);
    assert(corner_x(2) == 0 && corner_y(2) == 1 && corner_x(3) == 1 && corner_y(3) == 1);
    assert(turn(0, 1, 2) == 1);
    assert(turn(2, 1, 3) == 1);
    assert forall|i: int| 0 <= i < 6 implies 0 <= #[trigger] s[i] - offset < 4 by {}
    assert forall|v: int| offset <= v < offset + 4 implies #[trigger] uses_vertex(s, v) by {
        if v == offset + 3 {
            assert(s[5] == v);
        } else {
            assert(s[v - offset] == v);
        }
    }
}

/// Every index of a loop refers to one of its own vertices.
pub proof fn ring_indices_in_range(start: u32, count: u32, k: int)
    requires
        count > 0,
        start + count <= u32::MAX,
        0 <= k < 2 * count,
    ensures
        start <= spec_ring_indices(start, count)[k] < start + count,
{
}

/// Whether vertices `a` and `b` of a box are joined by one of its twelve edges, either way
/// round: the vertices are numbered four round the bottom face, then the four above them in
/// the same order
pub open spec fn is_box_edge(a: int, b: int) -> bool {
    ||| (0 <= a < 4 && 0 <= b < 4 && (b == (a + 1) % 4 || a == (b + 1) % 4))
    ||| (4 <= a < 8 && 4 <= b < 8 && (b - 4 == (a - 3) % 4 || a - 4 == (b - 3) % 4))
    ||| (0 <= a < 4 && b == a + 4)
    ||| (0 <= b < 4 && a == b + 4)
}

/// Two lines join the same two vertices
pub open spec fn same_line(a0: int, a1: int, b0: int, b1: int) -> bool {
    (a0 == b0 && a1 == b1) || (a0 == b1 && a1 == b0)
}

/// The lines of a box are its twelve edges, each drawn once: every line joins two vertices
/// that an edge joins, no two lines join the same vertices, and every edge is drawn.
pub proof fn cube_lines_are_the_box_edges(start: u32)
    requires
        start + 7 <= u32::MAX,
    ensures
        spec_cube_indices(start).len() == 24,
        forall|k: int|
            0 <= k < 12 ==> is_box_edge(
                #[trigger] spec_cube_indices(start)[2 * k] - start,
                spec_cube_indices(start)[2 * k + 1] - start,
            ),
        forall|k: int, j: int|
            0 <= k < j < 12 ==> !same_line(
                #[trigger] spec_cube_indices(start)[2 * k] as int,
                spec_cube_indices(start)[2 * k + 1] as int,
                #[trigger] spec_cube_indices(start)[2 * j] as int,
                spec_cube_indices(start)[2 * j + 1] as int,
            ),
        forall|a: int, b: int|
            #[trigger] is_box_edge(a, b) ==> exists|k: int|
                0 <= k < 12 && same_line(
                    #[trigger] spec_cube_indices(start)[2 * k] - start,
                    spec_cube_indices(start)[2 * k + 1] - start,
                    a,
                    b,
                ),
{
    let s = spec_cube_indices(start);
    assert forall|a: int, b: int| #[trigger] is_box_edge(a, b) implies exists|k: int|
        0 <= k < 12 && same_line(#[trigger] s[2 * k] - start, s[2 * k + 1] - start, a, b) by {
        let k: int = if 0 <= a < 4 && 0 <= b < 4 {
            if b == (a + 1) % 4 { a } else { b }
        } else if 4 <= a < 8 && 4 <= b < 8 {
            if b - 4 == (a - 3) % 4 { a } else { b }
        } else if 0 <= a < 4 {
            8 + a
        } else {
            8 + b
        };
        assert(same_line(s[2 * k] - start, s[2 * k + 1] - start, a, b));
    }
}

/// Every index of a box refers to one of its own eight vertices.
pub proof fn cube_indices_in_range(start: u32, k: int)
    requires
        start + 7 <= u32::MAX,
        0 <= k < 24,
    ensures
        start <= spec_cube_indices(start)[k] < start + 8,
{
}

/// Every index of a quad refers to one of its own four vertices.
pub proof fn quad_indices_in_range(offset: u32, k: int)
    requires
        offset + 3 <= u32::MAX,
        0 <= k < 6,
    ensures
        offset <= spec_quad_indices(offset)[k] < offset + 4,
{
}

/// Every index of `indices` refers to one of the first `vertex_count` vertices
pub open spec fn indices_within(indices: Seq<u32>, vertex_count: nat) -> bool {
    forall|k: int| 0 <= k < indices.len() ==> (#[trigger] indices[k] as nat) < vertex_count
}

/// The index side of a batch of gizmo lines: how many vertices the batch holds, and the
/// line list indices into them. Each shape takes its first index from the vertex count
/// before it and then appends its vertices.
pub struct GizmoBatch {
    vertex_count: u32,
    indices: Vec<u32>,
}

impl GizmoBatch {
    #[verifier::type_invariant]
    spec fn indices_refer_to_vertices(self) -> bool {
        indices_within(self.indices@, self.vertex_count as nat)
    }

    /// Number of vertices in the batch
    pub closed spec fn vertex_total(self) -> nat {
        self.vertex_count as nat
    }

    /// The indices of the batch
    pub closed spec fn index_list(self) -> Seq<u32> {
        self.indices@
    }

    pub fn new() -> (batch: Self)
        ensures
            batch.vertex_total() == 0,
            batch.index_list() == Seq::<u32>::empty(),
    {
        Self { vertex_count: 0, indices: Vec::new() }
    }

    pub fn vertex_count(&self) -> (count: u32)
        ensures
            count == self.vertex_total(),
    {
        self.vertex_count
    }

    pub fn indices(&self) -> (indices: &Vec<u32>)
        ensures
            indices@ == self.index_list(),
            indices_within(indices@, self.vertex_total()),
    {
        proof {
            use_type_invariant(self);
        }
        &self.indices
    }

    /// Empties the batch once it has been drawn
    pub fn clear(&mut self)
        ensures
            final(self).vertex_total() == 0,
            final(self).index_list() == Seq::<u32>::empty(),
    {
        self.indices = Vec::new();
        self.vertex_count = 0;
    }

    /// Appends `vertices` vertices and then `indices`, which refer to them from the current
    /// vertex count on
    fn append(&mut self, vertices: u32, indices: Vec<u32>)
        requires
            old(self).vertex_total() + vertices <= u32::MAX,
            forall|k: int|
                0 <= k < indices@.len() ==> old(self).vertex_total() <= #[trigger] indices@[k]
                    < old(self).vertex_total() + vertices,
        ensures
            final(self).vertex_total() == old(self).vertex_total() + vertices,
            final(self).index_list() == old(self).index_list() + indices@,
            indices_within(final(self).index_list(), final(self).vertex_total()),
    {
        proof {
            use_type_invariant(&*self);
        }
        let ghost added = indices@;
        let mut all: Vec<u32> = Vec::new();
        std::mem::swap(&mut all, &mut self.indices);
        let ghost before = all@;
        let mut indices = indices;
        all.append(&mut indices);
        let vertex_count = self.vertex_count + vertices;
        proof {
            assert forall|k: int| 0 <= k < all@.len() implies (#[trigger] all@[k] as nat)
                < vertex_count as nat by {
                if k >= before.len() {
                    assert(all@[k] == added[k - before.len()]);
                }
            }
        }
        *self = Self { vertex_count, indices: all };
        proof {
            use_type_invariant(&*self);
        }
    }
}

impl GizmoBatch {
    /// Indices of a line between two new vertices; returns the index of its first vertex
    pub fn add_line(&mut self) -> (start: u32)
        requires
            old(self).vertex_total() + 2 <= u32::MAX,
        ensures
            start == old(self).vertex_total(),
            final(self).vertex_total() == old(self).vertex_total() + 2,
            indices_within(final(self).index_list(), final(self).vertex_total()),
            final(self).index_list() == old(self).index_list() + seq![start, (start + 1) as u32],
    {
        let start = self.vertex_count;
        let pair = line_indices(start);
        self.append(2, vec![pair[0], pair[1]]);
        start
    }

    /// Indices of a circle of `GIZMO_RESOLUTION` new vertices; returns the index of its first
    /// vertex
    pub fn add_circle(&mut self) -> (start: u32)
        requires
            old(self).vertex_total() + GIZMO_RESOLUTION <= u32::MAX,
        ensures
            start == old(self).vertex_total(),
            final(self).vertex_total() == old(self).vertex_total() + GIZMO_RESOLUTION,
            indices_within(final(self).index_list(), final(self).vertex_total()),
            final(self).index_list() == old(self).index_list() + spec_ring_indices(
                start,
                GIZMO_RESOLUTION,
            ),
    {
        let start = self.vertex_count;
        let indices = ring_indices(start, GIZMO_RESOLUTION);
        proof {
            assert forall|k: int| 0 <= k < indices@.len() implies start <= #[trigger] indices@[k]
                < start + GIZMO_RESOLUTION by {
                ring_indices_in_range(start, GIZMO_RESOLUTION, k);
            }
        }
        self.append(GIZMO_RESOLUTION, indices);
        start
    }

    /// Indices of the three great circles of a sphere, `GIZMO_RESOLUTION` new vertices each;
    /// returns the index of its first vertex
    pub fn add_sphere(&mut self) -> (start: u32)
        requires
            old(self).vertex_total() + 3 * GIZMO_RESOLUTION <= u32::MAX,
        ensures
            start == old(self).vertex_total(),
            final(self).vertex_total() == old(self).vertex_total() + 3 * GIZMO_RESOLUTION,
            indices_within(final(self).index_list(), final(self).vertex_total()),
            final(self).index_list() == old(self).index_list() + spec_ring_indices(
                start,
                GIZMO_RESOLUTION,
            ) + spec_ring_indices((start + GIZMO_RESOLUTION) as u32, GIZMO_RESOLUTION)
                + spec_ring_indices((start + 2 * GIZMO_RESOLUTION) as u32, GIZMO_RESOLUTION),
    {
        let start = self.vertex_count;
        let n = GIZMO_RESOLUTION;
        let indices = sphere_indices(start, n);
        proof {
            let first = spec_ring_indices(start, n);
            let second = spec_ring_indices((start + n) as u32, n);
            let third = spec_ring_indices((start + 2 * n) as u32, n);
            assert forall|k: int| 0 <= k < indices@.len() implies start <= #[trigger] indices@[k]
                < start + 3 * n by {
                if k < 2 * n {
                    assert(indices@[k] == first[k]);
                    ring_indices_in_range(start, n, k);
                } else if k < 4 * n {
                    assert(indices@[k] == second[k - 2 * n]);
                    ring_indices_in_range((start + n) as u32, n, k - 2 * n);
                } else {
                    assert(indices@[k] == third[k - 4 * n]);
                    ring_indices_in_range((start + 2 * n) as u32, n, k - 4 * n);
                }
            }
        }
        self.append(3 * n, indices);
        start
    }

    /// Indices of the twelve edges of a box of eight new vertices; returns the index of its
    /// first vertex
    pub fn add_cube(&mut self) -> (start: u32)
        requires
            old(self).vertex_total() + 8 <= u32::MAX,
        ensures
            start == old(self).vertex_total(),
            final(self).vertex_total() == old(self).vertex_total() + 8,
            indices_within(final(self).index_list(), final(self).vertex_total()),
            final(self).index_list() == old(self).index_list() + spec_cube_indices(start),
    {
        let start = self.vertex_count;
        let indices = cube_indices(start);
        proof {
            assert forall|k: int| 0 <= k < indices@.len() implies start <= #[trigger] indices@[k]
                < start + 8 by {
                cube_indices_in_range(start, k);
            }
        }
        self.append(8, indices);
        start
    }

    /// Indices of the four edges of a quad of four new vertices; returns the index of its
    /// first vertex
    pub fn add_quad(&mut self) -> (start: u32)
        requires
            old(self).vertex_total() + 4 <= u32::MAX,
        ensures
            start == old(self).vertex_total(),
            final(self).vertex_total() == old(self).vertex_total() + 4,
            indices_within(final(self).index_list(), final(self).vertex_total()),
            final(self).index_list() == old(self).index_list() + seq![
                start, (start + 1) as u32, (start + 1) as u32, (start + 2) as u32,
                (start + 2) as u32, (start + 3) as u32, (start + 3) as u32, start,
            ],
            final(self).index_list() == old(self).index_list() + spec_ring_indices(start, 4),
    {
        let start = self.vertex_count;
        let indices = quad_line_indices(start);
        self.append(4, indices);
        start
    }
}

} // verus!
