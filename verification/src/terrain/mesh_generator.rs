//! The layout of a terrain mesh: which samples of a height map become
//! vertices at a given level of detail, how vertices are numbered, and the
//! triangles that join them.
//!
//! The height map of a chunk has a one-sample border on each side. Border
//! samples become border vertices, numbered `-1, -2, ...` (stored in the
//! vertex index map as the `u32` with the same bits), which only serve to
//! compute the normals at the edge of the chunk; the other samples become mesh
//! vertices, numbered `0, 1, ...` row by row. Vertex positions, texture
//! coordinates and normals are `f32` values held as bit patterns (see
//! `crate::float_bits`); the application computes them.
use vstd::prelude::*;

verus! {

/// The vertices, texture coordinates, triangles and normals of a mesh, with
/// the border vertices and triangles kept apart.
#[derive(Debug)]
pub struct MeshData {
    pub vertices: Vec<[u32; 3]>,
    pub uvs: Vec<[u32; 2]>,
    pub triangles: Vec<u32>,
    pub normals: Vec<[u32; 3]>,
    border_vertices: Vec<[u32; 3]>,
    border_triangles: Vec<i32>,
    triangle_index: Option<usize>,
    border_triangle_index: Option<usize>,
}

/// `Option::unwrap_or(0)` on a slot index.
pub open spec fn slot(index: Option<usize>) -> int {
    match index {
        Some(i) => i as int,
        None => 0,
    }
}

impl MeshData {
    /// The mesh vertex positions.
    pub closed spec fn vertices_view(&self) -> Seq<[u32; 3]> {
        self.vertices@
    }

    /// The texture coordinates of the mesh vertices.
    pub closed spec fn uvs_view(&self) -> Seq<[u32; 2]> {
        self.uvs@
    }

    /// The mesh triangles, three vertex numbers each.
    pub closed spec fn triangles_view(&self) -> Seq<u32> {
        self.triangles@
    }

    /// The normals of the mesh vertices.
    pub closed spec fn normals_view(&self) -> Seq<[u32; 3]> {
        self.normals@
    }

    /// The positions of the border vertices.
    pub closed spec fn border_vertices_view(&self) -> Seq<[u32; 3]> {
        self.border_vertices@
    }

    /// The triangles that touch a border vertex, as signed vertex numbers.
    pub closed spec fn border_triangles_view(&self) -> Seq<i32> {
        self.border_triangles@
    }

    /// Where the next mesh triangle is written.
    pub closed spec fn next_triangle(&self) -> int {
        slot(self.triangle_index)
    }

    /// Where the next border triangle is written.
    pub closed spec fn next_border_triangle(&self) -> int {
        slot(self.border_triangle_index)
    }

    /// Room for a square grid of `vertices_per_line` mesh vertices per side
    /// and the ring of border vertices around it, all zero.
    pub fn new(vertices_per_line: usize) -> (mesh: Self)
        requires
            1 <= vertices_per_line,
            (vertices_per_line + 2) * (vertices_per_line + 2) * 6 <= usize::MAX,
        ensures
            mesh.vertices_view() == Seq::new((vertices_per_line * vertices_per_line) as nat, |i: int| [0u32, 0u32, 0u32]),
            mesh.uvs_view() == Seq::new((vertices_per_line * vertices_per_line) as nat, |i: int| [0u32, 0u32]),
            mesh.triangles_view() == Seq::new(((vertices_per_line - 1) * (vertices_per_line - 1) * 6) as nat, |i: int| 0u32),
            mesh.normals_view() == Seq::new((vertices_per_line * vertices_per_line) as nat, |i: int| [0u32, 0u32, 0u32]),
            mesh.border_vertices_view() == Seq::new((vertices_per_line * 4 + 4) as nat, |i: int| [0u32, 0u32, 0u32]),
            mesh.border_triangles_view() == Seq::new((vertices_per_line * 24) as nat, |i: int| 0i32),
            mesh.next_triangle() == 0,
            mesh.next_border_triangle() == 0,
    {
        let v = vertices_per_line;
        assert((v + 2) * (v + 2) == v * v + v * 4 + 4) by (nonlinear_arith);
        assert(v * v <= (v + 2) * (v + 2)) by (nonlinear_arith) requires v >= 1;
        assert((v - 1) * (v - 1) * 6 <= (v + 2) * (v + 2) * 6) by (nonlinear_arith) requires v >= 1;
        assert(v * 24 <= (v + 2) * (v + 2) * 6) by (nonlinear_arith) requires v >= 1;
        let count = v * v;
        Self {
            vertices: filled_vec(count, [0u32, 0u32, 0u32]),
            uvs: filled_vec(count, [0u32, 0u32]),
            triangles: filled_vec((v - 1) * (v - 1) * 6, 0u32),
            normals: filled_vec(count, [0u32, 0u32, 0u32]),
            border_vertices: filled_vec(v * 4 + 4, [0u32, 0u32, 0u32]),
            border_triangles: filled_vec(v * 24, 0i32),
            triangle_index: None,
            border_triangle_index: None,
        }
    }
}

/// Whether a triangle touches a border vertex: border vertices are numbered
/// from `-1` down, so as `u32`s they are at least the number of mesh vertices.
pub open spec fn touches_border(a: u32, b: u32, c: u32, vertex_count: int) -> bool {
    a >= vertex_count || b >= vertex_count || c >= vertex_count
}

impl MeshData {
    /// Stores a vertex and its texture coordinates; a negative index `-k`
    /// names border vertex `k - 1`, which has no texture coordinates.
    pub fn add_vertex(&mut self, vertex: [u32; 3], uv: [u32; 2], vertex_index: i32)
        requires
            vertex_index < 0 ==> i32::MIN < vertex_index && -vertex_index - 1 < old(self).border_vertices_view().len(),
            vertex_index >= 0 ==> vertex_index < old(self).vertices_view().len() && vertex_index
                < old(self).uvs_view().len(),
        ensures
            vertex_index < 0 ==> {
                &&& final(self).border_vertices_view() == old(self).border_vertices_view().update(-vertex_index - 1, vertex)
                &&& final(self).vertices_view() == old(self).vertices_view()
                &&& final(self).uvs_view() == old(self).uvs_view()
            },
            vertex_index >= 0 ==> {
                &&& final(self).vertices_view() == old(self).vertices_view().update(vertex_index as int, vertex)
                &&& final(self).uvs_view() == old(self).uvs_view().update(vertex_index as int, uv)
                &&& final(self).border_vertices_view() == old(self).border_vertices_view()
            },
            final(self).triangles_view() == old(self).triangles_view(),
            final(self).normals_view() == old(self).normals_view(),
            final(self).border_triangles_view() == old(self).border_triangles_view(),
            final(self).next_triangle() == old(self).next_triangle(),
            final(self).next_border_triangle() == old(self).next_border_triangle(),
    {
        if vertex_index < 0 {
            self.border_vertices.set((-vertex_index - 1) as usize, vertex);
        } else {
            let index = vertex_index as usize;
            self.vertices.set(index, vertex);
            self.uvs.set(index, uv);
        }
    }

    /// Appends a triangle. A triangle that touches a border vertex goes to the
    /// border triangles, with its indices read back as the negative numbers
    /// they encode; any other goes to the mesh triangles.
    pub fn add_triangle(&mut self, a: u32, b: u32, c: u32)
        requires
            old(self).vertices_view().len() <= u32::MAX,
            touches_border(a, b, c, old(self).vertices_view().len() as int) ==> old(self).next_border_triangle() + 3
                <= old(self).border_triangles_view().len(),
            !touches_border(a, b, c, old(self).vertices_view().len() as int) ==> old(self).next_triangle() + 3
                <= old(self).triangles_view().len(),
        ensures
            touches_border(a, b, c, old(self).vertices_view().len() as int) ==> {
                let i = old(self).next_border_triangle();
                &&& final(self).border_triangles_view() == old(self).border_triangles_view().update(i, a as i32).update(
                    i + 1,
                    b as i32,
                ).update(i + 2, c as i32)
                &&& final(self).next_border_triangle() == i + 3
                &&& final(self).triangles_view() == old(self).triangles_view()
                &&& final(self).next_triangle() == old(self).next_triangle()
            },
            !touches_border(a, b, c, old(self).vertices_view().len() as int) ==> {
                let i = old(self).next_triangle();
                &&& final(self).triangles_view() == old(self).triangles_view().update(i, a).update(i + 1, b).update(
                    i + 2,
                    c,
                )
                &&& final(self).next_triangle() == i + 3
                &&& final(self).border_triangles_view() == old(self).border_triangles_view()
                &&& final(self).next_border_triangle() == old(self).next_border_triangle()
            },
            final(self).vertices_view() == old(self).vertices_view(),
            final(self).uvs_view() == old(self).uvs_view(),
            final(self).normals_view() == old(self).normals_view(),
            final(self).border_vertices_view() == old(self).border_vertices_view(),
    {
        let vertex_count_threshold = self.vertices.len() as u32;
        assert(vertex_count_threshold == self.vertices_view().len());
        let is_border_triangle = a >= vertex_count_threshold || b >= vertex_count_threshold
            || c >= vertex_count_threshold;
        if is_border_triangle {
            let idx = match self.border_triangle_index {
                Some(i) => i,
                None => 0,
            };
            let len = self.border_triangles.len();
            assert(idx + 3 <= len);
            self.border_triangles.set(idx, #[verifier::truncate] (a as i32));
            self.border_triangles.set(idx + 1, #[verifier::truncate] (b as i32));
            self.border_triangles.set(idx + 2, #[verifier::truncate] (c as i32));
            self.border_triangle_index = Some(idx + 3);
        } else {
            let idx = match self.triangle_index {
                Some(i) => i,
                None => 0,
            };
            let len = self.triangles.len();
            assert(idx + 3 <= len);
            self.triangles.set(idx, a);
            self.triangles.set(idx + 1, b);
            self.triangles.set(idx + 2, c);
            self.triangle_index = Some(idx + 3);
        }
    }
}

/// The largest bordered height map whose vertices the mesh can number: vertex
/// indices are `u32`s, border vertices take the values from `u32::MAX` down,
/// and they must stay apart from the mesh vertices, numbered from `0` up.
pub const MAX_BORDERED_SIZE: usize = 65536;

/// How many samples apart neighbouring vertices lie at a level of detail.
pub open spec fn lod_increment(level_of_detail: u32) -> int {
    if level_of_detail == 0 {
        1
    } else if level_of_detail == 1 {
        2
    } else if level_of_detail == 2 {
        4
    } else if level_of_detail == 3 {
        8
    } else {
        16
    }
}

/// The number of samples `1, 1 + inc, 1 + 2 * inc, ...` that are at most `m`.
pub open spec fn step_count(m: int, inc: int) -> int {
    (m - 1) / inc + 1
}

/// The last of the samples `1, 1 + inc, ...` that is at most `m`.
pub open spec fn last_step(m: int, inc: int) -> int {
    1 + (step_count(m, inc) - 1) * inc
}

/// The number of mesh vertices along one side of a chunk of `m` samples:
/// every `inc`-th sample from the first, and the last sample too.
pub open spec fn vertices_per_line(m: int, inc: int) -> int {
    step_count(m, inc) + if last_step(m, inc) == m {
        0int
    } else {
        1int
    }
}

/// The `k`-th sample (along either axis) of a bordered height map of side
/// `bordered_size` that becomes a vertex: the border sample `0`, the mesh
/// samples, then the border sample `bordered_size - 1`.
pub open spec fn sample_index(bordered_size: int, inc: int, k: int) -> int {
    let m = bordered_size - 2;
    if k == 0 {
        0
    } else if k <= step_count(m, inc) {
        1 + (k - 1) * inc
    } else if k <= vertices_per_line(m, inc) {
        m
    } else {
        bordered_size - 1
    }
}

/// All samples (along either axis) that become vertices, in increasing order.
pub open spec fn sample_indices(bordered_size: int, inc: int) -> Seq<int> {
    Seq::new(
        (vertices_per_line(bordered_size - 2, inc) + 2) as nat,
        |k: int| sample_index(bordered_size, inc, k),
    )
}

/// `1 + t * inc` is at most `m` exactly when `t` is below the step count.
proof fn lemma_step_within(m: int, inc: int, t: int)
    requires
        1 <= m,
        1 <= inc,
        0 <= t,
    ensures
        1 + t * inc <= m <==> t < step_count(m, inc),
        1 <= step_count(m, inc) <= m,
        1 <= last_step(m, inc) <= m,
        last_step(m, inc) + inc > m,
{
    let q = (m - 1) / inc;
    let r = (m - 1) % inc;
    assert(q * inc + r == m - 1 && 0 <= r < inc) by (nonlinear_arith)
        requires
            1 <= inc,
            q == (m - 1) / inc,
            r == (m - 1) % inc,
    ;
    assert(1 + t * inc <= m <==> t <= q) by (nonlinear_arith)
        requires
            q * inc + r == m - 1,
            0 <= r < inc,
            0 <= t,
            1 <= inc,
    ;
    assert(0 <= q <= q * inc) by (nonlinear_arith)
        requires
            q * inc + r == m - 1,
            0 <= r < inc,
            1 <= m,
            1 <= inc,
    ;
}

/// The vertex samples of a side are strictly increasing, start at the border
/// sample `0`, end at the border sample `bordered_size - 1`, and lie in
/// between otherwise.
pub proof fn lemma_sample_indices_increasing(bordered_size: int, inc: int)
    requires
        3 <= bordered_size,
        1 <= inc,
    ensures
        3 <= sample_indices(bordered_size, inc).len() <= bordered_size,
        sample_indices(bordered_size, inc)[0] == 0,
        sample_indices(bordered_size, inc).last() == bordered_size - 1,
        forall|k: int|
            0 < k < sample_indices(bordered_size, inc).len() - 1 ==> 0 < #[trigger] sample_indices(
                bordered_size,
                inc,
            )[k] < bordered_size - 1,
        forall|k1: int, k2: int|
            0 <= k1 < k2 < sample_indices(bordered_size, inc).len() ==> #[trigger] sample_indices(
                bordered_size,
                inc,
            )[k1] < #[trigger] sample_indices(bordered_size, inc)[k2],
{
    let m = bordered_size - 2;
    let s = sample_indices(bordered_size, inc);
    let sc = step_count(m, inc);
    lemma_step_within(m, inc, 0);
    lemma_step_within(m, inc, sc - 1);
    assert(sc - 1 <= (sc - 1) * inc) by (nonlinear_arith)
        requires
            1 <= sc,
            1 <= inc,
    ;
    assert forall|k: int| 0 < k < s.len() - 1 implies 0 < #[trigger] s[k] < bordered_size - 1 by {
        if k <= sc {
            lemma_step_within(m, inc, k - 1);
        }
    }
    assert forall|k1: int, k2: int| 0 <= k1 < k2 < s.len() implies #[trigger] s[k1] < #[trigger] s[k2] by {
        if 1 <= k1 && k2 <= sc {
            assert((k1 - 1) * inc < (k2 - 1) * inc) by (nonlinear_arith)
                requires
                    k1 < k2,
                    1 <= inc,
            ;
        }
        if 1 <= k1 && k1 <= sc && k2 <= s.len() - 2 && k2 > sc {
            lemma_step_within(m, inc, k1 - 1);
            assert((k1 - 1) * inc <= (sc - 1) * inc) by (nonlinear_arith)
                requires
                    k1 <= sc,
                    1 <= inc,
            ;
        }
        if 1 <= k2 && k2 <= sc {
            lemma_step_within(m, inc, k2 - 1);
        }
    }
}

/// Whether position `(xi, yi)` of the `n` by `n` grid of vertex positions
/// holds a border vertex.
pub open spec fn on_border(xi: int, yi: int, n: int) -> bool {
    xi == 0 || xi == n - 1 || yi == 0 || yi == n - 1
}

/// The number of border positions before `(xi, yi)`, rows first; `xi` may be
/// `n`, the end of the row.
pub open spec fn borders_before(xi: int, yi: int, n: int) -> int {
    if yi == 0 {
        xi
    } else if yi == n - 1 {
        n + 2 * (n - 2) + xi
    } else {
        n + 2 * (yi - 1) + (if xi > 0 {
            1int
        } else {
            0int
        }) + (if xi > n - 1 {
            1int
        } else {
            0int
        })
    }
}

/// The number of mesh (non-border) positions before `(xi, yi)`, rows first;
/// `xi` may be `n`, the end of the row.
pub open spec fn meshes_before(xi: int, yi: int, n: int) -> int {
    if yi == 0 {
        0
    } else if yi == n - 1 {
        (n - 2) * (n - 2)
    } else {
        (yi - 1) * (n - 2) + if xi <= 0 {
            0
        } else if xi >= n - 1 {
            n - 2
        } else {
            xi - 1
        }
    }
}

/// The number of the vertex at position `(xi, yi)`, as stored in a `u32`:
/// mesh vertices are numbered `0, 1, ...` and border vertices `-1, -2, ...`
/// (as the `u32`s with the same bits: `u32::MAX, u32::MAX - 1, ...`), each
/// row by row.
pub open spec fn vertex_code(xi: int, yi: int, n: int) -> u32 {
    if on_border(xi, yi, n) {
        (0xffff_ffff - borders_before(xi, yi, n)) as u32
    } else {
        meshes_before(xi, yi, n) as u32
    }
}

/// A negative `i32` read as a `u32`.
proof fn lemma_negative_as_u32(x: i32)
    requires
        x < 0,
    ensures
        (x as u32) as int == x as int + 0x1_0000_0000,
{
    assert((x as u32) as int == x as int + 0x1_0000_0000) by (bit_vector)
        requires
            x < 0,
    ;
}

/// The counters move on by one position.
proof fn lemma_numbering_step(xi: int, yi: int, n: int)
    requires
        3 <= n,
        0 <= xi < n,
        0 <= yi < n,
    ensures
        borders_before(xi + 1, yi, n) == borders_before(xi, yi, n) + if on_border(xi, yi, n) {
            1int
        } else {
            0int
        },
        meshes_before(xi + 1, yi, n) == meshes_before(xi, yi, n) + if on_border(xi, yi, n) {
            0int
        } else {
            1int
        },
        0 <= borders_before(xi, yi, n) < 4 * n - 4,
        0 <= meshes_before(xi, yi, n) <= (n - 2) * (n - 2),
        !on_border(xi, yi, n) ==> meshes_before(xi, yi, n) < (n - 2) * (n - 2),
{
    if 0 < yi < n - 1 {
        assert((yi - 1) * (n - 2) + (n - 2) <= (n - 2) * (n - 2)) by (nonlinear_arith)
            requires
                yi <= n - 2,
                3 <= n,
        ;
        assert(0 <= (yi - 1) * (n - 2)) by (nonlinear_arith)
            requires
                1 <= yi,
                3 <= n,
        ;
    }
    assert(0 <= (n - 2) * (n - 2)) by (nonlinear_arith);
}

/// The counters at the end of a row are those at the start of the next.
proof fn lemma_numbering_row(yi: int, n: int)
    requires
        3 <= n,
        0 <= yi < n - 1,
    ensures
        borders_before(n, yi, n) == borders_before(0, yi + 1, n),
        meshes_before(n, yi, n) == meshes_before(0, yi + 1, n),
{
    assert((yi - 1) * (n - 2) + (n - 2) == yi * (n - 2)) by (nonlinear_arith);
}

/// Positions before others in row order come with smaller counters.
proof fn lemma_numbering_ordered(x1: int, y1: int, x2: int, y2: int, n: int)
    requires
        3 <= n,
        0 <= x1 < n,
        0 <= y1 < n,
        0 <= x2 < n,
        0 <= y2 < n,
        y1 < y2 || (y1 == y2 && x1 < x2),
    ensures
        on_border(x1, y1, n) ==> borders_before(x1, y1, n) < borders_before(x2, y2, n),
        !on_border(x1, y1, n) ==> meshes_before(x1, y1, n) < meshes_before(x2, y2, n),
{
    if y1 < y2 && 0 < y1 && y2 < n - 1 {
        assert((y1 - 1) * (n - 2) + (n - 2) <= (y2 - 1) * (n - 2)) by (nonlinear_arith)
            requires
                y1 < y2,
                3 <= n,
        ;
    }
    if y1 < y2 && 0 < y1 && y2 == n - 1 {
        assert((y1 - 1) * (n - 2) + (n - 2) <= (n - 2) * (n - 2)) by (nonlinear_arith)
            requires
                y1 < n - 1,
                3 <= n,
        ;
    }
}

/// Every vertex gets its own number: two different positions of the vertex
/// grid never share a code, so no vertex overwrites another.
pub proof fn lemma_vertex_codes_distinct(x1: int, y1: int, x2: int, y2: int, n: int)
    requires
        3 <= n <= MAX_BORDERED_SIZE,
        0 <= x1 < n,
        0 <= y1 < n,
        0 <= x2 < n,
        0 <= y2 < n,
        x1 != x2 || y1 != y2,
    ensures
        vertex_code(x1, y1, n) != vertex_code(x2, y2, n),
{
    lemma_code_classification(x1, y1, n);
    lemma_code_classification(x2, y2, n);
    lemma_numbering_step(x1, y1, n);
    lemma_numbering_step(x2, y2, n);
    if y1 < y2 || (y1 == y2 && x1 < x2) {
        lemma_numbering_ordered(x1, y1, x2, y2, n);
    } else {
        lemma_numbering_ordered(x2, y2, x1, y1, n);
    }
}

/// Every slot of the mesh vertices is filled: the mesh vertex numbered `k`,
/// for each `k` below the number of mesh vertices, sits at position
/// `(k % v + 1, k / v + 1)` with `v` mesh vertices per line.
pub proof fn lemma_mesh_vertex_at(k: int, n: int)
    requires
        3 <= n <= MAX_BORDERED_SIZE,
        0 <= k < (n - 2) * (n - 2),
    ensures
        !on_border(k % (n - 2) + 1, k / (n - 2) + 1, n),
        vertex_code(k % (n - 2) + 1, k / (n - 2) + 1, n) == k,
{
    let v = n - 2;
    let xi = k % v + 1;
    let yi = k / v + 1;
    assert(k == (k / v) * v + k % v && 0 <= k % v < v) by (nonlinear_arith)
        requires
            v > 0,
    ;
    assert(0 <= k / v < v) by (nonlinear_arith)
        requires
            v > 0,
            0 <= k < v * v,
    ;
    lemma_numbering_step(xi, yi, n);
    lemma_code_classification(xi, yi, n);
    assert(meshes_before(xi, yi, n) == k);
}

/// Whether `x` is one of the vertex samples.
pub open spec fn is_vertex_sample(indices: Seq<usize>, x: int) -> bool {
    exists|k: int| 0 <= k < indices.len() && indices[k] == x
}

/// The vertex samples of a side, as the mesh needs them: strictly increasing
/// from the border sample `0` to the border sample `bordered_size - 1`.
pub open spec fn valid_sample_indices(indices: Seq<usize>, bordered_size: int) -> bool {
    &&& 3 <= indices.len() <= bordered_size
    &&& indices[0] == 0
    &&& indices.last() == bordered_size - 1
    &&& forall|k: int| 0 < k < indices.len() - 1 ==> 0 < #[trigger] indices[k] < bordered_size - 1
    &&& forall|k1: int, k2: int|
        0 <= k1 < k2 < indices.len() ==> #[trigger] indices[k1] < #[trigger] indices[k2]
}

/// Numbers the vertices at the samples `indices` along both axes, rows first:
/// the entry at `[x][y]` holds the number of the vertex at sample `(x, y)`
/// as a `u32`, and every other entry is `0`.
pub fn number_vertices(indices: &Vec<usize>, bordered_size: usize) -> (map: Vec<Vec<u32>>)
    requires
        bordered_size <= MAX_BORDERED_SIZE,
        valid_sample_indices(indices@, bordered_size as int),
    ensures
        map@.len() == bordered_size,
        forall|x: int| 0 <= x < bordered_size ==> (#[trigger] map@[x])@.len() == bordered_size,
        forall|xi: int, yi: int|
            0 <= xi < indices@.len() && 0 <= yi < indices@.len() ==> #[trigger] map@[indices@[xi] as int]@[indices@[yi] as int]
                == vertex_code(xi, yi, indices@.len() as int),
        forall|x: int, y: int|
            0 <= x < bordered_size && 0 <= y < bordered_size && !(is_vertex_sample(indices@, x) && is_vertex_sample(indices@, y))
                ==> #[trigger] map@[x]@[y] == 0,
{
    let n = indices.len();
    let ghost s = indices@;
    let mut map: Vec<Vec<u32>> = Vec::new();
    let mut x: usize = 0;
    while x < bordered_size
        invariant
            x <= bordered_size,
            map@.len() == x,
            forall|k: int| 0 <= k < x ==> (#[trigger] map@[k])@ == Seq::new(bordered_size as nat, |i: int| 0u32),
        decreases bordered_size - x,
    {
        map.push(filled_vec(bordered_size, 0u32));
        x = x + 1;
    }
    let mut border_vertex_index: i32 = -1;
    let mut mesh_vertex_index: u32 = 0;
    let mut yi: usize = 0;
    while yi < n
        invariant
            n == s.len(),
            s == indices@,
            bordered_size <= MAX_BORDERED_SIZE,
            valid_sample_indices(s, bordered_size as int),
            yi <= n,
            yi < n ==> border_vertex_index == -(borders_before(0, yi as int, n as int) + 1),
            yi < n ==> mesh_vertex_index == meshes_before(0, yi as int, n as int),
            map@.len() == bordered_size,
            forall|k: int| 0 <= k < bordered_size ==> (#[trigger] map@[k])@.len() == bordered_size,
            forall|xi: int, yj: int|
                0 <= xi < n && 0 <= yj < yi ==> #[trigger] map@[s[xi] as int]@[s[yj] as int] == vertex_code(
                    xi,
                    yj,
                    n as int,
                ),
            forall|a: int, b: int|
                0 <= a < bordered_size && 0 <= b < bordered_size && !(is_vertex_sample(s, a) && is_vertex_sample(s, b))
                    ==> #[trigger] map@[a]@[b] == 0,
        decreases n - yi,
    {
        let y = indices[yi];
        let mut xi: usize = 0;
        while xi < n
            invariant
                n == s.len(),
                s == indices@,
                bordered_size <= MAX_BORDERED_SIZE,
                valid_sample_indices(s, bordered_size as int),
                yi < n,
                y == s[yi as int],
                xi <= n,
                border_vertex_index == -(borders_before(xi as int, yi as int, n as int) + 1),
                mesh_vertex_index == meshes_before(xi as int, yi as int, n as int),
                map@.len() == bordered_size,
                forall|k: int| 0 <= k < bordered_size ==> (#[trigger] map@[k])@.len() == bordered_size,
                forall|xj: int, yj: int|
                    0 <= xj < n && 0 <= yj < n && (yj < yi || (yj == yi && xj < xi))
                        ==> #[trigger] map@[s[xj] as int]@[s[yj] as int] == vertex_code(xj, yj, n as int),
                forall|a: int, b: int|
                    0 <= a < bordered_size && 0 <= b < bordered_size && !(is_vertex_sample(s, a) && is_vertex_sample(s, b))
                        ==> #[trigger] map@[a]@[b] == 0,
            decreases n - xi,
        {
            let x = indices[xi];
            proof {
                lemma_numbering_step(xi as int, yi as int, n as int);
                assert((n - 2) * (n - 2) < 0xffff_ffff) by (nonlinear_arith)
                    requires
                        3 <= n <= MAX_BORDERED_SIZE,
                ;
                assert(is_vertex_sample(s, x as int));
                assert(is_vertex_sample(s, y as int));
            }
            let is_border = x == 0 || x == bordered_size - 1 || y == 0 || y == bordered_size - 1;
            assert(is_border == on_border(xi as int, yi as int, n as int));
            let code: u32;
            if is_border {
                proof {
                    lemma_negative_as_u32(border_vertex_index);
                }
                code = border_vertex_index as u32;
                border_vertex_index = border_vertex_index - 1;
            } else {
                code = mesh_vertex_index;
                mesh_vertex_index = mesh_vertex_index + 1;
            }
            assert(code == vertex_code(xi as int, yi as int, n as int));
            let mut column: Vec<u32> = Vec::new();
            map.set_and_swap(x, &mut column);
            column.set(y, code);
            map.set_and_swap(x, &mut column);
            xi = xi + 1;
        }
        proof {
            if yi + 1 < n {
                lemma_numbering_row(yi as int, n as int);
            }
        }
        yi = yi + 1;
    }
    map
}

/// Whether the cell between positions `xi, xi + 1` and `yi, yi + 1` has a
/// corner on the border.
pub open spec fn border_cell(xi: int, yi: int, n: int) -> bool {
    xi == 0 || xi == n - 2 || yi == 0 || yi == n - 2
}

/// The number of border cells before cell `(xi, yi)`, rows first; `xi` may
/// be `n - 1`, the end of the row.
pub open spec fn border_cells_before(xi: int, yi: int, n: int) -> int {
    if yi == 0 {
        xi
    } else if yi == n - 2 {
        (n - 1) + 2 * (n - 3) + xi
    } else {
        (n - 1) + 2 * (yi - 1) + (if xi > 0 {
            1int
        } else {
            0int
        }) + (if xi > n - 2 {
            1int
        } else {
            0int
        })
    }
}

/// The number of inner cells before cell `(xi, yi)`, rows first; `xi` may be
/// `n - 1`, the end of the row.
pub open spec fn mesh_cells_before(xi: int, yi: int, n: int) -> int {
    if yi == 0 {
        0
    } else if yi == n - 2 {
        (n - 3) * (n - 3)
    } else {
        (yi - 1) * (n - 3) + if xi <= 0 {
            0
        } else if xi >= n - 2 {
            n - 3
        } else {
            xi - 1
        }
    }
}

/// The six corners of the two triangles of a cell, `(a, d, c)` and
/// `(d, a, b)`, where `a` and `b` are its first and second corner in the row
/// `yi` and `c` and `d` those in the row `yi + 1`.
pub open spec fn cell_corner_code(xi: int, yi: int, r: int, n: int) -> u32 {
    if r == 0 || r == 4 {
        vertex_code(xi, yi, n)
    } else if r == 1 || r == 3 {
        vertex_code(xi + 1, yi + 1, n)
    } else if r == 2 {
        vertex_code(xi, yi + 1, n)
    } else {
        vertex_code(xi + 1, yi, n)
    }
}

/// The two triangles of inner cell `(xi, yi)` stand in the mesh triangles,
/// after those of the inner cells before it.
pub open spec fn mesh_cell_written(triangles: Seq<u32>, xi: int, yi: int, n: int) -> bool {
    let k = 6 * mesh_cells_before(xi, yi, n);
    &&& triangles[k] == cell_corner_code(xi, yi, 0, n)
    &&& triangles[k + 1] == cell_corner_code(xi, yi, 1, n)
    &&& triangles[k + 2] == cell_corner_code(xi, yi, 2, n)
    &&& triangles[k + 3] == cell_corner_code(xi, yi, 3, n)
    &&& triangles[k + 4] == cell_corner_code(xi, yi, 4, n)
    &&& triangles[k + 5] == cell_corner_code(xi, yi, 5, n)
}

/// The two triangles of border cell `(xi, yi)` stand in the border triangles,
/// after those of the border cells before it, each index as an `i32`.
pub open spec fn border_cell_written(triangles: Seq<i32>, xi: int, yi: int, n: int) -> bool {
    let k = 6 * border_cells_before(xi, yi, n);
    &&& triangles[k] == cell_corner_code(xi, yi, 0, n) as i32
    &&& triangles[k + 1] == cell_corner_code(xi, yi, 1, n) as i32
    &&& triangles[k + 2] == cell_corner_code(xi, yi, 2, n) as i32
    &&& triangles[k + 3] == cell_corner_code(xi, yi, 3, n) as i32
    &&& triangles[k + 4] == cell_corner_code(xi, yi, 4, n) as i32
    &&& triangles[k + 5] == cell_corner_code(xi, yi, 5, n) as i32
}

/// Border vertices have codes at least the number of mesh vertices, and mesh
/// vertices codes below it.
proof fn lemma_code_classification(xi: int, yi: int, n: int)
    requires
        3 <= n <= MAX_BORDERED_SIZE,
        0 <= xi < n,
        0 <= yi < n,
    ensures
        on_border(xi, yi, n) ==> vertex_code(xi, yi, n) >= (n - 2) * (n - 2),
        !on_border(xi, yi, n) ==> vertex_code(xi, yi, n) < (n - 2) * (n - 2),
        (n - 2) * (n - 2) <= u32::MAX,
{
    lemma_numbering_step(xi, yi, n);
    assert(n * n <= 0x1_0000_0000 && (n - 2) * (n - 2) == n * n - 4 * n + 4) by (nonlinear_arith)
        requires
            3 <= n <= 0x1_0000,
    ;
    if on_border(xi, yi, n) {
        if yi == 0 || yi == n - 1 {
            assert(borders_before(xi, yi, n) <= 4 * n - 5);
        }
    }
}

/// Cells before others in row order come with smaller counters.
proof fn lemma_cells_before_ordered(x1: int, y1: int, x2: int, y2: int, n: int)
    requires
        3 <= n,
        0 <= x1 < n - 1,
        0 <= y1 < n - 1,
        0 <= x2 < n,
        0 <= y2 < n - 1,
        y1 < y2 || (y1 == y2 && x1 < x2),
    ensures
        border_cell(x1, y1, n) ==> border_cells_before(x1, y1, n) < border_cells_before(x2, y2, n),
        !border_cell(x1, y1, n) ==> mesh_cells_before(x1, y1, n) < mesh_cells_before(x2, y2, n),
{
    if y1 < y2 && 0 < y1 && y2 < n - 2 {
        assert((y1 - 1) * (n - 3) + (n - 3) <= (y2 - 1) * (n - 3)) by (nonlinear_arith)
            requires
                y1 < y2,
                3 <= n,
        ;
    }
    if y1 < y2 && 0 < y1 && y2 == n - 2 {
        assert((y1 - 1) * (n - 3) + (n - 3) <= (n - 3) * (n - 3)) by (nonlinear_arith)
            requires
                y1 < n - 2,
                3 <= n,
        ;
    }
    if 0 < y1 < n - 2 {
        assert(0 <= (y1 - 1) * (n - 3)) by (nonlinear_arith)
            requires
                1 <= y1,
                3 <= n,
        ;
    }
}

/// The cell counters move on by one cell, across rows too, and stay in range.
proof fn lemma_cells_step(xi: int, yi: int, n: int)
    requires
        3 <= n,
        0 <= xi < n - 1,
        0 <= yi < n - 1,
    ensures
        border_cells_before(xi + 1, yi, n) == border_cells_before(xi, yi, n) + if border_cell(xi, yi, n) {
            1int
        } else {
            0int
        },
        mesh_cells_before(xi + 1, yi, n) == mesh_cells_before(xi, yi, n) + if border_cell(xi, yi, n) {
            0int
        } else {
            1int
        },
        border_cell(xi, yi, n) ==> 0 <= border_cells_before(xi, yi, n) < 4 * (n - 2),
        !border_cell(xi, yi, n) ==> 0 <= mesh_cells_before(xi, yi, n) < (n - 3) * (n - 3),
        yi < n - 2 ==> border_cells_before(n - 1, yi, n) == border_cells_before(0, yi + 1, n),
        yi < n - 2 ==> mesh_cells_before(n - 1, yi, n) == mesh_cells_before(0, yi + 1, n),
        0 <= border_cells_before(xi, yi, n),
        0 <= mesh_cells_before(xi, yi, n),
{
    assert((yi - 1) * (n - 3) + (n - 3) == yi * (n - 3)) by (nonlinear_arith);
    if 0 < yi < n - 2 {
        assert(0 <= (yi - 1) * (n - 3)) by (nonlinear_arith)
            requires
                1 <= yi,
                3 <= n,
        ;
        assert((yi - 1) * (n - 3) + (n - 3) <= (n - 3) * (n - 3)) by (nonlinear_arith)
            requires
                yi <= n - 3,
                3 <= n,
        ;
    }
    assert(0 <= (n - 3) * (n - 3)) by (nonlinear_arith);
}

/// A written inner cell stays written while only later triangles change.
proof fn lemma_mesh_cell_kept(t1: Seq<u32>, t2: Seq<u32>, k: int, xi: int, yi: int, n: int)
    requires
        mesh_cell_written(t1, xi, yi, n),
        6 * mesh_cells_before(xi, yi, n) + 6 <= k,
        0 <= mesh_cells_before(xi, yi, n),
        forall|i: int| 0 <= i < k ==> #[trigger] t2[i] == t1[i],
    ensures
        mesh_cell_written(t2, xi, yi, n),
{
    let j = 6 * mesh_cells_before(xi, yi, n);
    assert(t2[j] == t1[j] && t2[j + 1] == t1[j + 1] && t2[j + 2] == t1[j + 2]);
    assert(t2[j + 3] == t1[j + 3] && t2[j + 4] == t1[j + 4] && t2[j + 5] == t1[j + 5]);
}

/// A written border cell stays written while only later triangles change.
proof fn lemma_border_cell_kept(t1: Seq<i32>, t2: Seq<i32>, k: int, xi: int, yi: int, n: int)
    requires
        border_cell_written(t1, xi, yi, n),
        6 * border_cells_before(xi, yi, n) + 6 <= k,
        0 <= border_cells_before(xi, yi, n),
        forall|i: int| 0 <= i < k ==> #[trigger] t2[i] == t1[i],
    ensures
        border_cell_written(t2, xi, yi, n),
{
    let j = 6 * border_cells_before(xi, yi, n);
    assert(t2[j] == t1[j] && t2[j + 1] == t1[j + 1] && t2[j + 2] == t1[j + 2]);
    assert(t2[j + 3] == t1[j + 3] && t2[j + 4] == t1[j + 4] && t2[j + 5] == t1[j + 5]);
}

/// Writes the two triangles of cell `(xi, yi)` after those of the cells
/// before it.
fn add_cell_triangles(
    mesh: &mut MeshData,
    map: &Vec<Vec<u32>>,
    indices: &Vec<usize>,
    bordered_size: usize,
    xi: usize,
    yi: usize,
)
    requires
        bordered_size <= MAX_BORDERED_SIZE,
        valid_sample_indices(indices@, bordered_size as int),
        numbered_vertices(map@, indices@, bordered_size as int),
        xi < indices@.len() - 1,
        yi < indices@.len() - 1,
        old(mesh).vertices_view().len() == (indices@.len() - 2) * (indices@.len() - 2),
        old(mesh).triangles_view().len() == (indices@.len() - 3) * (indices@.len() - 3) * 6,
        old(mesh).border_triangles_view().len() == (indices@.len() - 2) * 24,
        old(mesh).next_triangle() == 6 * mesh_cells_before(xi as int, yi as int, indices@.len() as int),
        old(mesh).next_border_triangle() == 6 * border_cells_before(xi as int, yi as int, indices@.len() as int),
    ensures
        final(mesh).next_triangle() == 6 * mesh_cells_before(xi + 1, yi as int, indices@.len() as int),
        final(mesh).next_border_triangle() == 6 * border_cells_before(xi + 1, yi as int, indices@.len() as int),
        !border_cell(xi as int, yi as int, indices@.len() as int) ==> mesh_cell_written(
            final(mesh).triangles_view(),
            xi as int,
            yi as int,
            indices@.len() as int,
        ),
        border_cell(xi as int, yi as int, indices@.len() as int) ==> border_cell_written(
            final(mesh).border_triangles_view(),
            xi as int,
            yi as int,
            indices@.len() as int,
        ),
        forall|i: int| 0 <= i < old(mesh).next_triangle() ==> #[trigger] final(mesh).triangles_view()[i] == old(mesh).triangles_view()[i],
        forall|i: int|
            0 <= i < old(mesh).next_border_triangle() ==> #[trigger] final(mesh).border_triangles_view()[i]
                == old(mesh).border_triangles_view()[i],
        final(mesh).triangles_view().len() == old(mesh).triangles_view().len(),
        final(mesh).border_triangles_view().len() == old(mesh).border_triangles_view().len(),
        final(mesh).vertices_view() == old(mesh).vertices_view(),
        final(mesh).uvs_view() == old(mesh).uvs_view(),
        final(mesh).normals_view() == old(mesh).normals_view(),
        final(mesh).border_vertices_view() == old(mesh).border_vertices_view(),
{
    let ghost nn = indices@.len() as int;
    let ghost (xg, yg) = (xi as int, yi as int);
    let x = indices[xi];
    let xn = indices[xi + 1];
    let y = indices[yi];
    let yn = indices[yi + 1];
    let a = map[x][y];
    let b = map[xn][y];
    let c = map[x][yn];
    let d = map[xn][yn];
    proof {
        assert(a == vertex_code(xg, yg, nn));
        assert(b == vertex_code(xg + 1, yg, nn));
        assert(c == vertex_code(xg, yg + 1, nn));
        assert(d == vertex_code(xg + 1, yg + 1, nn));
        lemma_code_classification(xg, yg, nn);
        lemma_code_classification(xg + 1, yg, nn);
        lemma_code_classification(xg, yg + 1, nn);
        lemma_code_classification(xg + 1, yg + 1, nn);
        lemma_cells_step(xg, yg, nn);
        assert(6 * mesh_cells_before(xg, yg, nn) + 6 <= (nn - 3) * (nn - 3) * 6 || border_cell(xg, yg, nn))
            by (nonlinear_arith)
            requires
                !border_cell(xg, yg, nn) ==> mesh_cells_before(xg, yg, nn) < (nn - 3) * (nn - 3),
        ;
        assert(6 * border_cells_before(xg, yg, nn) + 6 <= (nn - 2) * 24 || !border_cell(xg, yg, nn));
    }
    mesh.add_triangle(a, d, c);
    mesh.add_triangle(d, a, b);
}

/// The triangles of an inner cell join mesh vertices only: with `v` mesh
/// vertices per line and `p` the number of the cell's first corner, they are
/// `(p, p + v + 1, p + v)` and `(p + v + 1, p, p + 1)`, all below `v * v`.
pub proof fn lemma_inner_cell_triangles(xi: int, yi: int, n: int)
    requires
        3 <= n <= MAX_BORDERED_SIZE,
        0 <= xi < n - 1,
        0 <= yi < n - 1,
        !border_cell(xi, yi, n),
    ensures
        ({
            let v = n - 2;
            let p = (yi - 1) * v + (xi - 1);
            &&& cell_corner_code(xi, yi, 0, n) == p
            &&& cell_corner_code(xi, yi, 1, n) == p + v + 1
            &&& cell_corner_code(xi, yi, 2, n) == p + v
            &&& cell_corner_code(xi, yi, 3, n) == p + v + 1
            &&& cell_corner_code(xi, yi, 4, n) == p
            &&& cell_corner_code(xi, yi, 5, n) == p + 1
        }),
        forall|r: int| 0 <= r < 6 ==> #[trigger] cell_corner_code(xi, yi, r, n) < (n - 2) * (n - 2),
{
    lemma_code_classification(xi, yi, n);
    lemma_code_classification(xi + 1, yi, n);
    lemma_code_classification(xi, yi + 1, n);
    lemma_code_classification(xi + 1, yi + 1, n);
    let v = n - 2;
    let p = (yi - 1) * v + (xi - 1);
    assert((yi + 1 - 1) * v == (yi - 1) * v + v) by (nonlinear_arith);
    assert(meshes_before(xi, yi, n) == p);
    assert(meshes_before(xi + 1, yi, n) == p + 1);
    assert(meshes_before(xi, yi + 1, n) == p + v);
    assert(meshes_before(xi + 1, yi + 1, n) == p + v + 1);
    lemma_numbering_step(xi, yi, n);
    lemma_numbering_step(xi + 1, yi + 1, n);
}

/// Each triangle of a border cell has a corner on the border: its first
/// triangle joins `a`, `d`, `c` and its second `d`, `a`, `b`, and one of `a`
/// and `d` is always a border vertex.
pub proof fn lemma_border_cell_triangles(xi: int, yi: int, n: int)
    requires
        3 <= n <= MAX_BORDERED_SIZE,
        0 <= xi < n - 1,
        0 <= yi < n - 1,
        border_cell(xi, yi, n),
    ensures
        cell_corner_code(xi, yi, 0, n) >= (n - 2) * (n - 2) || cell_corner_code(xi, yi, 1, n) >= (n - 2) * (
        n - 2),
{
    lemma_code_classification(xi, yi, n);
    lemma_code_classification(xi + 1, yi + 1, n);
}

/// The facts about the vertex map that triangulation reads.
pub open spec fn numbered_vertices(map: Seq<Vec<u32>>, indices: Seq<usize>, bordered_size: int) -> bool {
    &&& map.len() == bordered_size
    &&& forall|x: int| 0 <= x < bordered_size ==> (#[trigger] map[x])@.len() == bordered_size
    &&& forall|xi: int, yi: int|
        0 <= xi < indices.len() && 0 <= yi < indices.len() ==> #[trigger] map[indices[xi] as int]@[indices[yi] as int]
            == vertex_code(xi, yi, indices.len() as int)
}

/// Joins the numbered vertices into triangles, two per cell, rows first: the
/// triangles of inner cells go to the mesh triangles and those of border cells
/// to the border triangles.
fn triangulate(mesh: &mut MeshData, map: &Vec<Vec<u32>>, indices: &Vec<usize>, bordered_size: usize)
    requires
        bordered_size <= MAX_BORDERED_SIZE,
        valid_sample_indices(indices@, bordered_size as int),
        numbered_vertices(map@, indices@, bordered_size as int),
        old(mesh).vertices_view().len() == (indices@.len() - 2) * (indices@.len() - 2),
        old(mesh).triangles_view().len() == (indices@.len() - 3) * (indices@.len() - 3) * 6,
        old(mesh).border_triangles_view().len() == (indices@.len() - 2) * 24,
        old(mesh).next_triangle() == 0,
        old(mesh).next_border_triangle() == 0,
    ensures
        forall|xi: int, yi: int|
            0 <= xi < indices@.len() - 1 && 0 <= yi < indices@.len() - 1 && !border_cell(xi, yi, indices@.len() as int)
                ==> #[trigger] mesh_cell_written(final(mesh).triangles_view(), xi, yi, indices@.len() as int),
        forall|xi: int, yi: int|
            0 <= xi < indices@.len() - 1 && 0 <= yi < indices@.len() - 1 && border_cell(xi, yi, indices@.len() as int)
                ==> #[trigger] border_cell_written(final(mesh).border_triangles_view(), xi, yi, indices@.len() as int),
        final(mesh).triangles_view().len() == old(mesh).triangles_view().len(),
        final(mesh).border_triangles_view().len() == old(mesh).border_triangles_view().len(),
        final(mesh).next_triangle() == final(mesh).triangles_view().len(),
        final(mesh).next_border_triangle() == final(mesh).border_triangles_view().len(),
        final(mesh).vertices_view() == old(mesh).vertices_view(),
        final(mesh).uvs_view() == old(mesh).uvs_view(),
        final(mesh).normals_view() == old(mesh).normals_view(),
        final(mesh).border_vertices_view() == old(mesh).border_vertices_view(),
{
    let n = indices.len();
    let ghost nn = n as int;
    let ghost s = indices@;
    let mut yi: usize = 0;
    while yi < n - 1
        invariant
            n == s.len(),
            nn == n,
            s == indices@,
            bordered_size <= MAX_BORDERED_SIZE,
            valid_sample_indices(s, bordered_size as int),
            numbered_vertices(map@, s, bordered_size as int),
            yi <= n - 1,
            mesh.vertices_view() == old(mesh).vertices_view(),
            mesh.uvs_view() == old(mesh).uvs_view(),
            mesh.normals_view() == old(mesh).normals_view(),
            mesh.border_vertices_view() == old(mesh).border_vertices_view(),
            mesh.triangles_view().len() == old(mesh).triangles_view().len(),
            mesh.border_triangles_view().len() == old(mesh).border_triangles_view().len(),
            old(mesh).vertices_view().len() == (nn - 2) * (nn - 2),
            old(mesh).triangles_view().len() == (nn - 3) * (nn - 3) * 6,
            old(mesh).border_triangles_view().len() == (nn - 2) * 24,
            yi < n - 1 ==> mesh.next_triangle() == 6 * mesh_cells_before(0, yi as int, nn),
            yi < n - 1 ==> mesh.next_border_triangle() == 6 * border_cells_before(0, yi as int, nn),
            yi == n - 1 ==> mesh.next_triangle() == 6 * mesh_cells_before(nn - 1, nn - 2, nn),
            yi == n - 1 ==> mesh.next_border_triangle() == 6 * border_cells_before(nn - 1, nn - 2, nn),
            forall|xj: int, yj: int|
                0 <= xj < nn - 1 && 0 <= yj < yi && !border_cell(xj, yj, nn)
                    ==> #[trigger] mesh_cell_written(mesh.triangles_view(), xj, yj, nn),
            forall|xj: int, yj: int|
                0 <= xj < nn - 1 && 0 <= yj < yi && border_cell(xj, yj, nn)
                    ==> #[trigger] border_cell_written(mesh.border_triangles_view(), xj, yj, nn),
        decreases n - 1 - yi,
    {
        let mut xi: usize = 0;
        while xi < n - 1
            invariant
                n == s.len(),
                nn == n,
                s == indices@,
                bordered_size <= MAX_BORDERED_SIZE,
                valid_sample_indices(s, bordered_size as int),
                numbered_vertices(map@, s, bordered_size as int),
                yi < n - 1,
                xi <= n - 1,
                mesh.vertices_view() == old(mesh).vertices_view(),
                mesh.uvs_view() == old(mesh).uvs_view(),
                mesh.normals_view() == old(mesh).normals_view(),
                mesh.border_vertices_view() == old(mesh).border_vertices_view(),
                mesh.triangles_view().len() == old(mesh).triangles_view().len(),
                mesh.border_triangles_view().len() == old(mesh).border_triangles_view().len(),
                old(mesh).vertices_view().len() == (nn - 2) * (nn - 2),
                old(mesh).triangles_view().len() == (nn - 3) * (nn - 3) * 6,
                old(mesh).border_triangles_view().len() == (nn - 2) * 24,
                mesh.next_triangle() == 6 * mesh_cells_before(xi as int, yi as int, nn),
                mesh.next_border_triangle() == 6 * border_cells_before(xi as int, yi as int, nn),
                forall|xj: int, yj: int|
                    0 <= xj < nn - 1 && 0 <= yj < nn - 1 && (yj < yi || (yj == yi && xj < xi)) && !border_cell(xj, yj, nn)
                        ==> #[trigger] mesh_cell_written(mesh.triangles_view(), xj, yj, nn),
                forall|xj: int, yj: int|
                    0 <= xj < nn - 1 && 0 <= yj < nn - 1 && (yj < yi || (yj == yi && xj < xi)) && border_cell(xj, yj, nn)
                        ==> #[trigger] border_cell_written(mesh.border_triangles_view(), xj, yj, nn),
            decreases n - 1 - xi,
        {
            let ghost before = *mesh;
            proof {
                lemma_cells_step(xi as int, yi as int, nn);
            }
            add_cell_triangles(mesh, map, indices, bordered_size, xi, yi);
            proof {
                assert forall|xj: int, yj: int|
                    0 <= xj < nn - 1 && 0 <= yj < nn - 1 && (yj < yi || (yj == yi && xj < xi + 1)) && !border_cell(xj, yj, nn)
                        implies #[trigger] mesh_cell_written(mesh.triangles_view(), xj, yj, nn) by {
                    if xj != xi || yj != yi {
                        lemma_cells_before_ordered(xj, yj, xi as int, yi as int, nn);
                        lemma_cells_step(xj, yj, nn);
                        lemma_mesh_cell_kept(before.triangles_view(), mesh.triangles_view(), before.next_triangle(), xj, yj, nn);
                    }
                }
                assert forall|xj: int, yj: int|
                    0 <= xj < nn - 1 && 0 <= yj < nn - 1 && (yj < yi || (yj == yi && xj < xi + 1)) && border_cell(xj, yj, nn)
                        implies #[trigger] border_cell_written(mesh.border_triangles_view(), xj, yj, nn) by {
                    if xj != xi || yj != yi {
                        lemma_cells_before_ordered(xj, yj, xi as int, yi as int, nn);
                        lemma_cells_step(xj, yj, nn);
                        lemma_border_cell_kept(before.border_triangles_view(), mesh.border_triangles_view(), before.next_border_triangle(), xj, yj, nn);
                    }
                }
            }
            xi = xi + 1;
        }
        proof {
            lemma_cells_step(0, yi as int, nn);
        }
        yi = yi + 1;
    }
    proof {
        assert((nn - 3) * (nn - 3) * 6 == 6 * ((nn - 3) * (nn - 3))) by (nonlinear_arith);
    }
}

/// The sample increment of a level of detail.
pub fn simplification_increment(level_of_detail: u32) -> (inc: usize)
    ensures
        inc == lod_increment(level_of_detail),
{
    match level_of_detail {
        0 => 1,
        1 => 2,
        2 => 4,
        3 => 8,
        _ => 16,
    }
}

/// The samples along one side of a bordered height map that become vertices
/// when the mesh takes every `inc`-th sample.
pub fn vertex_sample_indices(bordered_size: usize, inc: usize) -> (indices: Vec<usize>)
    requires
        3 <= bordered_size <= MAX_BORDERED_SIZE,
        1 <= inc <= 16,
    ensures
        indices@.len() == sample_indices(bordered_size as int, inc as int).len(),
        forall|k: int|
            0 <= k < indices@.len() ==> indices@[k] == sample_indices(bordered_size as int, inc as int)[k],
{
    let ghost b = bordered_size as int;
    let map_chunk_size = bordered_size - 2;
    let ghost m = map_chunk_size as int;
    let ghost sc = step_count(m, inc as int);
    proof {
        lemma_step_within(m, inc as int, 0);
    }
    let mut indices: Vec<usize> = Vec::new();
    indices.push(0);
    let mut i: usize = 1;
    while i <= map_chunk_size
        invariant
            map_chunk_size == bordered_size - 2,
            m == map_chunk_size,
            b == bordered_size,
            3 <= bordered_size <= MAX_BORDERED_SIZE,
            1 <= inc <= 16,
            sc == step_count(m, inc as int),
            1 <= indices@.len() <= sc + 1,
            i == 1 + (indices@.len() - 1) * inc,
            i <= map_chunk_size + inc,
            i <= map_chunk_size ==> indices@.len() - 1 < sc,
            i > map_chunk_size ==> indices@.len() - 1 == sc,
            forall|k: int| 0 <= k < indices@.len() ==> indices@[k] == sample_index(b, inc as int, k),
        decreases map_chunk_size + inc - i,
    {
        proof {
            lemma_step_within(m, inc as int, indices@.len() - 1);
            lemma_step_within(m, inc as int, indices@.len() as int);
        }
        indices.push(i);
        assert((indices@.len() - 1) * inc == (indices@.len() - 2) * inc + inc) by (nonlinear_arith);
        i = i + inc;
    }
    proof {
        lemma_step_within(m, inc as int, sc - 1);
    }
    let last = indices[indices.len() - 1];
    assert(last == last_step(m, inc as int));
    if last != map_chunk_size {
        indices.push(map_chunk_size);
    }
    indices.push(bordered_size - 1);
    indices
}

/// Builds terrain meshes from height maps.
pub struct MeshGenerator;

/// The layout of a chunk's mesh at a level of detail: which samples become
/// vertices, the number of the vertex at each sample, and the mesh with its
/// triangles in place and its positions, texture coordinates and normals
/// still zero.
pub struct TerrainMeshLayout {
    /// The samples along either axis that become vertices.
    pub sample_indices: Vec<usize>,
    /// At `[x][y]`, the number of the vertex at sample `(x, y)` (border
    /// vertices as negative numbers read as `u32`), `0` at other samples.
    pub vertex_indices_map: Vec<Vec<u32>>,
    /// The mesh, triangulated.
    pub mesh_data: MeshData,
}

impl MeshGenerator {
    /// Lays out the mesh of a height map of `bordered_size` samples per side
    /// (the chunk and a one-sample border) at `level_of_detail`.
    pub fn generate_terrain_mesh(bordered_size: usize, level_of_detail: u32) -> (layout: TerrainMeshLayout)
        requires
            3 <= bordered_size <= MAX_BORDERED_SIZE,
            bordered_size * bordered_size * 6 <= usize::MAX,
        ensures
            ({
                let s = sample_indices(bordered_size as int, lod_increment(level_of_detail));
                let n = s.len() as int;
                let v = n - 2;
                let mesh = layout.mesh_data;
                &&& layout.sample_indices@.len() == n
                &&& forall|k: int| 0 <= k < n ==> layout.sample_indices@[k] == s[k]
                &&& valid_sample_indices(layout.sample_indices@, bordered_size as int)
                &&& numbered_vertices(layout.vertex_indices_map@, layout.sample_indices@, bordered_size as int)
                &&& forall|x: int, y: int|
                    0 <= x < bordered_size && 0 <= y < bordered_size && !(is_vertex_sample(layout.sample_indices@, x)
                        && is_vertex_sample(layout.sample_indices@, y)) ==> #[trigger] layout.vertex_indices_map@[x]@[y] == 0
                &&& mesh.vertices_view() == Seq::new((v * v) as nat, |i: int| [0u32, 0u32, 0u32])
                &&& mesh.uvs_view() == Seq::new((v * v) as nat, |i: int| [0u32, 0u32])
                &&& mesh.normals_view() == Seq::new((v * v) as nat, |i: int| [0u32, 0u32, 0u32])
                &&& mesh.border_vertices_view() == Seq::new((v * 4 + 4) as nat, |i: int| [0u32, 0u32, 0u32])
                &&& mesh.triangles_view().len() == (v - 1) * (v - 1) * 6
                &&& mesh.border_triangles_view().len() == v * 24
                &&& mesh.next_triangle() == mesh.triangles_view().len()
                &&& mesh.next_border_triangle() == mesh.border_triangles_view().len()
                &&& forall|xi: int, yi: int|
                    0 <= xi < n - 1 && 0 <= yi < n - 1 && !border_cell(xi, yi, n) ==> #[trigger] mesh_cell_written(
                        mesh.triangles_view(),
                        xi,
                        yi,
                        n,
                    )
                &&& forall|xi: int, yi: int|
                    0 <= xi < n - 1 && 0 <= yi < n - 1 && border_cell(xi, yi, n) ==> #[trigger] border_cell_written(
                        mesh.border_triangles_view(),
                        xi,
                        yi,
                        n,
                    )
            }),
    {
        let inc = simplification_increment(level_of_detail);
        let x_indices = vertex_sample_indices(bordered_size, inc);
        proof {
            lemma_sample_indices_increasing(bordered_size as int, inc as int);
            assert(x_indices@.len() == sample_indices(bordered_size as int, inc as int).len());
            assert(valid_sample_indices(x_indices@, bordered_size as int));
        }
        let vertices_per_line = x_indices.len() - 2;
        proof {
            let v = vertices_per_line as int;
            assert((v + 2) * (v + 2) * 6 <= bordered_size * bordered_size * 6) by (nonlinear_arith)
                requires
                    0 <= v + 2 <= bordered_size,
            ;
        }
        let mut mesh_data = MeshData::new(vertices_per_line);
        let vertex_indices_map = number_vertices(&x_indices, bordered_size);
        proof {
            let n = x_indices@.len() as int;
            assert((n - 3) * (n - 3) * 6 == (n - 2 - 1) * (n - 2 - 1) * 6);
        }
        triangulate(&mut mesh_data, &vertex_indices_map, &x_indices, bordered_size);
        TerrainMeshLayout { sample_indices: x_indices, vertex_indices_map, mesh_data }
    }
}

/// A vector of `len` copies of `value`.
fn filled_vec<T: Copy>(len: usize, value: T) -> (v: Vec<T>)
    ensures
        v@ == Seq::new(len as nat, |i: int| value),
{
    let mut v: Vec<T> = Vec::new();
    while v.len() < len
        invariant
            v.len() <= len,
            forall|i: int| 0 <= i < v.len() ==> v@[i] == value,
        decreases len - v.len(),
    {
        v.push(value);
    }
    assert(v@ =~= Seq::new(len as nat, |i: int| value));
    v
}

} // verus!
