//! The triangles of a height-field mesh: a grid of `verts_x` by `verts_z`
//! vertices, numbered row by row, each grid cell split into two triangles.
//! The vertex positions and normals are floating-point work done by the
//! application.
use vstd::prelude::*;

verus! {

/// The six indices of cell `(x, z)`: triangles `(i0, i2, i1)` and
/// `(i1, i2, i3)`, where `i0`, `i1` are the cell's corners in row `z` and
/// `i2`, `i3` those in row `z + 1`.
pub open spec fn cell_indices_written(indices: Seq<u32>, verts_x: int, x: int, z: int) -> bool {
    let k = 6 * (z * (verts_x - 1) + x);
    let i0 = z * verts_x + x;
    &&& indices[k] == i0
    &&& indices[k + 1] == i0 + verts_x
    &&& indices[k + 2] == i0 + 1
    &&& indices[k + 3] == i0 + 1
    &&& indices[k + 4] == i0 + verts_x
    &&& indices[k + 5] == i0 + verts_x + 1
}

/// The triangle indices of a height field of `verts_x` by `verts_z` vertices,
/// cell by cell, rows first.
pub fn heightfield_indices(verts_x: usize, verts_z: usize) -> (indices: Vec<u32>)
    requires
        1 <= verts_x,
        1 <= verts_z,
        verts_x * verts_z <= 0x1_0000_0000,
        verts_x * verts_z <= usize::MAX,
        (verts_x - 1) * (verts_z - 1) * 6 <= usize::MAX,
    ensures
        indices@.len() == (verts_x - 1) * (verts_z - 1) * 6,
        forall|x: int, z: int|
            0 <= x < verts_x - 1 && 0 <= z < verts_z - 1 ==> #[trigger] cell_indices_written(
                indices@,
                verts_x as int,
                x,
                z,
            ),
{
    let mut indices: Vec<u32> = Vec::new();
    let mut z: usize = 0;
    while z < verts_z - 1
        invariant
            1 <= verts_x,
            1 <= verts_z,
            verts_x * verts_z <= 0x1_0000_0000,
            verts_x * verts_z <= usize::MAX,
            z <= verts_z - 1,
            indices@.len() == 6 * (z * (verts_x - 1)),
            forall|cx: int, cz: int|
                0 <= cx < verts_x - 1 && 0 <= cz < z ==> #[trigger] cell_indices_written(
                    indices@,
                    verts_x as int,
                    cx,
                    cz,
                ),
        decreases verts_z - 1 - z,
    {
        let mut x: usize = 0;
        while x < verts_x - 1
            invariant
                1 <= verts_x,
                1 <= verts_z,
                verts_x * verts_z <= 0x1_0000_0000,
                verts_x * verts_z <= usize::MAX,
                z < verts_z - 1,
                x <= verts_x - 1,
                indices@.len() == 6 * (z * (verts_x - 1) + x),
                forall|cx: int, cz: int|
                    0 <= cx < verts_x - 1 && 0 <= cz < verts_z - 1 && (cz < z || (cz == z && cx < x))
                        ==> #[trigger] cell_indices_written(indices@, verts_x as int, cx, cz),
            decreases verts_x - 1 - x,
        {
            proof {
                assert((z + 1) * verts_x + x + 1 < verts_x * verts_z && z * verts_x + x + verts_x + 1 < verts_x
                    * verts_z && (z + 1) * verts_x == z * verts_x + verts_x) by (nonlinear_arith)
                    requires
                        0 <= z,
                        0 <= x,
                        z + 1 < verts_z,
                        x + 1 < verts_x,
                ;
            }
            let i0 = (z * verts_x + x) as u32;
            let i1 = i0 + 1;
            let i2 = i0 + verts_x as u32;
            let i3 = i2 + 1;
            let ghost before = indices@;
            indices.push(i0);
            indices.push(i2);
            indices.push(i1);
            indices.push(i1);
            indices.push(i2);
            indices.push(i3);
            proof {
                assert forall|cx: int, cz: int|
                    0 <= cx < verts_x - 1 && 0 <= cz < verts_z - 1 && (cz < z || (cz == z && cx < x + 1))
                        implies #[trigger] cell_indices_written(indices@, verts_x as int, cx, cz) by {
                    if cz < z || cx < x {
                        assert(6 * (cz * (verts_x - 1) + cx) + 6 <= 6 * (z * (verts_x - 1) + x)) by (nonlinear_arith)
                            requires
                                cz < z || (cz == z && cx < x),
                                0 <= cx < verts_x - 1,
                        ;
                        assert(cell_indices_written(before, verts_x as int, cx, cz));
                    }
                }
            }
            x = x + 1;
        }
        proof {
            assert(z * (verts_x - 1) + (verts_x - 1) == (z + 1) * (verts_x - 1)) by (nonlinear_arith);
        }
        z = z + 1;
    }
    proof {
        assert((verts_z - 1) * (verts_x - 1) * 6 == 6 * ((verts_z - 1) * (verts_x - 1))) by (nonlinear_arith);
        assert((verts_x - 1) * (verts_z - 1) == (verts_z - 1) * (verts_x - 1)) by (nonlinear_arith);
    }
    indices
}

/// Every index names a vertex of the field: all lie below `verts_x * verts_z`.
pub proof fn lemma_heightfield_indices_in_range(indices: Seq<u32>, verts_x: int, verts_z: int, x: int, z: int)
    requires
        1 <= verts_x,
        1 <= verts_z,
        0 <= x < verts_x - 1,
        0 <= z < verts_z - 1,
        cell_indices_written(indices, verts_x, x, z),
    ensures
        ({
            let k = 6 * (z * (verts_x - 1) + x);
            &&& indices[k] < verts_x * verts_z
            &&& indices[k + 1] < verts_x * verts_z
            &&& indices[k + 2] < verts_x * verts_z
            &&& indices[k + 3] < verts_x * verts_z
            &&& indices[k + 4] < verts_x * verts_z
            &&& indices[k + 5] < verts_x * verts_z
        }),
{
    assert(z * verts_x + x + verts_x + 1 < verts_x * verts_z) by (nonlinear_arith)
        requires
            0 <= z,
            0 <= x,
            z + 1 < verts_z,
            x + 1 < verts_x,
    ;
}

} // verus!
