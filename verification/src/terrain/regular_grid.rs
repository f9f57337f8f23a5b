//! A regular grid of square cells laid over the ground: the graph of its
//! corner points and edges, the cells a pointer can hover, and the cells on
//! which a cube has been placed. Positions in the world are floating-point
//! and are worked out by the application.
use vstd::prelude::*;
use std::collections::HashSet;
use crate::grid_key::{lemma_pair_key_bijective, pack_pair, pair_key};

verus! {

broadcast use vstd::std_specs::hash::group_hash_axioms;

/// The index of corner point `(x, z)` when points are listed row by row,
/// `stride` points per row.
pub fn point_index(x: u32, z: u32, stride: u32) -> (index: usize)
    requires
        z * stride + x <= u32::MAX,
    ensures
        index == z * stride + x,
{
    (z * stride + x) as usize
}

/// The edges leaving corner point `p` of a grid of `cells_x` by `cells_z`
/// cells: the one to the next point in the row, unless `p` ends its row,
/// then the one to the point below, unless `p` is in the last row.
pub open spec fn point_edges(p: int, cells_x: int, cells_z: int) -> Seq<(usize, usize)> {
    let stride = cells_x + 1;
    let x = p % stride;
    let z = p / stride;
    (if x < cells_x {
        seq![(p as usize, (p + 1) as usize)]
    } else {
        Seq::empty()
    }) + (if z < cells_z {
        seq![(p as usize, (p + stride) as usize)]
    } else {
        Seq::empty()
    })
}

/// The edges leaving the first `n` corner points, in order.
pub open spec fn edges_upto(n: nat, cells_x: int, cells_z: int) -> Seq<(usize, usize)>
    decreases n,
{
    if n == 0 {
        Seq::empty()
    } else {
        edges_upto((n - 1) as nat, cells_x, cells_z) + point_edges(n - 1, cells_x, cells_z)
    }
}

/// The position of point `z * stride + x` within its row is `x`, its row `z`.
proof fn lemma_point_position(x: int, z: int, stride: int)
    requires
        0 <= x < stride,
        0 <= z,
    ensures
        (z * stride + x) % stride == x,
        (z * stride + x) / stride == z,
{
    vstd::arithmetic::div_mod::lemma_fundamental_div_mod_converse(z * stride + x, stride, z, x);
}

/// The edges of a grid of `cells_x` by `cells_z` cells: walking the corner
/// points row by row, each point is joined to the next point of its row and
/// to the point below it, where there is one.
pub fn grid_edges(cells_x: u32, cells_z: u32) -> (edges: Vec<(usize, usize)>)
    requires
        (cells_x + 1) * (cells_z + 1) <= u32::MAX,
    ensures
        edges@ == edges_upto(((cells_x + 1) * (cells_z + 1)) as nat, cells_x as int, cells_z as int),
{
    assert(cells_x + 1 <= u32::MAX && cells_z + 1 <= u32::MAX) by (nonlinear_arith)
        requires
            (cells_x + 1) * (cells_z + 1) <= u32::MAX,
    ;
    let stride = cells_x + 1;
    let mut edges: Vec<(usize, usize)> = Vec::new();
    let mut z: u32 = 0;
    while z <= cells_z
        invariant
            stride == cells_x + 1,
            (cells_x + 1) * (cells_z + 1) <= u32::MAX,
            cells_z + 1 <= u32::MAX,
            z <= cells_z + 1,
            edges@ == edges_upto((z * stride) as nat, cells_x as int, cells_z as int),
        decreases cells_z + 1 - z,
    {
        let mut x: u32 = 0;
        while x <= cells_x
            invariant
                stride == cells_x + 1,
                (cells_x + 1) * (cells_z + 1) <= u32::MAX,
                z <= cells_z,
                x <= cells_x + 1,
                edges@ == edges_upto((z * stride + x) as nat, cells_x as int, cells_z as int),
            decreases cells_x + 1 - x,
        {
            proof {
                assert(z * stride + x + 1 <= (cells_z + 1) * stride) by (nonlinear_arith)
                    requires
                        z <= cells_z,
                        x <= cells_x,
                        stride == cells_x + 1,
                ;
                assert((cells_z + 1) * stride == (cells_x + 1) * (cells_z + 1)) by (nonlinear_arith)
                    requires
                        stride == cells_x + 1,
                ;
                lemma_point_position(x as int, z as int, stride as int);
            }
            let current = point_index(x, z, stride);
            let ghost before = edges@;
            if x < cells_x {
                edges.push((current, point_index(x + 1, z, stride)));
            }
            if z < cells_z {
                proof {
                    assert(z * stride + x + stride <= (cells_z + 1) * stride) by (nonlinear_arith)
                        requires
                            z < cells_z,
                            x <= cells_x,
                            stride == cells_x + 1,
                    ;
                    assert((z + 1) * stride + x == z * stride + x + stride) by (nonlinear_arith);
                }
                edges.push((current, point_index(x, z + 1, stride)));
            }
            proof {
                let p = z * stride + x;
                assert(edges@ =~= before + point_edges(p as int, cells_x as int, cells_z as int));
            }
            x = x + 1;
        }
        proof {
            assert(z * stride + (cells_x + 1) == (z + 1) * stride) by (nonlinear_arith)
                requires
                    stride == cells_x + 1,
            ;
        }
        z = z + 1;
    }
    proof {
        assert((cells_z + 1) * stride == (cells_x + 1) * (cells_z + 1)) by (nonlinear_arith)
            requires
                stride == cells_x + 1,
        ;
    }
    edges
}

/// The cell a pointer is over, given the cell coordinates its position
/// falls into: none outside the `cells_x` by `cells_z` cells of the grid.
pub fn cell_in_grid(cell_x: i32, cell_z: i32, cells_x: u32, cells_z: u32) -> (cell: Option<(i32, i32)>)
    ensures
        cell == if cell_x < 0 || cell_z < 0 || cell_x >= cells_x as i32 || cell_z >= cells_z as i32 {
            None::<(i32, i32)>
        } else {
            Some((cell_x, cell_z))
        },
{
    if cell_x < 0 || cell_z < 0 || cell_x >= cells_x as i32 || cell_z >= cells_z as i32 {
        return None;
    }
    Some((cell_x, cell_z))
}

/// The cells on which a cube has been placed, under the key of their
/// coordinates.
#[derive(Debug)]
pub struct PlacedCells {
    pub cells: HashSet<u64>,
}

impl View for PlacedCells {
    type V = Set<(i32, i32)>;

    open spec fn view(&self) -> Set<(i32, i32)> {
        Set::new(|c: (i32, i32)| self.cells@.contains(pair_key(c.0, c.1)))
    }
}

impl PlacedCells {
    /// No cube placed.
    pub fn new() -> (placed: Self)
        ensures
            placed@ == Set::<(i32, i32)>::empty(),
    {
        let placed = Self { cells: HashSet::new() };
        assert(placed@ =~= Set::<(i32, i32)>::empty());
        placed
    }

    /// Whether a cube stands on the cell.
    pub fn contains(&self, cell_x: i32, cell_z: i32) -> (found: bool)
        ensures
            found == self@.contains((cell_x, cell_z)),
    {
        self.cells.contains(&pack_pair(cell_x, cell_z))
    }

    /// Places a cube on the cell, unless one stands there already; returns
    /// whether it was placed.
    pub fn place(&mut self, cell_x: i32, cell_z: i32) -> (placed: bool)
        ensures
            placed == !old(self)@.contains((cell_x, cell_z)),
            final(self)@ == old(self)@.insert((cell_x, cell_z)),
    {
        let key = pack_pair(cell_x, cell_z);
        let placed = self.cells.insert(key);
        proof {
            assert forall|c: (i32, i32)| pair_key(c.0, c.1) == key implies c == (cell_x, cell_z) by {
                lemma_pair_key_bijective(c.0, c.1, key);
                lemma_pair_key_bijective(cell_x, cell_z, key);
            }
        }
        assert(self@ =~= old(self)@.insert((cell_x, cell_z)));
        placed
    }
}

/// A cell takes one cube: once placed, placing on it again is refused.
pub proof fn lemma_place_once(before: Set<(i32, i32)>, cell: (i32, i32))
    ensures
        before.insert(cell).contains(cell),
{
}

} // verus!
