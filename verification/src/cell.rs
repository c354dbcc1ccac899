//! Grid coordinates and their spatial neighborhood.
//!
//! A [`Cell`] is an immutable integer coordinate on the conceptually infinite
//! grid. The 3-by-3 block centered on a cell is enumerated with saturating
//! arithmetic, so neighbor enumeration never wraps at the ends of the
//! coordinate range: a cell at an extreme simply has a smaller block.

use vstd::prelude::*;
use itertools::Itertools;
use crate::geometry::{Vector2, div_floor_i64};

verus! {

/// Edge length of one cell, in grid units.
pub const CELL_SIZE: i64 = 10;

/// Edge length of one cell, in grid milli-units.
pub const CELL_MILLI: i64 = CELL_SIZE * 1000;

/// A coordinate on the grid: row `i`, column `j`.
#[derive(Debug, Clone, Copy, PartialEq, Eq, Hash, Structural)]
pub struct Cell {
    pub i: i64,
    pub j: i64,
}

/// `v - 1`, saturating at the smallest `i64`.
pub open spec fn sat_dec(v: int) -> int {
    if v == i64::MIN as int {
        v
    } else {
        v - 1
    }
}

/// `v + 1`, saturating at the largest `i64`.
pub open spec fn sat_inc(v: int) -> int {
    if v == i64::MAX as int {
        v
    } else {
        v + 1
    }
}

/// Does `n` lie in the 3-by-3 block centered on `center` (saturated at the
/// coordinate extremes)? The center itself qualifies.
pub open spec fn in_cluster(n: Cell, center: Cell) -> bool {
    &&& sat_dec(center.i as int) <= n.i as int <= sat_inc(center.i as int)
    &&& sat_dec(center.j as int) <= n.j as int <= sat_inc(center.j as int)
}

/// Number of distinct rows in the block centered on `c`: 3, or 2 at an extreme.
pub open spec fn cluster_rows(c: Cell) -> int {
    sat_inc(c.i as int) - sat_dec(c.i as int) + 1
}

/// Number of distinct columns in the block centered on `c`: 3, or 2 at an extreme.
pub open spec fn cluster_cols(c: Cell) -> int {
    sat_inc(c.j as int) - sat_dec(c.j as int) + 1
}

/// The block centered on `c` in row-major order: rows outermost, both
/// coordinates ascending.
pub open spec fn cluster_seq(c: Cell) -> Seq<Cell> {
    Seq::new((cluster_rows(c) * cluster_cols(c)) as nat, |k: int| Cell {
        i: (sat_dec(c.i as int) + k / cluster_cols(c)) as i64,
        j: (sat_dec(c.j as int) + k % cluster_cols(c)) as i64,
    })
}

/// The neighbors of `c`: its block minus `c` itself.
pub open spec fn neighbor_set(c: Cell) -> Set<Cell> {
    Set::new(|n: Cell| in_cluster(n, c) && n != c)
}

/// The index of the cell enclosing a grid coordinate `v` (in milli-units)
/// along one axis: the cell with index `t` spans
/// `(t * CELL_MILLI, (t + 1) * CELL_MILLI]`, so a coordinate exactly on a
/// cell's upper edge still belongs to it.
pub open spec fn cell_index(v: int) -> int {
    (v - 1) / (CELL_MILLI as int)
}

/// All `(row, column)` pairs of two small inclusive ranges, rows outermost,
/// both ascending.
pub open spec fn pair_grid(r0: int, r1: int, c0: int, c1: int) -> Seq<(i64, i64)> {
    Seq::new(((r1 - r0 + 1) * (c1 - c0 + 1)) as nat, |k: int| (
        (r0 + k / (c1 - c0 + 1)) as i64,
        (c0 + k % (c1 - c0 + 1)) as i64,
    ))
}

/// Relies on itertools' `Itertools::cartesian_product` over two inclusive
/// `i64` ranges: it pairs every element of the first range with every element
/// of the second, first range outermost, both in ascending order.
#[verifier::external_body]
fn range_pairs(r0: i64, r1: i64, c0: i64, c1: i64) -> (r: Vec<(i64, i64)>)
    requires
        r0 <= r1,
        r1 - r0 <= 2,
        c0 <= c1,
        c1 - c0 <= 2,
    ensures
        r@ == pair_grid(r0 as int, r1 as int, c0 as int, c1 as int),
{
    (r0..=r1).cartesian_product(c0..=c1).collect()
}

impl Cell {
    /// The 3-by-3 block of coordinates centered on `cell` (inclusive), with
    /// saturating bounds at the coordinate extremes, in row-major order.
    pub fn cluster(cell: Cell) -> (r: Vec<Cell>)
        ensures
            r@ == cluster_seq(cell),
            r@.no_duplicates(),
            forall|n: Cell| r@.contains(n) <==> in_cluster(n, cell),
    {
        proof {
            lemma_cluster_seq_facts(cell);
        }
        let lo_i = crate::geometry::sat_sub_i64(cell.i, 1);
        let hi_i = crate::geometry::sat_add_i64(cell.i, 1);
        let lo_j = crate::geometry::sat_sub_i64(cell.j, 1);
        let hi_j = crate::geometry::sat_add_i64(cell.j, 1);
        let pairs = range_pairs(lo_i, hi_i, lo_j, hi_j);
        let mut out: Vec<Cell> = Vec::new();
        let mut k: usize = 0;
        while k < pairs.len()
            invariant
                pairs@ == pair_grid(lo_i as int, hi_i as int, lo_j as int, hi_j as int),
                lo_i as int == sat_dec(cell.i as int),
                hi_i as int == sat_inc(cell.i as int),
                lo_j as int == sat_dec(cell.j as int),
                hi_j as int == sat_inc(cell.j as int),
                k <= pairs@.len(),
                out@.len() == k,
                forall|m: int| 0 <= m < k ==> out@[m] == cluster_seq(cell)[m],
            decreases pairs@.len() - k,
        {
            let p = pairs[k];
            out.push(Cell { i: p.0, j: p.1 });
            k = k + 1;
        }
        proof {
            assert(out@ =~= cluster_seq(cell));
        }
        out
    }

    /// The 8 coordinates adjacent to `cell`: its block minus `cell` itself
    /// (fewer than 8 only where the block is saturated at a coordinate
    /// extreme).
    pub fn neighbors(cell: Cell) -> (r: Vec<Cell>)
        ensures
            r@.no_duplicates(),
            forall|n: Cell| r@.contains(n) <==> (in_cluster(n, cell) && n != cell),
    {
        broadcast use vstd::seq_lib::group_seq_properties;

        let block = Cell::cluster(cell);
        let mut out: Vec<Cell> = Vec::new();
        let mut k: usize = 0;
        while k < block.len()
            invariant
                block@.no_duplicates(),
                forall|n: Cell| block@.contains(n) <==> in_cluster(n, cell),
                k <= block@.len(),
                out@.no_duplicates(),
                forall|n: Cell|
                    out@.contains(n) <==> (block@.take(k as int).contains(n) && n != cell),
            decreases block@.len() - k,
        {
            let b = block[k];
            let ghost out_before = out@;
            if !(b.i == cell.i && b.j == cell.j) {
                proof {
                    if out@.contains(b) {
                        let m = choose|m: int| 0 <= m < k && #[trigger] block@.take(k as int)[m] == b;
                        assert(block@[m] == block@[k as int]);
                        assert(false);
                    }
                }
                out.push(b);
            }
            proof {
                let t0 = block@.take(k as int);
                let t1 = block@.take(k as int + 1);
                assert(t1 =~= t0.push(block@[k as int]));
                assert forall|n: Cell| out@.contains(n) implies (t1.contains(n) && n != cell) by {
                    let idx = choose|idx: int| 0 <= idx < out@.len() && #[trigger] out@[idx] == n;
                    if idx < out_before.len() {
                        assert(out_before[idx] == n);
                        assert(out_before.contains(n));
                        let m = choose|m: int| 0 <= m < t0.len() && #[trigger] t0[m] == n;
                        assert(t1[m] == n);
                    } else {
                        assert(n == b);
                        assert(t1[k as int] == n);
                    }
                    assert(t1.contains(n));
                }
                assert forall|n: Cell| t1.contains(n) && n != cell implies out@.contains(n) by {
                    let m = choose|m: int| 0 <= m < t1.len() && #[trigger] t1[m] == n;
                    if m < k {
                        assert(t0[m] == n);
                        assert(t0.contains(n));
                        assert(out_before.contains(n));
                        let idx = choose|idx: int|
                            0 <= idx < out_before.len() && #[trigger] out_before[idx] == n;
                        assert(out@[idx] == n);
                    } else {
                        assert(n == b);
                        assert(!(b.i == cell.i && b.j == cell.j));
                        assert(out@[out_before.len() as int] == b);
                    }
                    assert(out@.contains(n));
                }
            }
            k = k + 1;
        }
        proof {
            assert(block@.take(block@.len() as int) =~= block@);
        }
        out
    }

    /// The cell enclosing a grid-space point (milli-units). A cell's visual
    /// origin is its top-left corner: `at` maps the span
    /// `(t * CELL_MILLI, (t + 1) * CELL_MILLI]` of each axis to index `t`,
    /// the ceiling convention of the projection.
    pub fn at(position: Vector2) -> (r: Cell)
        ensures
            r.i as int == cell_index(position.y as int),
            r.j as int == cell_index(position.x as int),
    {
        Cell { i: Self::index_for(position.y), j: Self::index_for(position.x) }
    }

    /// One axis of [`Cell::at`].
    fn index_for(v: i64) -> (r: i64)
        ensures
            r as int == cell_index(v as int),
    {
        let vm1 = if v == i64::MIN {
            proof {
                vstd::arithmetic::div_mod::lemma_fundamental_div_mod_converse(
                    i64::MIN as int, CELL_MILLI as int, -922337203685478, 4192);
                vstd::arithmetic::div_mod::lemma_fundamental_div_mod_converse(
                    i64::MIN as int - 1, CELL_MILLI as int, -922337203685478, 4191);
            }
            v
        } else {
            v - 1
        };
        div_floor_i64(vm1, CELL_MILLI)
    }
}

/// Bounds of the row and column a flat row-major index falls in.
proof fn lemma_grid_index(k: int, rows: int, cols: int)
    requires
        0 <= k < rows * cols,
        1 <= cols,
    ensures
        cols * (k / cols) + k % cols == k,
        0 <= k / cols < rows,
        0 <= k % cols < cols,
{
    vstd::arithmetic::div_mod::lemma_fundamental_div_mod(k, cols);
    vstd::arithmetic::div_mod::lemma_mod_bound(k, cols);
    assert(0 <= k / cols < rows) by (nonlinear_arith)
        requires
            cols * (k / cols) + k % cols == k,
            0 <= k % cols < cols,
            0 <= k < rows * cols,
            1 <= cols,
    ;
}

/// The row-major enumeration of a cell's block lists each coordinate of the
/// block exactly once.
pub proof fn lemma_cluster_seq_facts(c: Cell)
    ensures
        cluster_seq(c).len() == cluster_rows(c) * cluster_cols(c),
        cluster_seq(c).no_duplicates(),
        forall|n: Cell| cluster_seq(c).contains(n) <==> in_cluster(n, c),
        cluster_seq(c).contains(c),
{
    let rows = cluster_rows(c);
    let cols = cluster_cols(c);
    let lo_i = sat_dec(c.i as int);
    let lo_j = sat_dec(c.j as int);
    assert(2 <= rows <= 3 && 2 <= cols <= 3);
    assert(cluster_seq(c).len() == rows * cols);

    assert forall|k1: int, k2: int|
        0 <= k1 < rows * cols && 0 <= k2 < rows * cols && k1 != k2
        implies cluster_seq(c)[k1] != cluster_seq(c)[k2] by {
        lemma_grid_index(k1, rows, cols);
        lemma_grid_index(k2, rows, cols);
        if k1 / cols == k2 / cols && k1 % cols == k2 % cols {
            assert(k1 == k2);
        }
    }
    assert(cluster_seq(c).no_duplicates());

    assert forall|n: Cell| cluster_seq(c).contains(n) implies in_cluster(n, c) by {
        let k = choose|k: int| 0 <= k < cluster_seq(c).len() && #[trigger] cluster_seq(c)[k] == n;
        lemma_grid_index(k, rows, cols);
    }
    assert forall|n: Cell| in_cluster(n, c) implies cluster_seq(c).contains(n) by {
        let q = n.i as int - lo_i;
        let r = n.j as int - lo_j;
        let k = q * cols + r;
        assert(0 <= q < rows && 0 <= r < cols);
        assert(0 <= k < rows * cols) by (nonlinear_arith)
            requires
                k == q * cols + r,
                0 <= q < rows,
                0 <= r < cols,
        ;
        vstd::arithmetic::div_mod::lemma_fundamental_div_mod_converse(k, cols, q, r);
        assert(cluster_seq(c)[k] == n);
    }
    assert(in_cluster(c, c));
}

/// How many neighbors a cell has: 8 for any cell away from the coordinate
/// extremes, and one less than its (saturated) block size in general, so a
/// cell at an extreme has fewer neighbors and enumeration never wraps. The
/// cell itself is never among them.
pub proof fn lemma_neighbor_count(c: Cell)
    ensures
        neighbor_set(c).finite(),
        neighbor_set(c).len() == cluster_rows(c) * cluster_cols(c) - 1,
        !neighbor_set(c).contains(c),
        i64::MIN < c.i < i64::MAX && i64::MIN < c.j < i64::MAX
            ==> neighbor_set(c).len() == 8,
{
    broadcast use vstd::seq_lib::seq_to_set_is_finite;

    lemma_cluster_seq_facts(c);
    let s = cluster_seq(c);
    s.unique_seq_to_set();
    assert forall|n: Cell| s.to_set().contains(n) <==> in_cluster(n, c) by {}
    assert(neighbor_set(c) =~= s.to_set().remove(c));
    assert(s.to_set().contains(c));
    assert(s.to_set().remove(c).len() == s.to_set().len() - 1);
    if i64::MIN < c.i < i64::MAX && i64::MIN < c.j < i64::MAX {
        assert(cluster_rows(c) == 3 && cluster_cols(c) == 3);
    }
}

} // verus!
