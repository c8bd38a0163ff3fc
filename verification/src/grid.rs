//! Triangle indices for a grid of quads (the colony's walls, rings and caps).

use vstd::prelude::*;

verus! {

/// The `r`-th of the six indices that make up quad (`i`, `j`) of a grid `cols` quads wide: the
/// quad's corners a (its own vertex), b (next along), c (next row), d (both), as triangles
/// a-b-c and b-d-c.
pub open spec fn quad_corner(cols: int, j: int, i: int, r: int) -> int {
    let a = j * (cols + 1) + i;
    let b = a + 1;
    let c = a + cols + 1;
    let d = c + 1;
    if r == 0 {
        a
    } else if r == 1 {
        b
    } else if r == 2 {
        c
    } else if r == 3 {
        b
    } else if r == 4 {
        d
    } else {
        c
    }
}

/// Grids whose index arithmetic fits in `u32`.
pub open spec fn grid_fits(cols: u32, rows: u32) -> bool {
    &&& 6 * cols * rows <= u32::MAX
    &&& (cols == 0 || rows == 0 || (rows + 1) * (cols + 1) <= u32::MAX + 1)
}

proof fn lemma_corner_bounds(cols: int, rows: int, j: int, i: int, r: int)
    requires
        0 <= j < rows,
        0 <= i < cols,
        0 <= r < 6,
    ensures
        0 <= quad_corner(cols, j, i, r) < (rows + 1) * (cols + 1),
        quad_corner(cols, j, i, r) <= quad_corner(cols, j, i, 4),
{
    assert(j * (cols + 1) + i + cols + 2 <= (rows + 1) * (cols + 1) - 1) by (nonlinear_arith)
        requires
            0 <= j < rows,
            0 <= i < cols,
    ;
    assert(0 <= j * (cols + 1)) by (nonlinear_arith)
        requires
            0 <= j,
            0 <= cols,
    ;
}

/// Quads over a (`cols` + 1) × (`rows` + 1) grid of vertices, row by row: six indices per quad,
/// as two triangles.
pub fn grid_indices(cols: u32, rows: u32) -> (idx: Vec<u32>)
    requires
        grid_fits(cols, rows),
    ensures
        idx@.len() == 6 * cols * rows,
        forall|j: int, i: int, r: int|
            0 <= j < rows && 0 <= i < cols && 0 <= r < 6 ==> idx@[6 * (j * cols + i) + r]
                == quad_corner(cols as int, j, i, r),
        forall|k: int| 0 <= k < idx@.len() ==> (#[trigger] idx@[k]) < (rows + 1) * (cols + 1),
{
    let mut idx: Vec<u32> = Vec::new();
    let mut j: u32 = 0;
    while j < rows
        invariant
            grid_fits(cols, rows),
            j <= rows,
            idx@.len() == 6 * cols * j,
            forall|jj: int, i: int, r: int|
                0 <= jj < j && 0 <= i < cols && 0 <= r < 6 ==> idx@[6 * (jj * cols + i) + r]
                    == quad_corner(cols as int, jj, i, r),
            forall|k: int| 0 <= k < idx@.len() ==> (#[trigger] idx@[k]) < (rows + 1) * (cols + 1),
        decreases rows - j,
    {
        let mut i: u32 = 0;
        proof {
            assert(6 * cols * j == 6 * (cols * j + 0)) by (nonlinear_arith);
            assert forall|jj: int, ii: int, r: int|
                0 <= jj && 0 <= ii < cols && 0 <= r < 6 && jj * cols + ii < j * cols + 0
                    implies idx@[6 * (jj * cols + ii) + r] == quad_corner(cols as int, jj, ii, r) by {
                assert(jj < j) by (nonlinear_arith)
                    requires
                        0 <= ii < cols,
                        jj * cols + ii < j * cols,
                        0 <= jj,
                ;
            }
        }
        while i < cols
            invariant
                grid_fits(cols, rows),
                j < rows,
                i <= cols,
                idx@.len() == 6 * (cols * j + i),
                forall|jj: int, ii: int, r: int|
                    0 <= jj && 0 <= ii < cols && 0 <= r < 6 && jj * cols + ii < j * cols + i
                        ==> idx@[6 * (jj * cols + ii) + r] == quad_corner(cols as int, jj, ii, r),
                forall|k: int| 0 <= k < idx@.len() ==> (#[trigger] idx@[k]) < (rows + 1) * (cols
                    + 1),
            decreases cols - i,
        {
            proof {
                lemma_corner_bounds(cols as int, rows as int, j as int, i as int, 4);
                assert((rows + 1) * (cols + 1) <= u32::MAX + 1);
            }
            let a = j * (cols + 1) + i;
            let b = a + 1;
            let c = a + cols + 1;
            let d = c + 1;
            let ghost before = idx@;
            idx.push(a);
            idx.push(b);
            idx.push(c);
            idx.push(b);
            idx.push(d);
            idx.push(c);
            proof {
                let q = j * cols + i;
                assert(6 * (cols * j + i) == 6 * q) by (nonlinear_arith)
                    requires
                        q == j * cols + i,
                ;
                assert forall|jj: int, ii: int, r: int|
                    0 <= jj && 0 <= ii < cols && 0 <= r < 6 && jj * cols + ii < j * cols + i + 1
                        implies idx@[6 * (jj * cols + ii) + r] == quad_corner(
                        cols as int,
                        jj,
                        ii,
                        r,
                    ) by {
                    if jj * cols + ii == j * cols + i {
                        assert(jj == j && ii == i) by (nonlinear_arith)
                            requires
                                jj * cols + ii == j * cols + i,
                                0 <= ii < cols,
                                0 <= i < cols,
                                0 <= jj,
                                0 <= j,
                        ;
                    } else {
                        assert(6 * (jj * cols + ii) + r < 6 * q);
                        assert(idx@[6 * (jj * cols + ii) + r] == before[6 * (jj * cols + ii) + r]);
                    }
                }
                assert forall|k: int| 0 <= k < idx@.len() implies (#[trigger] idx@[k]) < (rows + 1)
                    * (cols + 1) by {
                    if k < before.len() {
                        assert(idx@[k] == before[k]);
                    }
                }
                assert(6 * (cols * j + i + 1) == 6 * (cols * j + i) + 6) by (nonlinear_arith);
            }
            i = i + 1;
        }
        proof {
            assert(6 * (cols * j + cols) == 6 * cols * (j + 1)) by (nonlinear_arith);
            assert forall|jj: int, i: int, r: int|
                0 <= jj < j + 1 && 0 <= i < cols && 0 <= r < 6 implies idx@[6 * (jj * cols + i) + r]
                    == quad_corner(cols as int, jj, i, r) by {
                assert(jj * cols + i < j * cols + cols) by (nonlinear_arith)
                    requires
                        0 <= jj < j + 1,
                        0 <= i < cols,
                ;
            }
        }
        j = j + 1;
    }
    idx
}

} // verus!
