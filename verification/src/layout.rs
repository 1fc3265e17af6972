//! Row-major positions in the grid and in the weight tensor.

use vstd::prelude::*;

verus! {

/// The place of cell `(i, j)` in a row-major grid with `y` columns.
pub open spec fn cell_index(y: nat, i: nat, j: nat) -> nat {
    i * y + j
}

/// The place of component `k` of cell `(i, j)` in a row-major tensor with `y`
/// columns and `z` components to a cell.
pub open spec fn weight_index(y: nat, z: nat, i: nat, j: nat, k: nat) -> nat {
    (i * y + j) * z + k
}

/// A cell inside an `x` by `y` grid has its place below `x * y`.
pub proof fn lemma_cell_index_bound(x: nat, y: nat, i: nat, j: nat)
    requires
        i < x,
        j < y,
    ensures
        cell_index(y, i, j) < x * y,
{
    assert(i * y + y <= x * y) by (nonlinear_arith)
        requires
            i + 1 <= x,
    ;
}

/// A component inside an `x` by `y` by `z` tensor has its place below `x * y * z`.
pub proof fn lemma_weight_index_bound(x: nat, y: nat, z: nat, i: nat, j: nat, k: nat)
    requires
        i < x,
        j < y,
        k < z,
    ensures
        weight_index(y, z, i, j, k) < x * y * z,
{
    lemma_cell_index_bound(x, y, i, j);
    let c: nat = i * y + j;
    let n: nat = x * y;
    assert(c * z + z <= n * z) by (nonlinear_arith)
        requires
            c + 1 <= n,
    ;
}

/// Every place below `x * y` is the place of exactly the cell
/// `(index / y, index % y)`, which lies inside the grid.
pub proof fn lemma_cell_of_index(x: nat, y: nat, index: nat)
    requires
        index < x * y,
    ensures
        y > 0,
        index / y < x,
        index % y < y,
        cell_index(y, index / y, index % y) == index,
{
    assert(y > 0) by (nonlinear_arith)
        requires
            index < x * y,
    ;
    assert(index == (index / y) * y + index % y && 0 <= index % y < y) by (nonlinear_arith)
        requires
            y > 0,
    ;
    let q: nat = index / y;
    assert(q < x) by (nonlinear_arith)
        requires
            q * y <= index,
            index < x * y,
            y > 0,
    ;
}

/// Every place below `x * y * z` is the place of exactly the component
/// `((index / z) / y, (index / z) % y, index % z)`, which lies inside the tensor.
pub proof fn lemma_weight_of_index(x: nat, y: nat, z: nat, index: nat)
    requires
        index < x * y * z,
    ensures
        y > 0,
        z > 0,
        (index / z) / y < x,
        (index / z) % y < y,
        index % z < z,
        weight_index(y, z, (index / z) / y, (index / z) % y, index % z) == index,
{
    lemma_cell_of_index(x * y, z, index);
    lemma_cell_of_index(x, y, index / z);
}

/// Two cells of a grid with `y` columns share a place only when they are the
/// same cell.
pub proof fn lemma_cell_index_injective(y: nat, i1: nat, j1: nat, i2: nat, j2: nat)
    requires
        j1 < y,
        j2 < y,
        cell_index(y, i1, j1) == cell_index(y, i2, j2),
    ensures
        i1 == i2,
        j1 == j2,
{
    assert(i1 == i2) by (nonlinear_arith)
        requires
            j1 < y,
            j2 < y,
            i1 * y + j1 == i2 * y + j2,
    ;
}

} // verus!
