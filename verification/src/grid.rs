//! The arrays of the map, stored by `ndarray`: the grid of activation counters
//! and the tensor of prototype weights.

use vstd::prelude::*;
use crate::layout::{
    lemma_cell_index_bound, lemma_cell_of_index, lemma_weight_index_bound, lemma_weight_of_index,
    weight_index,
};

verus! {

/// A two-dimensional array of counters.
///
/// The array itself is hidden from the verifier; `cells` names what it holds.
#[verifier::external_body]
pub struct CountGrid {
    inner: ndarray::Array2<usize>,
}

/// The counters of a grid, keyed by `(row, column)`. The keys are exactly the
/// positions inside the array's bounds.
pub uninterp spec fn cells(grid: CountGrid) -> Map<(usize, usize), usize>;

/// The positions of a `rows` by `cols` rectangle.
pub open spec fn in_rect(pos: (usize, usize), rows: nat, cols: nat) -> bool {
    pos.0 < rows && pos.1 < cols
}

/// Whether a grid has exactly the positions of a `rows` by `cols` rectangle.
pub open spec fn has_shape(grid: CountGrid, rows: nat, cols: nat) -> bool {
    forall|pos: (usize, usize)|
        #![trigger cells(grid).dom().contains(pos)]
        #![trigger in_rect(pos, rows, cols)]
        cells(grid).dom().contains(pos) <==> in_rect(pos, rows, cols)
}

/// Whether every counter of the grid is zero.
pub open spec fn all_zero(grid: CountGrid) -> bool {
    forall|pos: (usize, usize)|
        #![trigger cells(grid).dom().contains(pos)]
        cells(grid).dom().contains(pos) ==> cells(grid)[pos] == 0
}

/// Whether `data` lists the counters in row-major order, `cols` to a row.
pub open spec fn lists_rows(counts: Map<(usize, usize), usize>, cols: nat, data: Seq<usize>) -> bool {
    forall|pos: (usize, usize)|
        #![trigger counts.dom().contains(pos)]
        counts.dom().contains(pos) ==> {
            &&& 0 <= pos.0 * cols + pos.1 < data.len()
            &&& counts[pos] == data[pos.0 * cols + pos.1]
        }
}

/// Whether the grid holds `data` in row-major order, `cols` counters to a row.
pub open spec fn holds_rows(grid: CountGrid, cols: nat, data: Seq<usize>) -> bool {
    lists_rows(cells(grid), cols, data)
}

/// `ndarray::Array2::zeros`: a `rows` by `cols` array whose every element is
/// zero. The call panics when the element count does not fit in `isize`, which
/// the precondition rules out.
#[verifier::external_body]
pub(crate) fn zeros(rows: usize, cols: usize) -> (grid: CountGrid)
    requires
        0 < rows,
        0 < cols,
        rows * cols <= isize::MAX,
    ensures
        has_shape(grid, rows as nat, cols as nat),
        all_zero(grid),
{
    CountGrid { inner: ndarray::Array2::zeros((rows, cols)) }
}

/// `ndarray::Array2::from_shape_vec` with a plain `(rows, cols)` shape: the
/// array of that shape holding `data` in row-major order. It refuses the
/// vector exactly when its length is not `rows * cols`, or when the product of
/// the non-zero dimensions does not fit in `isize`.
#[verifier::external_body]
pub(crate) fn from_shape_vec(rows: usize, cols: usize, data: Vec<usize>) -> (grid: Option<
    CountGrid,
>)
    requires
        0 < rows,
        0 < cols,
    ensures
        grid is Some <==> (data.len() == rows * cols && rows * cols <= isize::MAX),
        grid is Some ==> has_shape(grid->0, rows as nat, cols as nat),
        grid is Some ==> holds_rows(grid->0, cols as nat, data@),
{
    match ndarray::Array2::from_shape_vec((rows, cols), data) {
        Ok(inner) => Some(CountGrid { inner }),
        Err(_) => None,
    }
}

/// `ndarray::ArrayBase::get`: the element at `pos`, or `None` when `pos` lies
/// outside the array.
#[verifier::external_body]
pub(crate) fn get(grid: &CountGrid, pos: (usize, usize)) -> (count: Option<usize>)
    ensures
        count == (if cells(*grid).dom().contains(pos) {
            Some(cells(*grid)[pos])
        } else {
            None
        }),
{
    grid.inner.get(pos).copied()
}

/// Indexed assignment through `ndarray`'s `IndexMut`: replaces the element at
/// `pos` and nothing else. Indexing panics outside the bounds, which the
/// precondition rules out.
#[verifier::external_body]
pub(crate) fn put(grid: &mut CountGrid, pos: (usize, usize), count: usize)
    requires
        cells(*old(grid)).dom().contains(pos),
    ensures
        cells(*final(grid)) == cells(*old(grid)).insert(pos, count),
{
    grid.inner[pos] = count;
}

/// Lists the counters of a grid in row-major order.
pub(crate) fn to_rows(grid: &CountGrid, rows: usize, cols: usize) -> (data: Vec<usize>)
    requires
        has_shape(*grid, rows as nat, cols as nat),
        rows * cols <= usize::MAX,
    ensures
        data.len() == rows * cols,
        holds_rows(*grid, cols as nat, data@),
{
    let mut data: Vec<usize> = Vec::new();
    if cols == 0 {
        assert(rows * cols == 0) by (nonlinear_arith)
            requires
                cols == 0,
        ;
        return data;
    }
    let total: usize = rows * cols;
    let mut n: usize = 0;
    while n < total
        invariant
            0 <= n <= total,
            total == rows * cols,
            cols > 0,
            data.len() == n,
            has_shape(*grid, rows as nat, cols as nat),
            forall|m: int|
                0 <= m < n ==> #[trigger] data[m] == cells(*grid)[(
                    (m / cols as int) as usize,
                    (m % cols as int) as usize,
                )],
        decreases total - n,
    {
        proof {
            lemma_cell_of_index(rows as nat, cols as nat, n as nat);
        }
        let pos: (usize, usize) = (n / cols, n % cols);
        assert(in_rect(pos, rows as nat, cols as nat));
        let count: usize = get(grid, pos).unwrap();
        data.push(count);
        n = n + 1;
    }
    proof {
        let width: nat = cols as nat;
        assert forall|pos: (usize, usize)| #[trigger]
            cells(*grid).dom().contains(pos) implies {
            &&& 0 <= pos.0 * width + pos.1 < data@.len()
            &&& cells(*grid)[pos] == data@[pos.0 * width + pos.1]
        } by {
            lemma_cell_index_bound(rows as nat, width, pos.0 as nat, pos.1 as nat);
            let m: int = pos.0 * width + pos.1;
            vstd::arithmetic::div_mod::lemma_fundamental_div_mod_converse(
                m,
                cols as int,
                pos.0 as int,
                pos.1 as int,
            );
            assert(data[m] == cells(*grid)[((m / cols as int) as usize, (m % cols as int) as usize)]);
        }
        assert(holds_rows(*grid, width, data@));
    }
    data
}

/// A three-dimensional array of binary64 patterns.
///
/// The array itself is hidden from the verifier; `patterns` names what it holds.
#[verifier::external_body]
pub struct WeightGrid {
    inner: ndarray::Array3<u64>,
}

/// The patterns of a tensor, keyed by `(row, column, component)`. The keys are
/// exactly the positions inside the array's bounds.
pub uninterp spec fn patterns(grid: WeightGrid) -> Map<(usize, usize, usize), u64>;

/// The positions of an `x` by `y` by `z` box.
pub open spec fn in_box(pos: (usize, usize, usize), x: nat, y: nat, z: nat) -> bool {
    pos.0 < x && pos.1 < y && pos.2 < z
}

/// Whether the keys of `weights` are exactly the positions of an `x` by `y` by
/// `z` box.
pub open spec fn fills_box(weights: Map<(usize, usize, usize), u64>, x: nat, y: nat, z: nat) -> bool {
    forall|pos: (usize, usize, usize)|
        #![trigger weights.dom().contains(pos)]
        #![trigger in_box(pos, x, y, z)]
        weights.dom().contains(pos) <==> in_box(pos, x, y, z)
}

/// Whether `data` lists the patterns in row-major order: `y` cells to a row
/// and `z` components to a cell.
pub open spec fn lists_box(
    weights: Map<(usize, usize, usize), u64>,
    y: nat,
    z: nat,
    data: Seq<u64>,
) -> bool {
    forall|pos: (usize, usize, usize)|
        #![trigger weights.dom().contains(pos)]
        weights.dom().contains(pos) ==> {
            &&& weight_index(y, z, pos.0 as nat, pos.1 as nat, pos.2 as nat) < data.len()
            &&& weights[pos] == data[weight_index(
                y,
                z,
                pos.0 as nat,
                pos.1 as nat,
                pos.2 as nat,
            ) as int]
        }
}

/// `ndarray::Array3::from_shape_vec` with a plain `(x, y, z)` shape: the array
/// of that shape holding `data` in row-major order. It refuses the vector
/// exactly when its length is not `x * y * z`, or when the product of the
/// non-zero dimensions does not fit in `isize`.
#[verifier::external_body]
pub(crate) fn tensor_from_shape_vec(x: usize, y: usize, z: usize, data: Vec<u64>) -> (grid: Option<
    WeightGrid,
>)
    requires
        0 < x,
        0 < y,
        0 < z,
    ensures
        grid is Some <==> (data.len() == x * y * z && x * y * z <= isize::MAX),
        grid is Some ==> fills_box(patterns(grid->0), x as nat, y as nat, z as nat),
        grid is Some ==> lists_box(patterns(grid->0), y as nat, z as nat, data@),
{
    match ndarray::Array3::from_shape_vec((x, y, z), data) {
        Ok(inner) => Some(WeightGrid { inner }),
        Err(_) => None,
    }
}

/// `ndarray::ArrayBase::get`: the element at `pos`, or `None` when `pos` lies
/// outside the array.
#[verifier::external_body]
pub(crate) fn weight_at(grid: &WeightGrid, pos: (usize, usize, usize)) -> (weight: Option<u64>)
    ensures
        weight == (if patterns(*grid).dom().contains(pos) {
            Some(patterns(*grid)[pos])
        } else {
            None
        }),
{
    grid.inner.get(pos).copied()
}

/// Indexed assignment through `ndarray`'s `IndexMut`: replaces the element at
/// `pos` and nothing else. Indexing panics outside the bounds, which the
/// precondition rules out.
#[verifier::external_body]
pub(crate) fn put_weight(grid: &mut WeightGrid, pos: (usize, usize, usize), weight: u64)
    requires
        patterns(*old(grid)).dom().contains(pos),
    ensures
        patterns(*final(grid)) == patterns(*old(grid)).insert(pos, weight),
{
    grid.inner[pos] = weight;
}

/// Lists the patterns of a tensor in row-major order.
pub(crate) fn to_list(grid: &WeightGrid, x: usize, y: usize, z: usize) -> (data: Vec<u64>)
    requires
        fills_box(patterns(*grid), x as nat, y as nat, z as nat),
        x * y * z <= usize::MAX,
        0 < y,
        0 < z,
    ensures
        data.len() == x * y * z,
        lists_box(patterns(*grid), y as nat, z as nat, data@),
{
    let mut data: Vec<u64> = Vec::new();
    assert(x * y <= x * y * z) by (nonlinear_arith)
        requires
            z >= 1,
    ;
    let total: usize = x * y * z;
    let mut n: usize = 0;
    while n < total
        invariant
            0 <= n <= total,
            total == x * y * z,
            y > 0,
            z > 0,
            data.len() == n,
            fills_box(patterns(*grid), x as nat, y as nat, z as nat),
            forall|m: int|
                0 <= m < n ==> #[trigger] data[m] == patterns(*grid)[(
                    ((m / z as int) / y as int) as usize,
                    ((m / z as int) % y as int) as usize,
                    (m % z as int) as usize,
                )],
        decreases total - n,
    {
        proof {
            lemma_weight_of_index(x as nat, y as nat, z as nat, n as nat);
        }
        let cell: usize = n / z;
        let pos: (usize, usize, usize) = (cell / y, cell % y, n % z);
        assert(in_box(pos, x as nat, y as nat, z as nat));
        let weight: u64 = weight_at(grid, pos).unwrap();
        data.push(weight);
        n = n + 1;
    }
    proof {
        let (yn, zn): (nat, nat) = (y as nat, z as nat);
        assert forall|pos: (usize, usize, usize)| #[trigger]
            patterns(*grid).dom().contains(pos) implies {
            &&& weight_index(yn, zn, pos.0 as nat, pos.1 as nat, pos.2 as nat) < data@.len()
            &&& patterns(*grid)[pos] == data@[weight_index(
                yn,
                zn,
                pos.0 as nat,
                pos.1 as nat,
                pos.2 as nat,
            ) as int]
        } by {
            lemma_weight_index_bound(x as nat, yn, zn, pos.0 as nat, pos.1 as nat, pos.2 as nat);
            let m: int = weight_index(yn, zn, pos.0 as nat, pos.1 as nat, pos.2 as nat) as int;
            let c: int = pos.0 * y + pos.1;
            vstd::arithmetic::div_mod::lemma_fundamental_div_mod_converse(
                m,
                z as int,
                c,
                pos.2 as int,
            );
            vstd::arithmetic::div_mod::lemma_fundamental_div_mod_converse(
                c,
                y as int,
                pos.0 as int,
                pos.1 as int,
            );
            assert(data[m] == patterns(*grid)[(
                ((m / z as int) / y as int) as usize,
                ((m / z as int) % y as int) as usize,
                (m % z as int) as usize,
            )]);
        }
        assert(lists_box(patterns(*grid), yn, zn, data@));
    }
    data
}

} // verus!
