//! The map itself: its shape, prototype weights, activation counters and labels.

use vstd::prelude::*;
use crate::error::SomError;
use crate::grid::{
    cells, fills_box, in_box, in_rect, lists_rows, patterns, CountGrid, WeightGrid,
};
use crate::layout::{
    cell_index, lemma_cell_index_bound, lemma_cell_index_injective, lemma_cell_of_index,
    weight_index,
};
use crate::search::{best_index, is_best, is_peak, lemma_best_is_unique, peak};
use crate::training::{batch_schedule, regulator_for, BatchRun, RandomRun};

verus! {

/// The binary32 pattern of the learning rate used when none is given: 0.5.
pub const DEFAULT_LEARNING_RATE: u32 = 0x3F00_0000;

/// The binary32 pattern of the neighbourhood spread used when none is given: 1.0.
pub const DEFAULT_SIGMA: u32 = 0x3F80_0000;

/// A tag attached to a grid cell.
#[derive(Debug)]
pub struct DataLabel {
    label: String,
}

impl View for DataLabel {
    type V = Seq<char>;

    closed spec fn view(&self) -> Seq<char> {
        self.label@
    }
}

impl DataLabel {
    /// A tag with the given text.
    pub fn new(label: String) -> (r: DataLabel)
        ensures
            r@ == label@,
    {
        DataLabel { label }
    }

    /// The text of the tag.
    pub fn label(&self) -> (r: &String)
        ensures
            r@ == self@,
    {
        &self.label
    }
}

impl Default for DataLabel {
    /// The tag of a cell that nobody has tagged: `"none"`.
    fn default() -> (r: DataLabel)
        ensures
            r@ == "none"@,
    {
        DataLabel { label: "none".to_owned() }
    }
}

/// The mathematical content of a map.
pub struct SomView {
    /// Number of grid rows.
    pub x: nat,
    /// Number of grid columns.
    pub y: nat,
    /// Length of every prototype vector and of every input vector.
    pub z: nat,
    /// Binary32 pattern of the initial learning rate.
    pub learning_rate: u32,
    /// Binary32 pattern of the initial neighbourhood spread.
    pub sigma: u32,
    /// Number of iterations after which the decay divisor grows by one.
    pub regulator: u32,
    /// Binary64 patterns of the prototype vectors, keyed by `(row, column,
    /// component)`.
    pub weights: Map<(usize, usize, usize), u64>,
    /// The tags of the cells, row-major, when a label grid is attached.
    pub labels: Option<Seq<Seq<char>>>,
    /// How often each cell has won, keyed by `(row, column)`.
    pub counts: Map<(usize, usize), usize>,
}

impl SomView {
    /// The invariant of a map: positive dimensions and arrays of matching shape.
    pub open spec fn valid(self) -> bool {
        &&& 0 < self.x
        &&& 0 < self.y
        &&& 0 < self.z
        &&& self.x * self.y <= isize::MAX
        &&& self.x * self.y * self.z <= isize::MAX
        &&& fills_box(self.weights, self.x, self.y, self.z)
        &&& forall|pos: (usize, usize)|
            #![trigger self.counts.dom().contains(pos)]
            #![trigger in_rect(pos, self.x, self.y)]
            self.counts.dom().contains(pos) <==> in_rect(pos, self.x, self.y)
        &&& (self.labels matches Some(tags) ==> tags.len() == self.x * self.y)
    }

    /// Whether `pos` is the cell that wins the search over `distances`, which
    /// lists the distance of every cell in row-major order.
    pub open spec fn wins(self, distances: Seq<u64>, pos: (usize, usize)) -> bool {
        in_rect(pos, self.x, self.y) && is_best(
            distances,
            cell_index(self.y, pos.0 as nat, pos.1 as nat) as int,
        )
    }

    /// The map after the cell `pos` has won once more.
    pub open spec fn after_win(self, pos: (usize, usize)) -> SomView {
        SomView { counts: self.counts.insert(pos, (self.counts[pos] + 1) as usize), ..self }
    }

    /// The map with other prototype weights.
    pub open spec fn with_weights(self, weights: Map<(usize, usize, usize), u64>) -> SomView {
        SomView { weights, ..self }
    }

    /// The map with another label grid, or with none.
    pub open spec fn with_labels(self, labels: Option<Seq<Seq<char>>>) -> SomView {
        SomView { labels, ..self }
    }

    /// The map with another regulator.
    pub open spec fn with_regulator(self, regulator: u32) -> SomView {
        SomView { regulator, ..self }
    }

    /// Whether `pos` names a component of a prototype vector.
    pub open spec fn has_weight(self, pos: (usize, usize, usize)) -> bool {
        in_box(pos, self.x, self.y, self.z)
    }
}

/// The views of a sequence of tags.
pub open spec fn tag_views(tags: Seq<DataLabel>) -> Seq<Seq<char>> {
    tags.map_values(|tag: DataLabel| tag@)
}

/// The tensor of `x` by `y` by `z` patterns that `data` lists in row-major
/// order: `y` cells to a row and `z` components to a cell.
pub open spec fn tensor_of(x: nat, y: nat, z: nat, data: Seq<u64>) -> Map<
    (usize, usize, usize),
    u64,
> {
    Map::new(
        |pos: (usize, usize, usize)| in_box(pos, x, y, z),
        |pos: (usize, usize, usize)|
            data[weight_index(y, z, pos.0 as nat, pos.1 as nat, pos.2 as nat) as int],
    )
}

/// The counters of a fresh `x` by `y` grid: zero at every cell.
pub open spec fn zero_counts(x: nat, y: nat) -> Map<(usize, usize), usize> {
    Map::new(|pos: (usize, usize)| in_rect(pos, x, y), |pos: (usize, usize)| 0usize)
}

/// Whether a map of the given dimensions can be built: no dimension is zero
/// and the number of weights fits the signed machine word.
pub open spec fn buildable(length: usize, breadth: usize, inputs: usize) -> bool {
    &&& 0 < length
    &&& 0 < breadth
    &&& 0 < inputs
    &&& length * breadth * inputs <= isize::MAX
}

/// The number of weights of a map of the given dimensions: as many patterns
/// as `SOM::create` asks for.
pub fn weight_count(length: usize, breadth: usize, inputs: usize) -> (r: Result<usize, SomError>)
    ensures
        buildable(length, breadth, inputs) ==> r == Ok::<usize, SomError>(
            (length * breadth * inputs) as usize,
        ),
        !buildable(length, breadth, inputs) ==> r == Err::<usize, SomError>(
            SomError::InvalidParameter,
        ),
{
    if length == 0 || breadth == 0 || inputs == 0 {
        return Err(SomError::InvalidParameter);
    }
    let cell_count: usize = match length.checked_mul(breadth) {
        Some(n) => n,
        None => {
            assert(length * breadth <= length * breadth * inputs) by (nonlinear_arith)
                requires
                    inputs >= 1,
            ;
            return Err(SomError::InvalidParameter);
        },
    };
    match cell_count.checked_mul(inputs) {
        Some(n) => {
            if n > isize::MAX as usize {
                Err(SomError::InvalidParameter)
            } else {
                Ok(n)
            }
        },
        None => {
            assert(length * breadth * inputs > isize::MAX);
            Err(SomError::InvalidParameter)
        },
    }
}

/// Given the distances, at most one cell wins.
pub proof fn lemma_winner_is_unique(
    map: SomView,
    distances: Seq<u64>,
    first: (usize, usize),
    second: (usize, usize),
)
    requires
        map.wins(distances, first),
        map.wins(distances, second),
    ensures
        first == second,
{
    lemma_best_is_unique(
        distances,
        cell_index(map.y, first.0 as nat, first.1 as nat) as int,
        cell_index(map.y, second.0 as nat, second.1 as nat) as int,
    );
    lemma_cell_index_injective(
        map.y,
        first.0 as nat,
        first.1 as nat,
        second.0 as nat,
        second.1 as nat,
    );
}

/// A win changes one counter and no other: the winner's counter grows by
/// exactly one, every other counter keeps its value, and nothing else of the
/// map changes. No counter ever shrinks.
pub proof fn lemma_win_counts_once(before: SomView, pos: (usize, usize))
    requires
        before.valid(),
        in_rect(pos, before.x, before.y),
        before.counts[pos] < usize::MAX,
    ensures
        before.after_win(pos).valid(),
        before.after_win(pos).counts[pos] == before.counts[pos] + 1,
        forall|other: (usize, usize)|
            other != pos && before.counts.dom().contains(other) ==> #[trigger] before.after_win(
                pos,
            ).counts[other] == before.counts[other],
        forall|any: (usize, usize)|
            before.counts.dom().contains(any) ==> #[trigger] before.after_win(pos).counts[any]
                >= before.counts[any],
        before.after_win(pos).weights == before.weights,
        before.after_win(pos).x == before.x,
        before.after_win(pos).y == before.y,
        before.after_win(pos).z == before.z,
{
}

/// A two-dimensional array in plain form: its shape and its elements in
/// row-major order.
#[derive(Debug)]
pub struct Plane<T> {
    pub dim: (usize, usize),
    pub data: Vec<T>,
}

/// A three-dimensional array of binary64 patterns in plain form: its shape and
/// its elements in row-major order.
#[derive(Debug)]
pub struct Volume {
    pub dim: (usize, usize, usize),
    pub data: Vec<u64>,
}

/// A snapshot of a map: everything that is data. Nothing is promised of a
/// snapshot until `SOM::from_data` has accepted it.
#[derive(Debug)]
pub struct SomData {
    /// Number of grid rows.
    pub x: usize,
    /// Number of grid columns.
    pub y: usize,
    /// Length of the prototype vectors.
    pub z: usize,
    /// Binary32 pattern of the initial learning rate.
    pub learning_rate: u32,
    /// Binary32 pattern of the initial neighbourhood spread.
    pub sigma: u32,
    /// Number of iterations after which the decay divisor grows by one.
    pub regulate_lrate: u32,
    /// The prototype vectors.
    pub map: Volume,
    /// The tags of the cells, if a label grid is attached.
    pub tag_map: Option<Plane<DataLabel>>,
    /// How often each cell has won.
    pub activation_map: Plane<usize>,
}

impl SomData {
    /// Whether the shape fields agree with the shapes and sizes of the arrays,
    /// and a grid of that shape can be built.
    pub open spec fn consistent(self) -> bool {
        &&& buildable(self.x, self.y, self.z)
        &&& self.map.dim == (self.x, self.y, self.z)
        &&& self.map.data.len() == self.x * self.y * self.z
        &&& self.activation_map.dim == (self.x, self.y)
        &&& self.activation_map.data.len() == self.x * self.y
        &&& (self.tag_map matches Some(tags) ==> tags.dim == (self.x, self.y) && tags.data.len()
            == self.x * self.y)
    }

    /// The map that a consistent snapshot describes.
    pub open spec fn model(self) -> SomView {
        SomView {
            x: self.x as nat,
            y: self.y as nat,
            z: self.z as nat,
            learning_rate: self.learning_rate,
            sigma: self.sigma,
            regulator: self.regulate_lrate,
            weights: tensor_of(self.x as nat, self.y as nat, self.z as nat, self.map.data@),
            labels: match self.tag_map {
                Some(tags) => Some(tag_views(tags.data@)),
                None => None,
            },
            counts: Map::new(
                |pos: (usize, usize)| in_rect(pos, self.x as nat, self.y as nat),
                |pos: (usize, usize)| self.activation_map.data@[pos.0 * self.y + pos.1],
            ),
        }
    }
}

/// Copies a list of tags.
fn copy_tags(tags: &Vec<DataLabel>) -> (copy: Vec<DataLabel>)
    ensures
        tag_views(copy@) == tag_views(tags@),
{
    let mut copy: Vec<DataLabel> = Vec::new();
    let mut n: usize = 0;
    while n < tags.len()
        invariant
            0 <= n <= tags.len(),
            copy.len() == n,
            forall|k: int| 0 <= k < n ==> (#[trigger] copy[k])@ == tags[k]@,
        decreases tags.len() - n,
    {
        copy.push(DataLabel { label: tags[n].label.clone() });
        n = n + 1;
    }
    assert(tag_views(copy@) =~= tag_views(tags@));
    copy
}

/// A self-organizing map.
pub struct SOM {
    x: usize,
    y: usize,
    z: usize,
    learning_rate: u32,
    sigma: u32,
    regulate_lrate: u32,
    map: WeightGrid,
    tag_map: Option<Vec<DataLabel>>,
    activation_map: CountGrid,
}

impl View for SOM {
    type V = SomView;

    closed spec fn view(&self) -> SomView {
        SomView {
            x: self.x as nat,
            y: self.y as nat,
            z: self.z as nat,
            learning_rate: self.learning_rate,
            sigma: self.sigma,
            regulator: self.regulate_lrate,
            weights: patterns(self.map),
            labels: match self.tag_map {
                Some(tags) => Some(tag_views(tags@)),
                None => None,
            },
            counts: cells(self.activation_map),
        }
    }
}

impl SOM {
    /// Whether the map satisfies its invariant.
    pub open spec fn wf(&self) -> bool {
        self@.valid()
    }

    /// Builds a map of `length` by `breadth` cells whose prototype vectors have
    /// `inputs` components, from the row-major patterns of its initial weights.
    ///
    /// The counters start at zero, no label grid is attached and the regulator
    /// is zero. A missing learning rate is 0.5, a missing spread 1.0.
    pub fn create(
        length: usize,
        breadth: usize,
        inputs: usize,
        weights: Vec<u64>,
        learning_rate: Option<u32>,
        sigma: Option<u32>,
    ) -> (r: Result<SOM, SomError>)
        ensures
            !buildable(length, breadth, inputs) ==> r == Err::<SOM, SomError>(
                SomError::InvalidParameter,
            ),
            buildable(length, breadth, inputs) && weights.len() != length * breadth * inputs ==> r
                == Err::<SOM, SomError>(SomError::DimensionMismatch),
            buildable(length, breadth, inputs) && weights.len() == length * breadth * inputs ==> {
                &&& r is Ok
                &&& r->Ok_0.wf()
                &&& r->Ok_0@ == (SomView {
                    x: length as nat,
                    y: breadth as nat,
                    z: inputs as nat,
                    learning_rate: learning_rate.unwrap_or(DEFAULT_LEARNING_RATE),
                    sigma: sigma.unwrap_or(DEFAULT_SIGMA),
                    regulator: 0,
                    weights: tensor_of(length as nat, breadth as nat, inputs as nat, weights@),
                    labels: None,
                    counts: zero_counts(length as nat, breadth as nat),
                })
            },
    {
        let expected: usize = match weight_count(length, breadth, inputs) {
            Ok(n) => n,
            Err(e) => {
                return Err(e);
            },
        };
        if weights.len() != expected {
            return Err(SomError::DimensionMismatch);
        }
        assert(length * breadth <= length * breadth * inputs) by (nonlinear_arith)
            requires
                inputs >= 1,
        ;
        let ghost listed: Seq<u64> = weights@;
        let map: WeightGrid = crate::grid::tensor_from_shape_vec(length, breadth, inputs, weights)
            .unwrap();
        let activation_map: CountGrid = crate::grid::zeros(length, breadth);
        let som = SOM {
            x: length,
            y: breadth,
            z: inputs,
            learning_rate: match learning_rate {
                Some(value) => value,
                None => DEFAULT_LEARNING_RATE,
            },
            sigma: match sigma {
                Some(value) => value,
                None => DEFAULT_SIGMA,
            },
            regulate_lrate: 0,
            map,
            tag_map: None,
            activation_map,
        };
        assert(som@.counts =~= zero_counts(length as nat, breadth as nat));
        assert(som@.weights =~= tensor_of(length as nat, breadth as nat, inputs as nat, listed));
        Ok(som)
    }

    /// The number of rows and columns of the grid.
    pub fn get_size(&self) -> (r: (usize, usize))
        ensures
            r.0 == self@.x,
            r.1 == self@.y,
    {
        (self.x, self.y)
    }

    /// Checks that an input vector of `len` components fits the map.
    pub fn check_input(&self, len: usize) -> (r: Result<(), SomError>)
        ensures
            len == self@.z ==> r is Ok,
            len != self@.z ==> r == Err::<(), SomError>(SomError::DimensionMismatch),
    {
        if len == self.z {
            Ok(())
        } else {
            Err(SomError::DimensionMismatch)
        }
    }

    /// Finds the best-matching unit for an input vector, given the distance of
    /// every cell's prototype vector to it in row-major order, and counts the
    /// win: the winner's counter grows by one and no other counter changes.
    ///
    /// The winner is the cell with the smallest distance, the first such cell in
    /// row-major order when several are equally close.
    pub fn winner(&mut self, distances: &Vec<u64>) -> (r: Result<(usize, usize), SomError>)
        requires
            old(self).wf(),
            distances.len() == old(self)@.x * old(self)@.y ==> forall|pos: (usize, usize)| #[trigger]
                old(self)@.wins(distances@, pos) ==> old(self)@.counts[pos] < usize::MAX,
        ensures
            final(self).wf(),
            distances.len() != old(self)@.x * old(self)@.y ==> r == Err::<(usize, usize), SomError>(
                SomError::DimensionMismatch,
            ) && *final(self) == *old(self),
            distances.len() == old(self)@.x * old(self)@.y ==> {
                &&& r is Ok
                &&& old(self)@.wins(distances@, r->Ok_0)
                &&& final(self)@ == old(self)@.after_win(r->Ok_0)
            },
    {
        if distances.len() != self.x * self.y {
            return Err(SomError::DimensionMismatch);
        }
        assert(self.x * self.y > 0) by (nonlinear_arith)
            requires
                self.x > 0,
                self.y > 0,
        ;
        let at: usize = best_index(distances);
        proof {
            lemma_cell_of_index(self.x as nat, self.y as nat, at as nat);
        }
        let pos: (usize, usize) = (at / self.y, at % self.y);
        assert(self@.wins(distances@, pos));
        let count: usize = crate::grid::get(&self.activation_map, pos).unwrap();
        crate::grid::put(&mut self.activation_map, pos, count + 1);
        Ok(pos)
    }

    /// Like `winner`, and also returns the winner's distance to the input vector.
    pub fn winner_dist(&mut self, distances: &Vec<u64>) -> (r: Result<
        ((usize, usize), u64),
        SomError,
    >)
        requires
            old(self).wf(),
            distances.len() == old(self)@.x * old(self)@.y ==> forall|pos: (usize, usize)| #[trigger]
                old(self)@.wins(distances@, pos) ==> old(self)@.counts[pos] < usize::MAX,
        ensures
            final(self).wf(),
            distances.len() != old(self)@.x * old(self)@.y ==> r == Err::<
                ((usize, usize), u64),
                SomError,
            >(SomError::DimensionMismatch) && *final(self) == *old(self),
            distances.len() == old(self)@.x * old(self)@.y ==> {
                &&& r is Ok
                &&& old(self)@.wins(distances@, r->Ok_0.0)
                &&& r->Ok_0.1 == distances@[cell_index(
                    old(self)@.y,
                    r->Ok_0.0.0 as nat,
                    r->Ok_0.0.1 as nat,
                ) as int]
                &&& final(self)@ == old(self)@.after_win(r->Ok_0.0)
            },
    {
        match self.winner(distances) {
            Ok(pos) => {
                proof {
                    lemma_cell_index_bound(self.x as nat, self.y as nat, pos.0 as nat, pos.1 as nat);
                }
                Ok((pos, distances[pos.0 * self.y + pos.1]))
            },
            Err(e) => Err(e),
        }
    }

    /// Starts a sequential training run over a data matrix of `rows` rows and
    /// `columns` columns, `epochs` passes long.
    ///
    /// The regulator becomes half the number of iterations, `rows * epochs`.
    /// The returned run hands out the rows in their order, pass after pass.
    pub fn train_batch(&mut self, rows: usize, columns: usize, epochs: u32) -> (r: Result<
        BatchRun,
        SomError,
    >)
        requires
            old(self).wf(),
            rows * epochs <= u32::MAX,
        ensures
            final(self).wf(),
            columns != old(self)@.z ==> r is Err && r->Err_0 == SomError::DimensionMismatch
                && *final(self) == *old(self),
            columns == old(self)@.z ==> {
                &&& r is Ok
                &&& r->Ok_0.wf()
                &&& r->Ok_0.total_steps() == rows * epochs
                &&& r->Ok_0.remaining() == batch_schedule(rows as nat, epochs as nat)
                &&& final(self)@ == old(self)@.with_regulator(
                    regulator_for((rows * epochs) as nat) as u32,
                )
            },
    {
        if columns != self.z {
            return Err(SomError::DimensionMismatch);
        }
        let run: BatchRun = BatchRun::new(rows, epochs);
        self.regulate_lrate = run.total() / 2;
        Ok(run)
    }

    /// Starts a stochastic training run of `iterations` draws from a data
    /// matrix of `rows` rows and `columns` columns.
    ///
    /// The regulator becomes half the number of iterations. The returned run
    /// draws each row from `rng`, with replacement.
    pub fn train_random(
        &mut self,
        rows: usize,
        columns: usize,
        iterations: u32,
        rng: rand::rngs::StdRng,
    ) -> (r: Result<RandomRun, SomError>)
        requires
            old(self).wf(),
            iterations > 0 ==> rows > 0,
        ensures
            final(self).wf(),
            columns != old(self)@.z ==> r is Err && r->Err_0 == SomError::DimensionMismatch
                && *final(self) == *old(self),
            columns == old(self)@.z ==> {
                &&& r is Ok
                &&& r->Ok_0.wf()
                &&& r->Ok_0.rows() == rows
                &&& r->Ok_0.total_steps() == iterations
                &&& r->Ok_0.position() == 0
                &&& final(self)@ == old(self)@.with_regulator(
                    regulator_for(iterations as nat) as u32,
                )
            },
    {
        if columns != self.z {
            return Err(SomError::DimensionMismatch);
        }
        self.regulate_lrate = iterations / 2;
        Ok(RandomRun::new(rows, iterations, rng))
    }

    /// Accepts a snapshot as a map if its shape fields agree with its arrays.
    pub fn from_data(data: SomData) -> (r: Result<SOM, SomError>)
        ensures
            r is Ok <==> data.consistent(),
            r is Err ==> r->Err_0 == SomError::Deserialization,
            r is Ok ==> r->Ok_0.wf() && r->Ok_0@ == data.model(),
    {
        let ghost model: SomView = data.model();
        let SomData { x, y, z, learning_rate, sigma, regulate_lrate, map, tag_map, activation_map } =
            data;
        if x == 0 || y == 0 || z == 0 {
            return Err(SomError::Deserialization);
        }
        let cell_count: usize = match x.checked_mul(y) {
            Some(n) => n,
            None => {
                assert(x * y <= x * y * z) by (nonlinear_arith)
                    requires
                        z >= 1,
                ;
                return Err(SomError::Deserialization);
            },
        };
        assert(x * y <= x * y * z) by (nonlinear_arith)
            requires
                z >= 1,
        ;
        if cell_count > isize::MAX as usize {
            return Err(SomError::Deserialization);
        }
        if map.dim.0 != x || map.dim.1 != y || map.dim.2 != z {
            return Err(SomError::Deserialization);
        }
        if activation_map.dim.0 != x || activation_map.dim.1 != y {
            return Err(SomError::Deserialization);
        }
        let labels: Option<Vec<DataLabel>> = match tag_map {
            Some(tags) => {
                if tags.dim.0 != x || tags.dim.1 != y || tags.data.len() != cell_count {
                    return Err(SomError::Deserialization);
                }
                Some(tags.data)
            },
            None => None,
        };
        if activation_map.data.len() != cell_count {
            return Err(SomError::Deserialization);
        }
        let weights: WeightGrid = match crate::grid::tensor_from_shape_vec(x, y, z, map.data) {
            Some(grid) => grid,
            None => {
                return Err(SomError::Deserialization);
            },
        };
        let counts: CountGrid = crate::grid::from_shape_vec(x, y, activation_map.data).unwrap();
        let som = SOM {
            x,
            y,
            z,
            learning_rate,
            sigma,
            regulate_lrate,
            map: weights,
            tag_map: labels,
            activation_map: counts,
        };
        assert(som@.counts =~= model.counts);
        assert(som@.weights =~= model.weights);
        Ok(som)
    }

    /// Takes a snapshot of the map.
    pub fn to_data(&self) -> (data: SomData)
        requires
            self.wf(),
        ensures
            data.consistent(),
            data.model() == self@,
    {
        let data = SomData {
            x: self.x,
            y: self.y,
            z: self.z,
            learning_rate: self.learning_rate,
            sigma: self.sigma,
            regulate_lrate: self.regulate_lrate,
            map: Volume {
                dim: (self.x, self.y, self.z),
                data: crate::grid::to_list(&self.map, self.x, self.y, self.z),
            },
            tag_map: match &self.tag_map {
                Some(tags) => Some(Plane { dim: (self.x, self.y), data: copy_tags(tags) }),
                None => None,
            },
            activation_map: Plane {
                dim: (self.x, self.y),
                data: crate::grid::to_rows(&self.activation_map, self.x, self.y),
            },
        };
        assert(data.model().counts =~= self@.counts);
        assert(data.model().weights =~= self@.weights);
        data
    }

    /// How often each cell has won, as a plain array of the grid's shape.
    pub fn activation_response(&self) -> (r: Plane<usize>)
        requires
            self.wf(),
        ensures
            r.dim.0 == self@.x,
            r.dim.1 == self@.y,
            r.data.len() == self@.x * self@.y,
            lists_rows(self@.counts, self@.y, r.data@),
    {
        Plane {
            dim: (self.x, self.y),
            data: crate::grid::to_rows(&self.activation_map, self.x, self.y),
        }
    }

    /// Component `pos.2` of the prototype vector of cell `(pos.0, pos.1)`.
    pub fn get_map_cell(&self, pos: (usize, usize, usize)) -> (r: Result<u64, SomError>)
        requires
            self.wf(),
        ensures
            self@.has_weight(pos) ==> r == Ok::<u64, SomError>(self@.weights[pos]),
            !self@.has_weight(pos) ==> r == Err::<u64, SomError>(SomError::IndexOutOfRange),
    {
        match crate::grid::weight_at(&self.map, pos) {
            Some(weight) => Ok(weight),
            None => Err(SomError::IndexOutOfRange),
        }
    }

    /// Replaces one component of one prototype vector and nothing else.
    pub fn set_map_cell(&mut self, pos: (usize, usize, usize), val: u64) -> (r: Result<
        (),
        SomError,
    >)
        requires
            old(self).wf(),
        ensures
            final(self).wf(),
            old(self)@.has_weight(pos) ==> r is Ok && final(self)@ == old(self)@.with_weights(
                old(self)@.weights.insert(pos, val),
            ),
            !old(self)@.has_weight(pos) ==> r == Err::<(), SomError>(SomError::IndexOutOfRange)
                && *final(self) == *old(self),
    {
        if pos.0 >= self.x || pos.1 >= self.y || pos.2 >= self.z {
            return Err(SomError::IndexOutOfRange);
        }
        assert(in_box(pos, self.x as nat, self.y as nat, self.z as nat));
        crate::grid::put_weight(&mut self.map, pos, val);
        Ok(())
    }

    /// Replaces all prototype weights by the outcome of an update pass, listed
    /// in row-major order.
    pub fn update(&mut self, weights: Vec<u64>) -> (r: Result<(), SomError>)
        requires
            old(self).wf(),
        ensures
            final(self).wf(),
            weights.len() == old(self)@.x * old(self)@.y * old(self)@.z ==> r is Ok && final(self)@
                == old(self)@.with_weights(
                tensor_of(old(self)@.x, old(self)@.y, old(self)@.z, weights@),
            ),
            weights.len() != old(self)@.x * old(self)@.y * old(self)@.z ==> r == Err::<
                (),
                SomError,
            >(SomError::DimensionMismatch) && *final(self) == *old(self),
    {
        let ghost listed: Seq<u64> = weights@;
        match crate::grid::tensor_from_shape_vec(self.x, self.y, self.z, weights) {
            Some(grid) => {
                self.map = grid;
                assert(self@.weights =~= tensor_of(
                    self.x as nat,
                    self.y as nat,
                    self.z as nat,
                    listed,
                ));
                Ok(())
            },
            None => Err(SomError::DimensionMismatch),
        }
    }

    /// Attaches a label grid, one tag to a cell in row-major order, or
    /// detaches the one that is attached.
    pub fn set_tag_map(&mut self, tags: Option<Vec<DataLabel>>) -> (r: Result<(), SomError>)
        requires
            old(self).wf(),
        ensures
            final(self).wf(),
            (tags matches Some(list) ==> list.len() == old(self)@.x * old(self)@.y) ==> r is Ok
                && final(self)@ == old(self)@.with_labels(
                match tags {
                    Some(list) => Some(tag_views(list@)),
                    None => None,
                },
            ),
            (tags matches Some(list) && list.len() != old(self)@.x * old(self)@.y) ==> r == Err::<
                (),
                SomError,
            >(SomError::DimensionMismatch) && *final(self) == *old(self),
    {
        match &tags {
            Some(list) => {
                if list.len() != self.x * self.y {
                    return Err(SomError::DimensionMismatch);
                }
            },
            None => {},
        }
        self.tag_map = tags;
        Ok(())
    }

    /// The largest of the summed distances of the cells, given in row-major
    /// order: the value by which a distance map is normalised.
    pub fn distance_peak(&self, sums: &Vec<u64>) -> (r: Result<u64, SomError>)
        requires
            self.wf(),
        ensures
            sums.len() == self@.x * self@.y ==> r is Ok && is_peak(sums@, r->Ok_0),
            sums.len() != self@.x * self@.y ==> r == Err::<u64, SomError>(
                SomError::DimensionMismatch,
            ),
    {
        if sums.len() != self.x * self.y {
            return Err(SomError::DimensionMismatch);
        }
        Ok(peak(sums))
    }

    /// The binary64 patterns of the prototype vectors, listed in row-major order.
    pub fn weights(&self) -> (r: Vec<u64>)
        requires
            self.wf(),
        ensures
            r.len() == self@.x * self@.y * self@.z,
            self@.weights == tensor_of(self@.x, self@.y, self@.z, r@),
    {
        let list: Vec<u64> = crate::grid::to_list(&self.map, self.x, self.y, self.z);
        assert(self@.weights =~= tensor_of(self.x as nat, self.y as nat, self.z as nat, list@));
        list
    }

    /// The tags of the cells, row-major, if a label grid is attached.
    pub fn tag_map(&self) -> (r: &Option<Vec<DataLabel>>)
        ensures
            self@.labels == match *r {
                Some(tags) => Some(tag_views(tags@)),
                None => None,
            },
    {
        &self.tag_map
    }

    /// The binary32 pattern of the initial learning rate.
    pub fn learning_rate(&self) -> (r: u32)
        ensures
            r == self@.learning_rate,
    {
        self.learning_rate
    }

    /// The binary32 pattern of the initial neighbourhood spread.
    pub fn sigma(&self) -> (r: u32)
        ensures
            r == self@.sigma,
    {
        self.sigma
    }

    /// The number of iterations after which the decay divisor grows by one.
    pub fn regulator(&self) -> (r: u32)
        ensures
            r == self@.regulator,
    {
        self.regulate_lrate
    }

    /// The length of the prototype vectors, which every input vector must share.
    pub fn input_len(&self) -> (r: usize)
        ensures
            r == self@.z,
    {
        self.z
    }
}

} // verus!
