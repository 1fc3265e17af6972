//! Training schedules: which row of the data is presented at which iteration,
//! and by how much the learning rate and the spread have decayed by then.

use vstd::prelude::*;

verus! {

/// One step of a training run: the row of the data matrix to present, and the
/// index of the iteration at which it is presented.
#[derive(Debug, Clone, Copy, PartialEq, Eq, Structural)]
pub struct Sample {
    pub iteration: u32,
    pub row: usize,
}

/// The regulator of a run of `total` iterations: half of them, rounded down.
pub open spec fn regulator_for(total: nat) -> nat {
    total / 2
}

/// The number by which the learning rate and the spread are divided at an
/// iteration: one more than the number of whole regulator periods that have
/// passed. A regulator of zero means no decay at all.
pub open spec fn divisor_at(iteration: u32, regulator: u32) -> nat {
    if regulator == 0 {
        1
    } else {
        (1 + iteration / regulator) as nat
    }
}

/// Computes the decay divisor of an iteration.
pub fn decay_divisor(iteration: u32, regulator: u32) -> (d: u64)
    ensures
        d == divisor_at(iteration, regulator),
        1 <= d <= 0x1_0000_0000,
{
    if regulator == 0 {
        1
    } else {
        let periods: u32 = iteration / regulator;
        periods as u64 + 1
    }
}

/// At the first iteration nothing has decayed: the divisor is one, whatever
/// the regulator.
pub proof fn lemma_no_decay_at_start(regulator: u32)
    ensures
        divisor_at(0, regulator) == 1,
{
}

/// The divisor never shrinks as the iterations go on.
pub proof fn lemma_divisor_monotonic(earlier: u32, later: u32, regulator: u32)
    requires
        earlier <= later,
    ensures
        divisor_at(earlier, regulator) <= divisor_at(later, regulator),
{
    if regulator != 0 {
        assert(earlier / regulator <= later / regulator) by (nonlinear_arith)
            requires
                earlier <= later,
                regulator > 0,
        ;
    }
}

/// The step of a sequential run at position `k`: the rows are visited in
/// their order, again and again.
pub open spec fn batch_sample(rows: nat, k: nat) -> Sample {
    Sample { iteration: k as u32, row: (k % rows) as usize }
}

/// The steps of a sequential run from position `from` up to `total`.
pub open spec fn batch_steps(rows: nat, from: nat, total: nat) -> Seq<Sample> {
    Seq::new((total - from) as nat, |k: int| batch_sample(rows, (from + k) as nat))
}

/// The whole schedule of a sequential run over `rows` rows and `epochs` epochs.
pub open spec fn batch_schedule(rows: nat, epochs: nat) -> Seq<Sample> {
    batch_steps(rows, 0, rows * epochs)
}

/// A sequential run has exactly `rows * epochs` steps, and the step at
/// position `k` carries the iteration index `k`.
pub proof fn lemma_batch_schedule_length(rows: nat, epochs: nat)
    requires
        rows * epochs <= u32::MAX,
    ensures
        batch_schedule(rows, epochs).len() == rows * epochs,
        forall|k: int|
            0 <= k < rows * epochs ==> (#[trigger] batch_schedule(rows, epochs)[k]).iteration == k,
{
}

/// In every epoch of a sequential run each row is visited once, in the order
/// of the rows: step `row` of epoch `epoch` presents row `row`.
pub proof fn lemma_batch_schedule_cyclic(rows: nat, epochs: nat, epoch: nat, row: nat)
    requires
        rows <= usize::MAX,
        epoch < epochs,
        row < rows,
    ensures
        epoch * rows + row < rows * epochs,
        batch_schedule(rows, epochs)[(epoch * rows + row) as int].row == row,
{
    assert(epoch * rows + rows <= rows * epochs) by (nonlinear_arith)
        requires
            epoch + 1 <= epochs,
    ;
    vstd::arithmetic::div_mod::lemma_fundamental_div_mod_converse(
        (epoch * rows + row) as int,
        rows as int,
        epoch as int,
        row as int,
    );
}

/// A sequential training run that has been planned and not yet finished.
pub struct BatchRun {
    rows: usize,
    total: u32,
    next: u32,
}

impl BatchRun {
    /// The invariant of a run: it is not past its end, and while steps remain
    /// there are rows to visit.
    pub closed spec fn wf(&self) -> bool {
        self.next <= self.total && (self.next < self.total ==> self.rows > 0)
    }

    /// The steps that are still to come, in order.
    pub closed spec fn remaining(&self) -> Seq<Sample> {
        batch_steps(self.rows as nat, self.next as nat, self.total as nat)
    }

    /// Plans a run over `rows` rows and `epochs` epochs.
    pub(crate) fn new(rows: usize, epochs: u32) -> (run: BatchRun)
        requires
            rows * epochs <= u32::MAX,
        ensures
            run.wf(),
            run.remaining() == batch_schedule(rows as nat, epochs as nat),
            run.total_steps() == rows * epochs,
    {
        if epochs == 0 || rows == 0 {
            assert(rows * epochs == 0) by (nonlinear_arith)
                requires
                    epochs == 0 || rows == 0,
            ;
            return BatchRun { rows, total: 0, next: 0 };
        }
        assert(rows <= rows * epochs) by (nonlinear_arith)
            requires
                epochs >= 1,
        ;
        let total: u32 = (rows as u32) * epochs;
        BatchRun { rows, total, next: 0 }
    }

    /// The number of steps of the whole run.
    pub closed spec fn total_steps(&self) -> nat {
        self.total as nat
    }

    /// The number of steps of the whole run.
    pub fn total(&self) -> (r: u32)
        ensures
            r == self.total_steps(),
    {
        self.total
    }

    /// Hands out the next step of the run, or `None` when the run is over.
    pub fn next_sample(&mut self) -> (r: Option<Sample>)
        requires
            old(self).wf(),
        ensures
            final(self).wf(),
            final(self).total_steps() == old(self).total_steps(),
            old(self).remaining().len() == 0 ==> r is None && *final(self) == *old(self),
            old(self).remaining().len() > 0 ==> r == Some(old(self).remaining()[0])
                && final(self).remaining() == old(self).remaining().skip(1),
    {
        if self.next >= self.total {
            return None;
        }
        let sample = Sample { iteration: self.next, row: (self.next as usize) % self.rows };
        self.next = self.next + 1;
        assert(self.remaining() =~= old(self).remaining().skip(1));
        Some(sample)
    }

    /// Runs the schedule to its end and lists the steps that were still to
    /// come, in order.
    pub fn into_samples(self) -> (samples: Vec<Sample>)
        requires
            self.wf(),
        ensures
            samples@ == self.remaining(),
    {
        let mut run: BatchRun = self;
        let mut samples: Vec<Sample> = Vec::new();
        loop
            invariant
                run.wf(),
                samples@ + run.remaining() == self.remaining(),
            ensures
                samples@ == self.remaining(),
            decreases run.remaining().len(),
        {
            let ghost before: Seq<Sample> = run.remaining();
            match run.next_sample() {
                Some(sample) => {
                    samples.push(sample);
                    assert(samples@ + run.remaining() =~= self.remaining()) by {
                        assert(before =~= seq![before[0]] + before.skip(1));
                    }
                },
                None => {
                    assert(samples@ + run.remaining() =~= samples@);
                    break ;
                },
            }
        }
        samples
    }
}

/// The seedable generator of `rand` from which a stochastic run draws its rows.
#[verifier::external_type_specification]
#[verifier::external_body]
pub struct ExStdRng(rand::rngs::StdRng);

/// `rand::Rng::gen_range` from zero up to, but not including, `bound`: some
/// index below `bound`, whichever the generator yields. The call panics on an
/// empty range, which the precondition rules out.
#[verifier::external_body]
fn draw_below(rng: &mut rand::rngs::StdRng, bound: usize) -> (r: usize)
    requires
        bound > 0,
    ensures
        r < bound,
{
    rand::Rng::gen_range(rng, 0, bound)
}

/// A stochastic training run that has been planned and not yet finished.
pub struct RandomRun {
    rows: usize,
    total: u32,
    next: u32,
    rng: rand::rngs::StdRng,
}

impl RandomRun {
    /// The invariant of a run: it is not past its end, and while steps remain
    /// there are rows to draw from.
    pub closed spec fn wf(&self) -> bool {
        self.next <= self.total && (self.next < self.total ==> self.rows > 0)
    }

    /// The number of rows from which the run draws.
    pub closed spec fn rows(&self) -> nat {
        self.rows as nat
    }

    /// The number of steps of the whole run.
    pub closed spec fn total_steps(&self) -> nat {
        self.total as nat
    }

    /// The number of steps that have been handed out.
    pub closed spec fn position(&self) -> nat {
        self.next as nat
    }

    /// Plans a run of `iterations` draws from `rows` rows.
    pub(crate) fn new(rows: usize, iterations: u32, rng: rand::rngs::StdRng) -> (run: RandomRun)
        requires
            iterations > 0 ==> rows > 0,
        ensures
            run.wf(),
            run.rows() == rows,
            run.total_steps() == iterations,
            run.position() == 0,
    {
        RandomRun { rows, total: iterations, next: 0, rng }
    }

    /// The number of steps of the whole run.
    pub fn total(&self) -> (r: u32)
        ensures
            r == self.total_steps(),
    {
        self.total
    }

    /// Draws the row of the next step, or returns `None` when the run is over.
    ///
    /// Each step draws afresh from all rows, so a row may come up again.
    pub fn next_sample(&mut self) -> (r: Option<Sample>)
        requires
            old(self).wf(),
        ensures
            final(self).wf(),
            final(self).rows() == old(self).rows(),
            final(self).total_steps() == old(self).total_steps(),
            old(self).position() == old(self).total_steps() ==> r is None && final(self).position()
                == old(self).position(),
            old(self).position() < old(self).total_steps() ==> {
                &&& r is Some
                &&& r->0.iteration == old(self).position()
                &&& r->0.row < old(self).rows()
                &&& final(self).position() == old(self).position() + 1
            },
    {
        if self.next >= self.total {
            return None;
        }
        let row: usize = draw_below(&mut self.rng, self.rows);
        let sample = Sample { iteration: self.next, row };
        self.next = self.next + 1;
        Some(sample)
    }

    /// Runs the schedule to its end and lists the steps that were still to
    /// come: one for every iteration that was left, numbered in order, each
    /// with a row of the data.
    pub fn into_samples(self) -> (samples: Vec<Sample>)
        requires
            self.wf(),
        ensures
            samples.len() == self.total_steps() - self.position(),
            forall|k: int|
                0 <= k < samples.len() ==> {
                    &&& (#[trigger] samples[k]).iteration == self.position() + k
                    &&& samples[k].row < self.rows()
                },
    {
        let mut run: RandomRun = self;
        let mut samples: Vec<Sample> = Vec::new();
        loop
            invariant
                run.wf(),
                run.rows() == self.rows(),
                run.total_steps() == self.total_steps(),
                self.position() <= run.position() <= run.total_steps(),
                samples.len() == run.position() - self.position(),
                forall|k: int|
                    0 <= k < samples.len() ==> {
                        &&& (#[trigger] samples[k]).iteration == self.position() + k
                        &&& samples[k].row < self.rows()
                    },
            ensures
                samples.len() == self.total_steps() - self.position(),
                forall|k: int|
                    0 <= k < samples.len() ==> {
                        &&& (#[trigger] samples[k]).iteration == self.position() + k
                        &&& samples[k].row < self.rows()
                    },
            decreases run.total_steps() - run.position(),
        {
            match run.next_sample() {
                Some(sample) => {
                    samples.push(sample);
                },
                None => {
                    break ;
                },
            }
        }
        samples
    }
}

} // verus!
