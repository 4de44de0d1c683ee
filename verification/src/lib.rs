//! Simultaneous perturbation stochastic approximation: a gradient-free
//! optimizer for noisy objectives, with its decisions verified.
//!
//! The crate holds everything of the optimizer that is not arithmetic on
//! reals: the control of a run ([`algo`]), the classification and ordering
//! of reals given as bit patterns ([`ieee`]), the traversal of buffers in
//! vectors of four lanes ([`vec`]), and the random signs of a perturbation
//! ([`utils`]). Reals cross the crate's boundary as IEEE-754 binary64 bit
//! patterns, or as values of a type that the crate does not look into.

use vstd::prelude::*;

pub mod algo;
pub mod ieee;
pub mod target;
pub mod utils;
pub mod vec;

pub use crate::algo::{Action, Controller, Event, Outcome, State};
pub use crate::target::Oversample;
pub use crate::vec::{vectorize, vectorize_mut, MutProxy, Operator, Vectorized, VectorizedMut};

verus! {

/// Registers of the scratch pool.
pub const REGISTER_NUM: usize = 8;

/// The options of a run. Reals are IEEE-754 binary64 bit patterns.
#[derive(Clone, Copy, PartialEq, Eq, Structural, Debug)]
pub struct Options {
    /// Normalize steps by the running second moment of the gradient.
    pub adam: bool,
    /// Iterations of the main loop.
    pub iterations: usize,
    /// The starting learning rate; `None` has the run search for one.
    pub lr: Option<u64>,
    /// Decay of the learning rate.
    pub lr_decay: u64,
    /// Power of the learning rate's decay.
    pub lr_power: u64,
    /// Scale of the perturbation.
    pub px: u64,
    /// Decay of the perturbation.
    pub px_decay: u64,
    /// Power of the perturbation's decay.
    pub px_power: u64,
    /// How much of the fast gradient average is kept per iteration.
    pub momentum: u64,
    /// How much of the slow gradient average is kept per iteration.
    pub beta: u64,
    /// What keeps the normalization and the learning rate away from zero.
    pub epsilon: u64,
}

impl Options {
    /// The options that `default` gives: adaptive normalization, ten
    /// thousand iterations, a searched learning rate, and the reals 1e-3,
    /// 0.5, 2.0, 1e-2, 0.161, 0.9, 0.999 and 1e-7.
    pub open spec fn standard() -> Options {
        Options {
            adam: true,
            iterations: 10_000,
            lr: None,
            lr_decay: 0x3f50_624d_d2f1_a9fc,
            lr_power: 0x3fe0_0000_0000_0000,
            px: 0x4000_0000_0000_0000,
            px_decay: 0x3f84_7ae1_47ae_147b,
            px_power: 0x3fc4_9ba5_e353_f7cf,
            momentum: 0x3fec_cccc_cccc_cccd,
            beta: 0x3fef_f7ce_d916_872b,
            epsilon: 0x3e7a_d7f2_9abc_af48,
        }
    }

    /// The controller of a run with these options over `dimension`
    /// coordinates.
    pub fn controller(&self, dimension: usize) -> (c: Controller)
        ensures
            algo::nearest_root(dimension + 100, c@.rounds as int),
            c@ == State::initial(c@.rounds, self.iterations, self.lr is Some),
            c@.wf(),
    {
        Controller::new(dimension, self.iterations, self.lr.is_some())
    }
}

impl Default for Options {
    fn default() -> (o: Options)
        ensures
            o == Options::standard(),
    {
        Options {
            adam: true,
            iterations: 10_000,
            lr: None,
            lr_decay: 0x3f50_624d_d2f1_a9fc,
            lr_power: 0x3fe0_0000_0000_0000,
            px: 0x4000_0000_0000_0000,
            px_decay: 0x3f84_7ae1_47ae_147b,
            px_power: 0x3fc4_9ba5_e353_f7cf,
            momentum: 0x3fec_cccc_cccc_cccd,
            beta: 0x3fef_f7ce_d916_872b,
            epsilon: 0x3e7a_d7f2_9abc_af48,
        }
    }
}

/// A register of `size` elements, each of them `zero`.
pub open spec fn blank<S>(size: int, zero: S) -> Seq<S> {
    Seq::new(size as nat, |i: int| zero)
}

/// The scratch pool of the optimizer: eight registers, one for each role,
/// sized to the problem once per run and reused by every iteration.
pub struct Optimizer<S> {
    /// The fast average of the gradient samples.
    pub gradient: Vec<S>,
    /// The slow average of the gradient samples.
    pub slow_gradient: Vec<S>,
    /// The average of the squared slow gradient.
    pub variance: Vec<S>,
    /// The direction of the next step.
    pub direction: Vec<S>,
    /// The perturbation of a probe, and then the gradient sample it gave.
    pub perturbation: Vec<S>,
    /// The weighted average of the trajectory.
    pub average: Vec<S>,
    /// The best averaged point on record.
    pub best: Vec<S>,
    /// Candidate points on their way to the objective, and the point before
    /// a step.
    pub scratch: Vec<S>,
}

/// Empties a register and fills it with `size` copies of `zero`.
fn reset<S: Copy>(register: &mut Vec<S>, size: usize, zero: S)
    ensures
        final(register)@ == blank(size as int, zero),
{
    register.clear();
    while register.len() < size
        invariant
            register@.len() <= size,
            forall|i: int| 0 <= i < register@.len() ==> register@[i] == zero,
        decreases size - register@.len(),
    {
        register.push(zero);
    }
    assert(register@ =~= blank(size as int, zero));
}

impl<S: Copy> Optimizer<S> {
    /// Every register has `size` elements.
    pub open spec fn sized(self, size: int) -> bool {
        &&& self.gradient@.len() == size
        &&& self.slow_gradient@.len() == size
        &&& self.variance@.len() == size
        &&& self.direction@.len() == size
        &&& self.perturbation@.len() == size
        &&& self.average@.len() == size
        &&& self.best@.len() == size
        &&& self.scratch@.len() == size
    }

    /// A pool of empty registers.
    pub fn new() -> (pool: Self)
        ensures
            pool.sized(0),
    {
        Optimizer {
            gradient: Vec::new(),
            slow_gradient: Vec::new(),
            variance: Vec::new(),
            direction: Vec::new(),
            perturbation: Vec::new(),
            average: Vec::new(),
            best: Vec::new(),
            scratch: Vec::new(),
        }
    }

    /// Sizes every register to `size` elements, each of them `zero`,
    /// whatever an earlier run left there.
    pub fn prepare(&mut self, size: usize, zero: S)
        ensures
            final(self).sized(size as int),
            final(self).gradient@ == blank(size as int, zero),
            final(self).slow_gradient@ == blank(size as int, zero),
            final(self).variance@ == blank(size as int, zero),
            final(self).direction@ == blank(size as int, zero),
            final(self).perturbation@ == blank(size as int, zero),
            final(self).average@ == blank(size as int, zero),
            final(self).best@ == blank(size as int, zero),
            final(self).scratch@ == blank(size as int, zero),
    {
        reset(&mut self.gradient, size, zero);
        reset(&mut self.slow_gradient, size, zero);
        reset(&mut self.variance, size, zero);
        reset(&mut self.direction, size, zero);
        reset(&mut self.perturbation, size, zero);
        reset(&mut self.average, size, zero);
        reset(&mut self.best, size, zero);
        reset(&mut self.scratch, size, zero);
    }
}

} // verus!
