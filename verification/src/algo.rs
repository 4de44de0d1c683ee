//! The optimizer's control, apart from its arithmetic.
//!
//! A run alternates numeric work (evaluating the objective, folding samples
//! into running averages, moving the point) with decisions (is a value
//! defined, which of three trial steps won, has progress stalled). The
//! decisions live here as a transition system: the [`Controller`] names the
//! numeric work to do next as an [`Action`], the caller does it and reports
//! what it measured as an [`Event`], and the controller decides.
//!
//! Measurements are IEEE-754 binary64 bit patterns (see [`crate::ieee`]).

use vstd::prelude::*;
use crate::ieee::{above, at_least, finite, larger, nan};
use crate::ieee::{ge, gt, is_finite, is_nan, max, ZERO};

verus! {

/// Trial steps that the search for a starting learning rate may take.
pub const PROBES: u64 = 5;

/// Iterations without improvement tolerated per unit of the stall threshold.
pub const PATIENCE: u64 = 128;

/// What a step out of the feasible region adds to the count of failures.
pub const SETBACK: u64 = 10;

/// The most warm-up rounds any dimension asks for.
pub const MAX_ROUNDS: u64 = 0x1_0000_0000;

/// `r` is the whole number nearest to the square root of `m`.
pub open spec fn nearest_root(m: int, r: int) -> bool {
    &&& r >= 1
    &&& (2 * r - 1) * (2 * r - 1) < 4 * m
    &&& 4 * m < (2 * r + 1) * (2 * r + 1)
}

/// The failures that `k` recoveries have consumed: recovery number `j`
/// (counted from zero) waits for `PATIENCE * (j + r)` of them.
pub open spec fn spent(k: int, r: int) -> int {
    128 * k * r + 64 * k * (k - 1)
}

/// How a run ended.
#[derive(Clone, Copy, PartialEq, Eq, Structural, Debug)]
pub enum Outcome {
    /// The objective is undefined at the start point.
    Infeasible,
    /// The point reached last is the result.
    Live,
    /// The best averaged point on record is the result.
    Best,
    /// A step left the feasible region and undoing it did not bring the
    /// point back.
    Stuck,
}

/// The numeric work that the controller asks for next.
#[derive(Clone, Copy, PartialEq, Eq, Structural, Debug)]
pub enum Action {
    /// Evaluate the objective twice at the start point; fold the first value
    /// into the running mean and the squared difference into the noise
    /// estimate. Answered by [`Event::Mean`].
    Seed { round: u64 },
    /// Draw a random-sign perturbation scaled by `1 / (1 + round)`, evaluate
    /// on both sides of the start point and fold the gradient sample into the
    /// three gradient averages. Answered by [`Event::Done`].
    Estimate { round: u64 },
    /// Search for a starting learning rate: on attempt zero set the rate and
    /// the direction up, on a later attempt multiply the rate by its growth
    /// factor; then evaluate twice at the trial point and twice at the start
    /// point. Answered by [`Event::Rate`].
    Search { attempt: u64 },
    /// Multiply the rate by its growth factor if `grow`; set up the
    /// trajectory average, the best point and the direction; evaluate twice
    /// at the point. Answered by [`Event::Started`].
    Start { grow: bool },
    /// Build the candidate point and a perturbation, evaluate on both sides
    /// and form the gradient sample; measure its agreement with the fast
    /// gradient average against the threshold that `momentum_fails` sets.
    /// Answered by [`Event::Probed`].
    Probe { iteration: usize, momentum_fails: u64 },
    /// If `lowered` holds a count, lower the momentum coefficient to what that
    /// count of disagreements sets; fold the gradient sample, recompute the
    /// direction and evaluate the half step and the long step. Answered by
    /// [`Event::Trial`].
    Update { iteration: usize, lowered: Option<u64> },
    /// Divide the rate if `shrink`, nudge it down if `settle`, multiply it if
    /// `grow` (each on its own), keep it above its floor, move the point and
    /// evaluate twice there. Answered by [`Event::Moved`].
    Step { iteration: usize, shrink: bool, settle: bool, grow: bool },
    /// Put the point back where it was before the step and evaluate twice
    /// there. Answered by [`Event::Moved`].
    Retreat { iteration: usize },
    /// Fold the point into the trajectory average and report the
    /// bias-corrected running mean. Answered by [`Event::Score`].
    Average { iteration: usize },
    /// If `improved`, record the averaged point as the best one; report the
    /// iteration to the caller's hook; if `recovery` holds a count, restart
    /// from the best point with the rate divided by 64 times that count.
    /// Answered by [`Event::Done`].
    Conclude { iteration: usize, improved: bool, recovery: Option<u64> },
    /// Evaluate twice at the point and report the best score raised by the
    /// noise margin. Answered by [`Event::Final`].
    Finish,
    /// The run is over.
    Stop(Outcome),
}

impl Action {
    /// How often the action evaluates the objective.
    pub open spec fn cost(self) -> int {
        match self {
            Action::Search { .. } => 4,
            Action::Average { .. } | Action::Conclude { .. } | Action::Stop(_) => 0,
            _ => 2,
        }
    }

    /// How often the action evaluates the objective: twice wherever it
    /// evaluates at all, but for the search, which evaluates twice at each of
    /// two points.
    pub fn evaluations(&self) -> (n: u8)
        ensures
            n == self.cost(),
    {
        match self {
            Action::Search { .. } => 4,
            Action::Average { .. } | Action::Conclude { .. } | Action::Stop(_) => 0,
            _ => 2,
        }
    }
}

/// What the numeric side measured while carrying out an action.
#[derive(Clone, Copy, PartialEq, Eq, Structural, Debug)]
pub enum Event {
    /// The running mean of the objective at the start point.
    Mean(u64),
    /// The action is carried out; there is nothing to measure.
    Done,
    /// Two evaluations at the trial point and two at the start point.
    Rate { trial: u64, trial_again: u64, base: u64, base_again: u64 },
    /// The bias-corrected running mean at the start of the main loop.
    Started { score: u64 },
    /// The scaled symmetric difference, the cosine between the gradient
    /// sample and the fast gradient average, and the agreement threshold.
    Probed { slope: u64, cosine: u64, threshold: u64 },
    /// The objective with no step, with the half step and with the long
    /// step, and each of the three raised by the noise margin.
    Trial { stay: u64, half: u64, full: u64, stay_raised: u64, half_raised: u64, full_raised: u64 },
    /// Two evaluations at the point after a move.
    Moved { first: u64, second: u64 },
    /// The bias-corrected running mean of the objective.
    Score(u64),
    /// The best score raised by the noise margin, and two evaluations at the
    /// point reached last.
    Final { bound: u64, first: u64, second: u64 },
}

/// The state of a run between two actions.
#[derive(Clone, Copy, PartialEq, Eq, Structural, Debug)]
pub struct State {
    /// Rounds of each warm-up phase.
    pub rounds: u64,
    /// Iterations of the main loop.
    pub iterations: usize,
    /// The caller fixed the starting learning rate.
    pub fixed_rate: bool,
    /// Probes whose gradient sample disagreed with the running gradient.
    pub momentum_fails: u64,
    /// Failures since the best score last improved.
    pub consecutive_fails: u64,
    /// Recoveries so far.
    pub improvement_fails: u64,
    /// The best score on record.
    pub best: u64,
    /// The action that awaits its event.
    pub pending: Action,
}

impl State {
    /// The state in which a run begins.
    pub open spec fn initial(rounds: u64, iterations: usize, fixed_rate: bool) -> State {
        State {
            rounds,
            iterations,
            fixed_rate,
            momentum_fails: 0,
            consecutive_fails: 0,
            improvement_fails: 0,
            best: ZERO,
            pending: Action::Seed { round: 0 },
        }
    }

    /// The count of failures at which progress counts as stalled.
    pub open spec fn threshold(self) -> int {
        PATIENCE * (self.improvement_fails + self.rounds)
    }

    /// No iteration has left a trace yet.
    pub open spec fn idle(self) -> bool {
        self.momentum_fails == 0 && self.consecutive_fails == 0 && self.improvement_fails == 0
    }

    /// The main loop has begun, so that `best` holds a score.
    pub open spec fn started(self) -> bool {
        match self.pending {
            Action::Seed { .. } | Action::Estimate { .. } | Action::Search { .. } | Action::Start {
                ..
            } => false,
            Action::Stop(outcome) => outcome != Outcome::Infeasible,
            _ => true,
        }
    }

    /// The event answers the pending action.
    pub open spec fn accepts(self, event: Event) -> bool {
        match (self.pending, event) {
            (Action::Seed { .. }, Event::Mean(_)) => true,
            (Action::Estimate { .. }, Event::Done) => true,
            (Action::Search { .. }, Event::Rate { .. }) => true,
            (Action::Start { .. }, Event::Started { .. }) => true,
            (Action::Probe { .. }, Event::Probed { .. }) => true,
            (Action::Update { .. }, Event::Trial { .. }) => true,
            (Action::Step { .. }, Event::Moved { .. }) => true,
            (Action::Retreat { .. }, Event::Moved { .. }) => true,
            (Action::Average { .. }, Event::Score(_)) => true,
            (Action::Conclude { .. }, Event::Done) => true,
            (Action::Finish, Event::Final { .. }) => true,
            _ => false,
        }
    }

    /// The counters are in step with the pending action, and the failures
    /// counted so far are paid for by iterations: each iteration adds at most
    /// eleven, and each recovery consumes a full threshold of them.
    pub open spec fn wf(self) -> bool {
        &&& 10 <= self.rounds <= MAX_ROUNDS
        &&& self.momentum_fails <= self.iterations
        &&& self.consecutive_fails + spent(self.improvement_fails as int, self.rounds as int) <= 11
            * self.iterations
        &&& match self.pending {
            Action::Seed { round } => round < self.rounds && self.idle(),
            Action::Estimate { round } => round < self.rounds && self.idle(),
            Action::Search { attempt } => attempt < PROBES && !self.fixed_rate && self.idle(),
            Action::Start { grow } => self.idle() && (grow ==> !self.fixed_rate),
            Action::Probe { iteration, momentum_fails } => {
                &&& iteration < self.iterations
                &&& momentum_fails == self.momentum_fails
                &&& self.momentum_fails <= iteration
                &&& self.consecutive_fails < self.threshold()
                &&& self.consecutive_fails + spent(
                    self.improvement_fails as int,
                    self.rounds as int,
                ) <= 11 * iteration
            },
            Action::Update { iteration, lowered } => {
                &&& iteration < self.iterations
                &&& self.momentum_fails <= iteration + 1
                &&& self.consecutive_fails < self.threshold()
                &&& self.consecutive_fails + spent(
                    self.improvement_fails as int,
                    self.rounds as int,
                ) <= 11 * iteration
                &&& (lowered matches Some(count) ==> count == self.momentum_fails && count >= 1)
            },
            Action::Step { iteration, .. } => {
                &&& iteration < self.iterations
                &&& self.momentum_fails <= iteration + 1
                &&& self.consecutive_fails < self.threshold()
                &&& self.consecutive_fails + spent(
                    self.improvement_fails as int,
                    self.rounds as int,
                ) <= 11 * iteration
            },
            Action::Retreat { iteration } | Action::Average { iteration } => {
                &&& iteration < self.iterations
                &&& self.momentum_fails <= iteration + 1
                &&& self.consecutive_fails < self.threshold() + SETBACK
                &&& self.consecutive_fails + spent(
                    self.improvement_fails as int,
                    self.rounds as int,
                ) <= 11 * iteration + SETBACK
            },
            Action::Conclude { iteration, improved, recovery } => {
                &&& iteration < self.iterations
                &&& self.momentum_fails <= iteration + 1
                &&& self.consecutive_fails < self.threshold()
                &&& self.consecutive_fails + spent(
                    self.improvement_fails as int,
                    self.rounds as int,
                ) <= 11 * (iteration + 1)
                &&& (improved ==> self.consecutive_fails == 0)
                &&& (recovery matches Some(count) ==> count == self.improvement_fails && count >= 1
                    && self.consecutive_fails == 0)
            },
            Action::Finish | Action::Stop(_) => true,
        }
    }

    /// The state after `event`. An event that does not answer the pending
    /// action changes nothing, and a run that has stopped stays stopped.
    pub open spec fn next(self, event: Event) -> State {
        match (self.pending, event) {
            (Action::Seed { round }, Event::Mean(mean)) => {
                if round + 1 < self.rounds {
                    State { pending: Action::Seed { round: (round + 1) as u64 }, ..self }
                } else if nan(mean) {
                    State { pending: Action::Stop(Outcome::Infeasible), ..self }
                } else {
                    State { pending: Action::Estimate { round: 0 }, ..self }
                }
            },
            (Action::Estimate { round }, Event::Done) => {
                if round + 1 < self.rounds {
                    State { pending: Action::Estimate { round: (round + 1) as u64 }, ..self }
                } else if self.fixed_rate {
                    State { pending: Action::Start { grow: false }, ..self }
                } else {
                    State { pending: Action::Search { attempt: 0 }, ..self }
                }
            },
            (Action::Search { attempt }, Event::Rate { trial, trial_again, base, base_again }) => {
                let grow = at_least(larger(trial, trial_again), larger(base, base_again));
                if grow && attempt + 1 < PROBES {
                    State { pending: Action::Search { attempt: (attempt + 1) as u64 }, ..self }
                } else {
                    State { pending: Action::Start { grow }, ..self }
                }
            },
            (Action::Start { .. }, Event::Started { score }) => {
                if self.iterations > 0 {
                    State {
                        best: score,
                        pending: Action::Probe { iteration: 0, momentum_fails: self.momentum_fails },
                        ..self
                    }
                } else {
                    State { best: score, pending: Action::Finish, ..self }
                }
            },
            (Action::Probe { iteration, .. }, Event::Probed { slope, cosine, threshold }) => {
                if !finite(slope) {
                    State { pending: Action::Finish, ..self }
                } else if above(threshold, cosine) {
                    let count = (self.momentum_fails + 1) as u64;
                    State {
                        momentum_fails: count,
                        pending: Action::Update { iteration, lowered: Some(count) },
                        ..self
                    }
                } else {
                    State { pending: Action::Update { iteration, lowered: None }, ..self }
                }
            },
            (
                Action::Update { iteration, .. },
                Event::Trial { stay, half, full, stay_raised, half_raised, full_raised },
            ) => {
                State {
                    pending: Action::Step {
                        iteration,
                        shrink: above(stay_raised, larger(half, full)),
                        settle: above(half_raised, larger(stay, full)),
                        grow: above(full_raised, larger(stay, half)),
                    },
                    ..self
                }
            },
            (Action::Step { iteration, .. }, Event::Moved { first, second }) => {
                if finite(first) && finite(second) {
                    State { pending: Action::Average { iteration }, ..self }
                } else {
                    State {
                        consecutive_fails: (self.consecutive_fails + SETBACK) as u64,
                        pending: Action::Retreat { iteration },
                        ..self
                    }
                }
            },
            (Action::Retreat { iteration }, Event::Moved { first, second }) => {
                if finite(first) && finite(second) {
                    State { pending: Action::Average { iteration }, ..self }
                } else {
                    State { pending: Action::Stop(Outcome::Stuck), ..self }
                }
            },
            (Action::Average { iteration }, Event::Score(score)) => {
                let improved = above(score, self.best);
                let best = if improved { score } else { self.best };
                let fails = if improved { 0 } else { self.consecutive_fails + 1 };
                if fails >= self.threshold() {
                    let count = (self.improvement_fails + 1) as u64;
                    State {
                        best,
                        consecutive_fails: 0,
                        improvement_fails: count,
                        pending: Action::Conclude { iteration, improved, recovery: Some(count) },
                        ..self
                    }
                } else {
                    State {
                        best,
                        consecutive_fails: fails as u64,
                        pending: Action::Conclude { iteration, improved, recovery: None },
                        ..self
                    }
                }
            },
            (Action::Conclude { iteration, .. }, Event::Done) => {
                if iteration + 1 < self.iterations {
                    State {
                        pending: Action::Probe {
                            iteration: (iteration + 1) as usize,
                            momentum_fails: self.momentum_fails,
                        },
                        ..self
                    }
                } else {
                    State { pending: Action::Finish, ..self }
                }
            },
            (Action::Finish, Event::Final { bound, first, second }) => {
                if above(bound, larger(first, second)) {
                    State { pending: Action::Stop(Outcome::Best), ..self }
                } else {
                    State { pending: Action::Stop(Outcome::Live), ..self }
                }
            },
            _ => self,
        }
    }

    /// An upper bound on the events that the run can still accept.
    pub open spec fn fuel(self) -> int {
        match self.pending {
            Action::Stop(_) => 0,
            Action::Finish => 1,
            Action::Conclude { iteration, .. } => 2 + 6 * (self.iterations - 1 - iteration),
            Action::Average { iteration } => 3 + 6 * (self.iterations - 1 - iteration),
            Action::Retreat { iteration } => 4 + 6 * (self.iterations - 1 - iteration),
            Action::Step { iteration, .. } => 5 + 6 * (self.iterations - 1 - iteration),
            Action::Update { iteration, .. } => 6 + 6 * (self.iterations - 1 - iteration),
            Action::Probe { iteration, .. } => 7 + 6 * (self.iterations - 1 - iteration),
            Action::Start { .. } => 2 + 6 * self.iterations,
            Action::Search { attempt } => 2 + 6 * self.iterations + (PROBES - attempt),
            Action::Estimate { round } => 2 + 6 * self.iterations + PROBES + (self.rounds - round),
            Action::Seed { round } => 2 + 6 * self.iterations + PROBES + 2 * self.rounds - round,
        }
    }

    /// An upper bound on the evaluations of the objective that the run can
    /// still ask for, those of the pending action included.
    pub open spec fn budget(self) -> int {
        match self.pending {
            Action::Stop(_) => 0,
            Action::Finish => 2,
            Action::Conclude { iteration, .. } => 2 + 8 * (self.iterations - 1 - iteration),
            Action::Average { iteration } => 2 + 8 * (self.iterations - 1 - iteration),
            Action::Retreat { iteration } => 4 + 8 * (self.iterations - 1 - iteration),
            Action::Step { iteration, .. } => 6 + 8 * (self.iterations - 1 - iteration),
            Action::Update { iteration, .. } => 8 + 8 * (self.iterations - 1 - iteration),
            Action::Probe { iteration, .. } => 10 + 8 * (self.iterations - 1 - iteration),
            Action::Start { .. } => 4 + 8 * self.iterations,
            Action::Search { attempt } => 4 + 8 * self.iterations + 4 * (PROBES - attempt),
            Action::Estimate { round } => 4 + 8 * self.iterations + 4 * PROBES + 2 * (self.rounds
                - round),
            Action::Seed { round } => 4 + 8 * self.iterations + 4 * PROBES + 2 * self.rounds + 2
                * (self.rounds - round),
        }
    }

    /// Every event of the sequence answers the action that is pending when
    /// its turn comes.
    pub open spec fn answers(self, events: Seq<Event>) -> bool
        decreases events.len(),
    {
        events.len() > 0 ==> self.accepts(events[0]) && self.next(events[0]).answers(
            events.subrange(1, events.len() as int),
        )
    }

    /// The state after a sequence of events, taken in order.
    pub open spec fn run(self, events: Seq<Event>) -> State
        decreases events.len(),
    {
        if events.len() == 0 {
            self
        } else {
            self.next(events[0]).run(events.subrange(1, events.len() as int))
        }
    }
}

/// One more recovery consumes one more threshold of failures.
proof fn lemma_spent_next(k: int, r: int)
    ensures
        spent(k + 1, r) == spent(k, r) + 128 * (k + r),
{
    assert(128 * (k + 1) * r + 64 * (k + 1) * ((k + 1) - 1) == 128 * k * r + 64 * k * (k - 1) + 128
        * (k + r)) by (nonlinear_arith);
}

/// Failures that fit a budget of eleven per iteration leave room for fewer
/// than 2^32 recoveries, whatever the number of iterations a machine can count.
proof fn lemma_spent_bound(k: int, r: int, budget: int)
    requires
        0 <= k,
        0 <= r,
        spent(k, r) <= budget,
        budget <= 11 * 0xffff_ffff_ffff_ffff,
    ensures
        k < 0x1_0000_0000,
        spent(k, r) >= 0,
{
    assert(128 * k * r >= 0 && 64 * k * (k - 1) >= 0) by (nonlinear_arith)
        requires
            0 <= k,
            0 <= r,
    ;
    assert(k >= 0x1_0000_0000 ==> k * (k - 1) >= 0x1_0000_0000 * 0xffff_ffff) by (nonlinear_arith);
    assert(64 * k * (k - 1) == 64 * (k * (k - 1))) by (nonlinear_arith);
}

/// Before the first recovery nothing is spent.
proof fn lemma_spent_none(r: int)
    ensures
        spent(0, r) == 0,
{
    assert(128 * 0 * r + 64 * 0 * (0 - 1) == 0) by (nonlinear_arith);
}

/// The whole number nearest to the square root of `dimension + 100`: the
/// rounds of each warm-up phase, and the base of the stall threshold.
pub fn rounds(dimension: usize) -> (r: u64)
    ensures
        nearest_root(dimension + 100, r as int),
        10 <= r <= MAX_ROUNDS,
{
    let m: u128 = dimension as u128 + 100;
    let mut low: u128 = 10;
    let mut high: u128 = 0x1_0000_0001;
    assert(0x1_0000_0001u128 * 0x1_0000_0001u128 > m);
    while high - low > 1
        invariant
            10 <= low < high <= 0x1_0000_0001,
            low * low <= m < high * high,
            m == dimension + 100,
        decreases high - low,
    {
        let middle: u128 = low + (high - low) / 2;
        assert(middle * middle <= 0x1_0000_0001 * 0x1_0000_0001) by (nonlinear_arith)
            requires
                0 <= middle <= 0x1_0000_0001,
        ;
        if middle * middle <= m {
            low = middle;
        } else {
            high = middle;
        }
    }
    assert(low * low + low <= 0x1_0000_0001 * 0x1_0000_0001) by (nonlinear_arith)
        requires
            0 <= low < 0x1_0000_0001,
    ;
    let up: bool = m > low * low + low;
    let r: u128 = if up { low + 1 } else { low };
    proof {
        let l = low as int;
        let mm = m as int;
        assert((l + 1) * (l + 1) == l * l + 2 * l + 1) by (nonlinear_arith);
        assert((2 * l - 1) * (2 * l - 1) == 4 * (l * l) - 4 * l + 1) by (nonlinear_arith);
        assert((2 * l + 1) * (2 * l + 1) == 4 * (l * l) + 4 * l + 1) by (nonlinear_arith);
        assert((2 * l + 3) * (2 * l + 3) == 4 * (l * l) + 12 * l + 9) by (nonlinear_arith);
        if l == 0x1_0000_0000 {
            assert(l * l + l >= mm) by (nonlinear_arith)
                requires
                    l == 0x1_0000_0000,
                    mm <= 0xffff_ffff_ffff_ffff + 100,
            ;
        }
    }
    r as u64
}

/// A number has one nearest root: the contract of [`rounds`] fixes its
/// result.
pub proof fn law_nearest_root(m: int, a: int, b: int)
    requires
        nearest_root(m, a),
        nearest_root(m, b),
    ensures
        a == b,
{
    if a < b {
        assert((2 * a + 1) * (2 * a + 1) <= (2 * b - 1) * (2 * b - 1)) by (nonlinear_arith)
            requires
                1 <= a < b,
        ;
    }
    if b < a {
        assert((2 * b + 1) * (2 * b + 1) <= (2 * a - 1) * (2 * a - 1)) by (nonlinear_arith)
            requires
                1 <= b < a,
        ;
    }
}

/// A step keeps a well-formed state well formed: rounds, attempts and
/// iterations stay in range, and every failure counted is paid for.
pub proof fn law_well_formed(s: State, event: Event)
    requires
        s.wf(),
    ensures
        s.next(event).wf(),
{
    lemma_spent_bound(
        s.improvement_fails as int,
        s.rounds as int,
        11 * s.iterations - s.consecutive_fails,
    );
    lemma_spent_none(s.rounds as int);
    lemma_spent_next(s.improvement_fails as int, s.rounds as int);
}

/// Recoveries are rare: `k` of them take more than `64 * k * (k - 1)`
/// failures, of which an iteration supplies eleven at most; so there are
/// fewer than 2^32 of them on any machine, and the stall threshold fits a
/// counter.
pub proof fn law_recoveries(s: State)
    requires
        s.wf(),
    ensures
        64 * (s.improvement_fails * (s.improvement_fails - 1)) <= 11 * s.iterations,
        s.improvement_fails < 0x1_0000_0000,
        s.threshold() + SETBACK < 0x400_0000_0000,
{
    let k = s.improvement_fails as int;
    let r = s.rounds as int;
    lemma_spent_bound(k, r, 11 * s.iterations - s.consecutive_fails);
    assert(128 * k * r >= 0) by (nonlinear_arith)
        requires
            0 <= k,
            0 <= r,
    ;
    assert(64 * k * (k - 1) == 64 * (k * (k - 1))) by (nonlinear_arith);
}

/// The best score never falls: once the main loop has begun, a step leaves
/// it as it is or replaces it by a score above it. This holds of the steps
/// that decide a recovery too.
pub proof fn law_best_step(s: State, event: Event)
    requires
        s.started(),
    ensures
        s.next(event).started(),
        s.next(event).best == s.best || above(s.next(event).best, s.best),
{
}

/// The best point is replaced only together with the best score: once the
/// main loop has begun, the score on record changes only when a score is
/// taken in that lies above it, and exactly then the next action asks for the
/// best point to be recorded. A recovery decided at the same step leaves
/// both as they are.
pub proof fn law_best_record(s: State, event: Event)
    requires
        s.started(),
    ensures
        s.pending is Average && event is Score ==> {
            let score = event->Score_0;
            let after = s.next(event);
            &&& after.pending is Conclude
            &&& after.pending->improved == above(score, s.best)
            &&& after.best == (if above(score, s.best) { score } else { s.best })
        },
        !(s.pending is Average && event is Score) ==> s.next(event).best == s.best && (s.next(
            event,
        ).pending is Conclude ==> s.next(event) == s),
{
}

/// The best score never falls over any sequence of events.
pub proof fn law_best_run(s: State, events: Seq<Event>)
    requires
        s.started(),
    ensures
        s.run(events).started(),
        s.run(events).best == s.best || above(s.run(events).best, s.best),
    decreases events.len(),
{
    if events.len() > 0 {
        law_best_step(s, events[0]);
        law_best_run(s.next(events[0]), events.subrange(1, events.len() as int));
    }
}

/// A run ends as infeasible exactly when the last round of seeding reports a
/// mean that is not a number; no gradient is estimated after that.
pub proof fn law_infeasible(s: State, event: Event)
    requires
        s.wf(),
        s.pending != Action::Stop(Outcome::Infeasible),
    ensures
        s.next(event).pending == Action::Stop(Outcome::Infeasible) <==> (s.pending
            == Action::Seed { round: (s.rounds - 1) as u64 } && event is Mean && nan(
            event->Mean_0,
        )),
{
}

/// A run ends as stuck exactly when the evaluations after a retreat are not
/// both finite.
pub proof fn law_stuck(s: State, event: Event)
    requires
        s.pending != Action::Stop(Outcome::Stuck),
    ensures
        s.next(event).pending == Action::Stop(Outcome::Stuck) <==> (s.pending is Retreat && event is Moved
            && !(finite(event->Moved_first) && finite(event->Moved_second))),
{
}

/// Every event that answers the pending action brings the run closer to its
/// end; any other event changes nothing, and nothing answers a run that has
/// stopped.
pub proof fn law_progress(s: State, event: Event)
    requires
        s.wf(),
    ensures
        0 <= s.fuel(),
        s.accepts(event) ==> 0 <= s.next(event).fuel() < s.fuel(),
        !s.accepts(event) ==> s.next(event) == s,
        s.pending is Stop <==> s.fuel() == 0,
        s.pending is Stop ==> !s.accepts(event),
{
}

/// A run accepts at most six events per iteration, two per warm-up round
/// and seven more.
pub proof fn law_length(rounds: u64, iterations: usize, fixed_rate: bool)
    ensures
        State::initial(rounds, iterations, fixed_rate).fuel() == 6 * iterations + 2 * rounds + 7,
{
}

/// The evaluations of the objective are bounded: what the pending action
/// costs and what the run may ask for afterwards never exceed the budget, and
/// a whole run stays within eight evaluations per iteration, four per
/// warm-up round and twenty-four more.
pub proof fn law_budget(s: State, event: Event)
    requires
        s.wf(),
    ensures
        s.accepts(event) ==> 0 <= s.next(event).budget() && s.pending.cost() + s.next(
            event,
        ).budget() <= s.budget(),
        State::initial(s.rounds, s.iterations, s.fixed_rate).budget() == 8 * s.iterations + 4
            * s.rounds + 24,
{
}

/// Well-formedness lasts over any sequence of events.
pub proof fn law_run_well_formed(s: State, events: Seq<Event>)
    requires
        s.wf(),
    ensures
        s.run(events).wf(),
    decreases events.len(),
{
    if events.len() > 0 {
        law_well_formed(s, events[0]);
        law_run_well_formed(s.next(events[0]), events.subrange(1, events.len() as int));
    }
}

/// Every run ends: a sequence of events that each answer the pending action
/// is no longer than the fuel of the state it starts from, so that a run
/// from the start takes `6 * iterations + 2 * rounds + 7` events at most.
pub proof fn law_run_length(s: State, events: Seq<Event>)
    requires
        s.wf(),
        s.answers(events),
    ensures
        events.len() + s.run(events).fuel() <= s.fuel(),
        0 <= s.run(events).fuel(),
    decreases events.len(),
{
    if events.len() > 0 {
        law_well_formed(s, events[0]);
        law_progress(s, events[0]);
        law_run_length(s.next(events[0]), events.subrange(1, events.len() as int));
    }
}

/// The controller of one run: a [`State`] that is well formed by
/// construction and moves only by [`State::next`].
pub struct Controller {
    state: State,
}

impl View for Controller {
    type V = State;

    closed spec fn view(&self) -> State {
        self.state
    }
}

impl Controller {
    #[verifier::type_invariant]
    spec fn inv(self) -> bool {
        self.state.wf()
    }

    /// Begins a run over a point of `dimension` coordinates.
    pub fn new(dimension: usize, iterations: usize, fixed_rate: bool) -> (c: Controller)
        ensures
            nearest_root(dimension + 100, c@.rounds as int),
            c@ == State::initial(c@.rounds, iterations, fixed_rate),
            c@.wf(),
    {
        let r: u64 = rounds(dimension);
        proof {
            lemma_spent_none(r as int);
        }
        Controller {
            state: State {
                rounds: r,
                iterations,
                fixed_rate,
                momentum_fails: 0,
                consecutive_fails: 0,
                improvement_fails: 0,
                best: ZERO,
                pending: Action::Seed { round: 0 },
            },
        }
    }

    /// The whole state, for inspection.
    pub fn state(&self) -> (s: State)
        ensures
            s == self@,
            s.wf(),
    {
        proof {
            use_type_invariant(self);
        }
        self.state
    }

    /// The action that awaits its event.
    pub fn action(&self) -> (a: Action)
        ensures
            a == self@.pending,
    {
        self.state.pending
    }

    /// The best score on record; meaningful once the main loop has begun.
    pub fn best(&self) -> (b: u64)
        ensures
            b == self@.best,
    {
        self.state.best
    }

    /// How the run ended, once it has.
    pub fn outcome(&self) -> (o: Option<Outcome>)
        ensures
            o == (match self@.pending {
                Action::Stop(outcome) => Some(outcome),
                _ => None,
            }),
    {
        match self.state.pending {
            Action::Stop(outcome) => Some(outcome),
            _ => None,
        }
    }

    /// Takes in what the numeric side measured and decides what it does next.
    pub fn step(&mut self, event: Event) -> (action: Action)
        ensures
            final(self)@ == old(self)@.next(event),
            final(self)@.wf(),
            action == final(self)@.pending,
    {
        proof {
            use_type_invariant(&*self);
        }
        let after: State = advance(self.state, event);
        self.state = after;
        after.pending
    }
}

/// The transition, computed.
fn advance(s: State, event: Event) -> (t: State)
    requires
        s.wf(),
    ensures
        t == s.next(event),
        t.wf(),
{
    proof {
        lemma_spent_bound(
            s.improvement_fails as int,
            s.rounds as int,
            11 * s.iterations - s.consecutive_fails,
        );
        law_well_formed(s, event);
    }
    match (s.pending, event) {
        (Action::Seed { round }, Event::Mean(mean)) => {
            if round + 1 < s.rounds {
                State { pending: Action::Seed { round: round + 1 }, ..s }
            } else if is_nan(mean) {
                State { pending: Action::Stop(Outcome::Infeasible), ..s }
            } else {
                State { pending: Action::Estimate { round: 0 }, ..s }
            }
        },
        (Action::Estimate { round }, Event::Done) => {
            if round + 1 < s.rounds {
                State { pending: Action::Estimate { round: round + 1 }, ..s }
            } else if s.fixed_rate {
                State { pending: Action::Start { grow: false }, ..s }
            } else {
                State { pending: Action::Search { attempt: 0 }, ..s }
            }
        },
        (Action::Search { attempt }, Event::Rate { trial, trial_again, base, base_again }) => {
            let grow: bool = ge(max(trial, trial_again), max(base, base_again));
            if grow && attempt + 1 < PROBES {
                State { pending: Action::Search { attempt: attempt + 1 }, ..s }
            } else {
                State { pending: Action::Start { grow }, ..s }
            }
        },
        (Action::Start { .. }, Event::Started { score }) => {
            if s.iterations > 0 {
                State {
                    best: score,
                    pending: Action::Probe { iteration: 0, momentum_fails: s.momentum_fails },
                    ..s
                }
            } else {
                State { best: score, pending: Action::Finish, ..s }
            }
        },
        (Action::Probe { iteration, .. }, Event::Probed { slope, cosine, threshold }) => {
            if !is_finite(slope) {
                State { pending: Action::Finish, ..s }
            } else if gt(threshold, cosine) {
                let count: u64 = s.momentum_fails + 1;
                State {
                    momentum_fails: count,
                    pending: Action::Update { iteration, lowered: Some(count) },
                    ..s
                }
            } else {
                State { pending: Action::Update { iteration, lowered: None }, ..s }
            }
        },
        (
            Action::Update { iteration, .. },
            Event::Trial { stay, half, full, stay_raised, half_raised, full_raised },
        ) => {
            State {
                pending: Action::Step {
                    iteration,
                    shrink: gt(stay_raised, max(half, full)),
                    settle: gt(half_raised, max(stay, full)),
                    grow: gt(full_raised, max(stay, half)),
                },
                ..s
            }
        },
        (Action::Step { iteration, .. }, Event::Moved { first, second }) => {
            if is_finite(first) && is_finite(second) {
                State { pending: Action::Average { iteration }, ..s }
            } else {
                State {
                    consecutive_fails: s.consecutive_fails + SETBACK,
                    pending: Action::Retreat { iteration },
                    ..s
                }
            }
        },
        (Action::Retreat { iteration }, Event::Moved { first, second }) => {
            if is_finite(first) && is_finite(second) {
                State { pending: Action::Average { iteration }, ..s }
            } else {
                State { pending: Action::Stop(Outcome::Stuck), ..s }
            }
        },
        (Action::Average { iteration }, Event::Score(score)) => {
            let improved: bool = gt(score, s.best);
            let best: u64 = if improved { score } else { s.best };
            let fails: u64 = if improved { 0 } else { s.consecutive_fails + 1 };
            let threshold: u64 = PATIENCE * (s.improvement_fails + s.rounds);
            if fails >= threshold {
                let count: u64 = s.improvement_fails + 1;
                State {
                    best,
                    consecutive_fails: 0,
                    improvement_fails: count,
                    pending: Action::Conclude { iteration, improved, recovery: Some(count) },
                    ..s
                }
            } else {
                State {
                    best,
                    consecutive_fails: fails,
                    pending: Action::Conclude { iteration, improved, recovery: None },
                    ..s
                }
            }
        },
        (Action::Conclude { iteration, .. }, Event::Done) => {
            if iteration + 1 < s.iterations {
                State {
                    pending: Action::Probe {
                        iteration: iteration + 1,
                        momentum_fails: s.momentum_fails,
                    },
                    ..s
                }
            } else {
                State { pending: Action::Finish, ..s }
            }
        },
        (Action::Finish, Event::Final { bound, first, second }) => {
            if gt(bound, max(first, second)) {
                State { pending: Action::Stop(Outcome::Best), ..s }
            } else {
                State { pending: Action::Stop(Outcome::Live), ..s }
            }
        },
        _ => s,
    }
}

/// Hands the result of a run over: an infeasible start marks every
/// coordinate of the point as undefined, the best outcome replaces the point
/// by the best one on record, and otherwise the point stays as the run left
/// it.
pub fn deliver<S: Copy>(outcome: Outcome, point: &mut [S], best: &[S], undefined: S)
    requires
        outcome == Outcome::Best ==> best@.len() == old(point)@.len(),
    ensures
        final(point)@.len() == old(point)@.len(),
        outcome == Outcome::Infeasible ==> forall|i: int|
            0 <= i < final(point)@.len() ==> final(point)@[i] == undefined,
        outcome == Outcome::Best ==> final(point)@ == best@,
        outcome == Outcome::Live || outcome == Outcome::Stuck ==> final(point)@ == old(point)@,
{
    let n: usize = point.len();
    match outcome {
        Outcome::Infeasible => {
            let mut i: usize = 0;
            while i < n
                invariant
                    i <= n,
                    n == point@.len(),
                    forall|j: int| 0 <= j < i ==> point@[j] == undefined,
                decreases n - i,
            {
                point[i] = undefined;
                i += 1;
            }
        },
        Outcome::Best => {
            let mut i: usize = 0;
            while i < n
                invariant
                    i <= n,
                    n == point@.len(),
                    n == best@.len(),
                    forall|j: int| 0 <= j < i ==> point@[j] == best@[j],
                decreases n - i,
            {
                point[i] = best[i];
                i += 1;
            }
            assert(point@ =~= best@);
        },
        Outcome::Live | Outcome::Stuck => {},
    }
}

} // verus!
