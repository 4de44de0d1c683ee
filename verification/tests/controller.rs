//! The controller, step by step, on measurements chosen by hand.

use rand::rngs::StdRng;
use rand::{Rng, SeedableRng};
use spsa::algo::{deliver, rounds};
use spsa::ieee::{gt, is_nan};
use spsa::{Action, Controller, Event, Options, Outcome};

fn bits(f: f64) -> u64 {
    f.to_bits()
}

/// Takes a fresh controller through both warm-up phases.
fn warmed_up(dimension: usize, iterations: usize, fixed_rate: bool) -> Controller {
    let mut c = Controller::new(dimension, iterations, fixed_rate);
    let r = rounds(dimension);
    for round in 0..r {
        assert_eq!(c.action(), Action::Seed { round });
        c.step(Event::Mean(bits(1.0)));
    }
    for round in 0..r {
        assert_eq!(c.action(), Action::Estimate { round });
        c.step(Event::Done);
    }
    c
}

/// Takes a fresh controller to the first probe of the main loop.
fn started(dimension: usize, iterations: usize, score: f64) -> Controller {
    let mut c = warmed_up(dimension, iterations, true);
    assert_eq!(c.action(), Action::Start { grow: false });
    c.step(Event::Started { score: bits(score) });
    c
}

/// One whole iteration in which nothing goes wrong; returns the action after
/// the score was taken in.
fn iterate(c: &mut Controller, iteration: usize, score: f64) -> Action {
    let fails = c.state().momentum_fails;
    assert_eq!(c.action(), Action::Probe { iteration, momentum_fails: fails });
    c.step(Event::Probed { slope: bits(0.5), cosine: bits(0.9), threshold: bits(-0.5) });
    c.step(Event::Trial {
        stay: bits(1.0),
        half: bits(2.0),
        full: bits(3.0),
        stay_raised: bits(1.0),
        half_raised: bits(2.0),
        full_raised: bits(3.0),
    });
    c.step(Event::Moved { first: bits(1.0), second: bits(1.0) });
    assert_eq!(c.action(), Action::Average { iteration });
    c.step(Event::Score(bits(score)))
}

#[test]
fn rounds_is_the_nearest_root() {
    assert_eq!(rounds(0), 10);
    assert_eq!(rounds(2), 10);
    assert_eq!(rounds(10), 10);
    assert_eq!(rounds(11), 11);
    assert_eq!(rounds(21), 11);
    assert_eq!(rounds(32), 11);
    assert_eq!(rounds(33), 12);
    assert_eq!(rounds(44), 12);
    assert_eq!(rounds(9_900), 100);
    assert_eq!(rounds(1_000_000), 1000);
    assert_eq!(rounds(u32::MAX as usize), 65536);
}

#[test]
fn rounds_matches_the_rounded_square_root() {
    for n in 0..5000usize {
        let expected = ((n as f64) + 100.0).sqrt().round() as u64;
        assert_eq!(rounds(n), expected, "dimension {}", n);
    }
}

#[test]
fn rounds_of_the_largest_dimension() {
    if usize::BITS == 64 {
        assert_eq!(rounds(usize::MAX), 1 << 32);
    }
}

#[test]
fn a_run_begins_with_seeding() {
    let c = Controller::new(2, 10_000, false);
    let s = c.state();
    assert_eq!(c.action(), Action::Seed { round: 0 });
    assert_eq!(s.rounds, 10);
    assert_eq!(s.iterations, 10_000);
    assert!(!s.fixed_rate);
    assert_eq!((s.momentum_fails, s.consecutive_fails, s.improvement_fails), (0, 0, 0));
    assert_eq!(c.outcome(), None);
}

#[test]
fn options_make_the_controller() {
    let c = Options::default().controller(44);
    assert_eq!(c.state().rounds, 12);
    assert_eq!(c.state().iterations, 10_000);
    assert!(!c.state().fixed_rate);
    let fixed = Options { lr: Some(bits(0.1)), iterations: 7, ..Options::default() };
    let c = fixed.controller(0);
    assert!(c.state().fixed_rate);
    assert_eq!(c.state().iterations, 7);
}

#[test]
fn undefined_mean_after_seeding_is_infeasible() {
    let mut c = Controller::new(2, 100, false);
    for _ in 0..9 {
        c.step(Event::Mean(bits(f64::NAN)));
        assert_eq!(c.outcome(), None);
    }
    assert_eq!(c.step(Event::Mean(bits(f64::NAN))), Action::Stop(Outcome::Infeasible));
    assert_eq!(c.outcome(), Some(Outcome::Infeasible));
}

#[test]
fn any_not_a_number_counts_as_undefined() {
    for pattern in [0x7ff0_0000_0000_0001u64, 0xfff8_0000_0000_0000, 0x7fff_ffff_ffff_ffff] {
        let mut c = Controller::new(0, 1, true);
        for _ in 0..9 {
            c.step(Event::Mean(bits(0.0)));
        }
        assert_eq!(c.step(Event::Mean(pattern)), Action::Stop(Outcome::Infeasible));
    }
}

#[test]
fn only_the_last_mean_decides() {
    let mut c = Controller::new(2, 100, false);
    for _ in 0..9 {
        c.step(Event::Mean(bits(f64::NAN)));
    }
    assert_eq!(c.step(Event::Mean(bits(f64::INFINITY))), Action::Estimate { round: 0 });
}

#[test]
fn warm_up_takes_the_rounds_of_the_dimension() {
    let c = warmed_up(33, 5, false);
    assert_eq!(c.action(), Action::Search { attempt: 0 });
    let c = warmed_up(33, 5, true);
    assert_eq!(c.action(), Action::Start { grow: false });
}

fn rate(trial: f64, trial_again: f64, base: f64, base_again: f64) -> Event {
    Event::Rate {
        trial: bits(trial),
        trial_again: bits(trial_again),
        base: bits(base),
        base_again: bits(base_again),
    }
}

#[test]
fn search_grows_five_times_at_most() {
    let mut c = warmed_up(2, 5, false);
    for attempt in 1..5 {
        assert_eq!(c.step(rate(2.0, 2.0, 1.0, 1.0)), Action::Search { attempt });
    }
    assert_eq!(c.step(rate(2.0, 2.0, 1.0, 1.0)), Action::Start { grow: true });
}

#[test]
fn search_stops_when_the_trial_is_worse() {
    let mut c = warmed_up(2, 5, false);
    assert_eq!(c.step(rate(2.0, 2.0, 1.0, 1.0)), Action::Search { attempt: 1 });
    assert_eq!(c.step(rate(0.5, 0.75, 1.0, 1.0)), Action::Start { grow: false });
}

#[test]
fn search_takes_a_trial_that_is_not_worse() {
    let mut c = warmed_up(2, 5, false);
    assert_eq!(c.step(rate(1.0, 0.5, 0.25, 1.0)), Action::Search { attempt: 1 });
    // the better of each pair counts
    assert_eq!(c.step(rate(-3.0, 2.0, 1.5, -8.0)), Action::Search { attempt: 2 });
    // an undefined evaluation gives way to its twin
    assert_eq!(c.step(rate(f64::NAN, 2.0, 1.5, f64::NAN)), Action::Search { attempt: 3 });
    // a trial that is undefined twice is no growth
    assert_eq!(c.step(rate(f64::NAN, f64::NAN, 1.0, 1.0)), Action::Start { grow: false });
}

#[test]
fn start_records_the_score_and_opens_the_loop() {
    let mut c = warmed_up(2, 3, true);
    assert_eq!(
        c.step(Event::Started { score: bits(-4.5) }),
        Action::Probe { iteration: 0, momentum_fails: 0 }
    );
    assert_eq!(c.best(), bits(-4.5));
}

#[test]
fn no_iterations_go_straight_to_the_finish() {
    let mut c = warmed_up(2, 0, true);
    assert_eq!(c.step(Event::Started { score: bits(1.0) }), Action::Finish);
}

#[test]
fn slope_that_is_not_finite_ends_the_loop() {
    for slope in [f64::NAN, f64::INFINITY, f64::NEG_INFINITY] {
        let mut c = started(2, 100, 1.0);
        let a = c.step(Event::Probed { slope: bits(slope), cosine: bits(0.0), threshold: bits(1.0) });
        assert_eq!(a, Action::Finish);
        assert_eq!(c.state().momentum_fails, 0);
    }
}

#[test]
fn disagreement_lowers_the_momentum() {
    let mut c = started(2, 100, 1.0);
    let a = c.step(Event::Probed { slope: bits(1.0), cosine: bits(-0.75), threshold: bits(-0.5) });
    assert_eq!(a, Action::Update { iteration: 0, lowered: Some(1) });
    assert_eq!(c.state().momentum_fails, 1);
}

#[test]
fn agreement_keeps_the_momentum() {
    for cosine in [-0.5, 0.0, 1.0, f64::NAN] {
        let mut c = started(2, 100, 1.0);
        let a =
            c.step(Event::Probed { slope: bits(1.0), cosine: bits(cosine), threshold: bits(-0.5) });
        assert_eq!(a, Action::Update { iteration: 0, lowered: None });
        assert_eq!(c.state().momentum_fails, 0);
    }
}

#[test]
fn disagreements_add_up_over_iterations() {
    let mut c = started(2, 100, 1.0);
    for iteration in 0..3usize {
        assert_eq!(
            c.action(),
            Action::Probe { iteration, momentum_fails: iteration as u64 }
        );
        let a =
            c.step(Event::Probed { slope: bits(1.0), cosine: bits(-0.9), threshold: bits(-0.5) });
        assert_eq!(a, Action::Update { iteration, lowered: Some(iteration as u64 + 1) });
        c.step(trial(1.0, 2.0, 3.0, 0.0));
        c.step(Event::Moved { first: bits(1.0), second: bits(1.0) });
        c.step(Event::Score(bits(0.0)));
        c.step(Event::Done);
    }
}

fn trial(stay: f64, half: f64, full: f64, margin: f64) -> Event {
    Event::Trial {
        stay: bits(stay),
        half: bits(half),
        full: bits(full),
        stay_raised: bits(stay + margin),
        half_raised: bits(half + margin),
        full_raised: bits(full + margin),
    }
}

fn after_trial(event: Event) -> Action {
    let mut c = started(2, 100, 1.0);
    c.step(Event::Probed { slope: bits(1.0), cosine: bits(0.0), threshold: bits(-0.5) });
    c.step(event)
}

fn step(shrink: bool, settle: bool, grow: bool) -> Action {
    Action::Step { iteration: 0, shrink, settle, grow }
}

#[test]
fn the_winner_of_three_sets_the_rate() {
    assert_eq!(after_trial(trial(3.0, 2.0, 1.0, 0.0)), step(true, false, false));
    assert_eq!(after_trial(trial(1.0, 3.0, 2.0, 0.0)), step(false, true, false));
    assert_eq!(after_trial(trial(1.0, 2.0, 3.0, 0.0)), step(false, false, true));
}

#[test]
fn ties_within_the_margin_fire_together() {
    assert_eq!(after_trial(trial(1.0, 1.0, 1.0, 0.0)), step(false, false, false));
    assert_eq!(after_trial(trial(1.0, 1.0, 1.0, 0.25)), step(true, true, true));
    assert_eq!(after_trial(trial(1.0, 1.25, 0.0, 0.5)), step(true, true, false));
    assert_eq!(after_trial(trial(0.0, 1.0, 1.25, 0.5)), step(false, true, true));
    assert_eq!(after_trial(trial(1.25, 0.0, 1.0, 0.5)), step(true, false, true));
}

#[test]
fn undefined_trials_lose() {
    assert_eq!(after_trial(trial(1.0, f64::NAN, f64::NAN, 0.0)), step(false, false, false));
    assert_eq!(after_trial(trial(1.0, f64::NAN, 0.5, 0.0)), step(true, false, false));
    assert_eq!(after_trial(trial(1.0, f64::NAN, 2.0, 0.0)), step(false, false, true));
    assert_eq!(after_trial(trial(f64::NAN, 1.0, 2.0, 0.0)), step(false, false, true));
    assert_eq!(after_trial(trial(f64::NAN, f64::NAN, f64::NAN, 0.0)), step(false, false, false));
    // an undefined margin raises nothing above anything
    assert_eq!(after_trial(trial(3.0, 2.0, 1.0, f64::NAN)), step(false, false, false));
}

#[test]
fn a_move_into_the_undefined_is_undone() {
    for (first, second) in [(f64::NAN, 1.0), (1.0, f64::NAN), (f64::INFINITY, 1.0)] {
        let mut c = started(2, 100, 1.0);
        c.step(Event::Probed { slope: bits(1.0), cosine: bits(0.0), threshold: bits(-0.5) });
        c.step(trial(1.0, 2.0, 3.0, 0.0));
        let a = c.step(Event::Moved { first: bits(first), second: bits(second) });
        assert_eq!(a, Action::Retreat { iteration: 0 });
        assert_eq!(c.state().consecutive_fails, 10);
        let a = c.step(Event::Moved { first: bits(0.5), second: bits(-0.5) });
        assert_eq!(a, Action::Average { iteration: 0 });
        // the failure of the iteration itself comes on top
        c.step(Event::Score(bits(0.0)));
        assert_eq!(c.state().consecutive_fails, 11);
    }
}

#[test]
fn a_retreat_that_does_not_help_is_fatal() {
    let mut c = started(2, 100, 1.0);
    c.step(Event::Probed { slope: bits(1.0), cosine: bits(0.0), threshold: bits(-0.5) });
    c.step(trial(1.0, 2.0, 3.0, 0.0));
    c.step(Event::Moved { first: bits(f64::NAN), second: bits(f64::NAN) });
    let a = c.step(Event::Moved { first: bits(1.0), second: bits(f64::NEG_INFINITY) });
    assert_eq!(a, Action::Stop(Outcome::Stuck));
    assert_eq!(c.outcome(), Some(Outcome::Stuck));
}

#[test]
fn a_better_score_is_recorded_and_clears_the_failures() {
    let mut c = started(2, 100, 1.0);
    let a = iterate(&mut c, 0, 0.5);
    assert_eq!(a, Action::Conclude { iteration: 0, improved: false, recovery: None });
    assert_eq!(c.best(), bits(1.0));
    assert_eq!(c.state().consecutive_fails, 1);
    c.step(Event::Done);
    let a = iterate(&mut c, 1, 1.0);
    assert_eq!(a, Action::Conclude { iteration: 1, improved: false, recovery: None });
    assert_eq!(c.state().consecutive_fails, 2);
    c.step(Event::Done);
    let a = iterate(&mut c, 2, 1.5);
    assert_eq!(a, Action::Conclude { iteration: 2, improved: true, recovery: None });
    assert_eq!(c.best(), bits(1.5));
    assert_eq!(c.state().consecutive_fails, 0);
}

#[test]
fn an_undefined_score_is_never_better() {
    let mut c = started(2, 100, 1.0);
    let a = iterate(&mut c, 0, f64::NAN);
    assert_eq!(a, Action::Conclude { iteration: 0, improved: false, recovery: None });
    assert_eq!(c.best(), bits(1.0));
}

#[test]
fn recovery_comes_when_the_threshold_is_reached() {
    // two coordinates: ten rounds, so the first threshold is 128 * (0 + 10)
    let mut c = started(2, 10_000, 1.0);
    for iteration in 0..1279usize {
        let a = iterate(&mut c, iteration, 0.0);
        assert_eq!(a, Action::Conclude { iteration, improved: false, recovery: None });
        c.step(Event::Done);
    }
    assert_eq!(c.state().consecutive_fails, 1279);
    let a = iterate(&mut c, 1279, 0.0);
    assert_eq!(a, Action::Conclude { iteration: 1279, improved: false, recovery: Some(1) });
    assert_eq!(c.state().consecutive_fails, 0);
    assert_eq!(c.state().improvement_fails, 1);
    assert_eq!(c.best(), bits(1.0));
    c.step(Event::Done);
    // the second threshold is 128 * (1 + 10)
    for iteration in 1280..(1280 + 1407) {
        let a = iterate(&mut c, iteration, 0.0);
        assert_eq!(a, Action::Conclude { iteration, improved: false, recovery: None });
        c.step(Event::Done);
    }
    let a = iterate(&mut c, 1280 + 1407, 0.0);
    assert_eq!(
        a,
        Action::Conclude { iteration: 1280 + 1407, improved: false, recovery: Some(2) }
    );
}

#[test]
fn setbacks_bring_recovery_sooner() {
    let mut c = started(2, 10_000, 1.0);
    let mut iteration = 0usize;
    loop {
        c.step(Event::Probed { slope: bits(1.0), cosine: bits(0.0), threshold: bits(-0.5) });
        c.step(trial(1.0, 2.0, 3.0, 0.0));
        c.step(Event::Moved { first: bits(f64::NAN), second: bits(1.0) });
        c.step(Event::Moved { first: bits(1.0), second: bits(1.0) });
        let a = c.step(Event::Score(bits(0.0)));
        if a != (Action::Conclude { iteration, improved: false, recovery: None }) {
            assert_eq!(a, Action::Conclude { iteration, improved: false, recovery: Some(1) });
            break;
        }
        c.step(Event::Done);
        iteration += 1;
    }
    // eleven failures per iteration reach 1280 in the 117th
    assert_eq!(iteration, 116);
}

#[test]
fn the_last_iteration_leads_to_the_finish() {
    let mut c = started(2, 2, 1.0);
    iterate(&mut c, 0, 0.0);
    assert_eq!(c.step(Event::Done), Action::Probe { iteration: 1, momentum_fails: 0 });
    iterate(&mut c, 1, 0.0);
    assert_eq!(c.step(Event::Done), Action::Finish);
}

#[test]
fn the_finish_picks_the_best_point_when_it_dominates() {
    let finish = |bound: f64, first: f64, second: f64| {
        let mut c = warmed_up(2, 0, true);
        c.step(Event::Started { score: bits(1.0) });
        c.step(Event::Final { bound: bits(bound), first: bits(first), second: bits(second) })
    };
    assert_eq!(finish(2.0, 1.0, 1.5), Action::Stop(Outcome::Best));
    assert_eq!(finish(2.0, 1.0, 2.0), Action::Stop(Outcome::Live));
    assert_eq!(finish(2.0, 3.0, 1.0), Action::Stop(Outcome::Live));
    assert_eq!(finish(2.0, f64::NAN, 1.0), Action::Stop(Outcome::Best));
    assert_eq!(finish(f64::NAN, 1.0, 1.0), Action::Stop(Outcome::Live));
    assert_eq!(finish(2.0, f64::NAN, f64::NAN), Action::Stop(Outcome::Live));
}

#[test]
fn an_event_out_of_turn_changes_nothing() {
    let mut c = Controller::new(2, 10, false);
    let before = c.state();
    assert_eq!(c.step(Event::Done), Action::Seed { round: 0 });
    assert_eq!(c.step(Event::Score(bits(1.0))), Action::Seed { round: 0 });
    assert_eq!(c.step(Event::Moved { first: 0, second: 0 }), Action::Seed { round: 0 });
    assert_eq!(c.state(), before);
    let mut c = started(2, 10, 1.0);
    let before = c.state();
    assert_eq!(c.step(Event::Mean(bits(f64::NAN))), before.pending);
    assert_eq!(c.step(Event::Done), before.pending);
    assert_eq!(c.state(), before);
}

#[test]
fn a_stopped_run_stays_stopped() {
    let mut c = Controller::new(2, 10, false);
    for _ in 0..10 {
        c.step(Event::Mean(bits(f64::NAN)));
    }
    let stopped = c.state();
    for event in [
        Event::Done,
        Event::Mean(0),
        Event::Score(0),
        Event::Started { score: 0 },
        Event::Moved { first: 0, second: 0 },
        Event::Final { bound: 0, first: 0, second: 0 },
    ] {
        assert_eq!(c.step(event), Action::Stop(Outcome::Infeasible));
        assert_eq!(c.state(), stopped);
    }
}

fn any_real(rng: &mut StdRng) -> u64 {
    match rng.gen_range(0..8) {
        0 => bits(f64::NAN),
        1 => bits(f64::INFINITY),
        2 => bits(f64::NEG_INFINITY),
        3 => bits(-0.0),
        _ => bits(rng.gen_range(-4.0..4.0)),
    }
}

fn any_answer(action: Action, rng: &mut StdRng) -> Event {
    match action {
        Action::Seed { .. } => Event::Mean(bits(rng.gen_range(-4.0..4.0))),
        Action::Estimate { .. } | Action::Conclude { .. } => Event::Done,
        Action::Search { .. } => Event::Rate {
            trial: any_real(rng),
            trial_again: any_real(rng),
            base: any_real(rng),
            base_again: any_real(rng),
        },
        Action::Start { .. } => Event::Started { score: any_real(rng) },
        Action::Probe { .. } => Event::Probed {
            slope: bits(rng.gen_range(-4.0..4.0)),
            cosine: any_real(rng),
            threshold: any_real(rng),
        },
        Action::Update { .. } => Event::Trial {
            stay: any_real(rng),
            half: any_real(rng),
            full: any_real(rng),
            stay_raised: any_real(rng),
            half_raised: any_real(rng),
            full_raised: any_real(rng),
        },
        Action::Step { .. } => Event::Moved { first: any_real(rng), second: any_real(rng) },
        Action::Retreat { .. } => Event::Moved { first: bits(1.0), second: bits(1.0) },
        Action::Average { .. } => Event::Score(any_real(rng)),
        Action::Finish => {
            Event::Final { bound: any_real(rng), first: any_real(rng), second: any_real(rng) }
        }
        Action::Stop(_) => Event::Done,
    }
}

#[test]
fn the_best_score_never_falls() {
    let mut rng = StdRng::seed_from_u64(11);
    for _ in 0..20 {
        let mut c = Controller::new(3, 400, false);
        let mut begun = false;
        let mut last = 0u64;
        while c.outcome().is_none() {
            let action = c.action();
            c.step(any_answer(action, &mut rng));
            if begun {
                assert!(c.best() == last || gt(c.best(), last));
            }
            if matches!(action, Action::Start { .. }) {
                begun = true;
            }
            last = c.best();
        }
    }
}

#[test]
fn a_run_ends_within_its_bound() {
    let mut rng = StdRng::seed_from_u64(12);
    for (dimension, iterations) in [(0usize, 0usize), (2, 1), (30, 50), (300, 700)] {
        for fixed_rate in [false, true] {
            let mut c = Controller::new(dimension, iterations, fixed_rate);
            let bound = 6 * iterations as u64 + 2 * rounds(dimension) + 7;
            let mut events = 0u64;
            while c.outcome().is_none() {
                let action = c.action();
                c.step(any_answer(action, &mut rng));
                events += 1;
            }
            assert!(events <= bound, "{} events, bound {}", events, bound);
        }
    }
}

#[test]
fn the_longest_run_meets_its_bound() {
    // every search attempt grows and every move is undone once
    let (dimension, iterations) = (2usize, 50usize);
    let mut c = Controller::new(dimension, iterations, false);
    let mut events = 0u64;
    while c.outcome().is_none() {
        let event = match c.action() {
            Action::Seed { .. } => Event::Mean(bits(1.0)),
            Action::Estimate { .. } | Action::Conclude { .. } => Event::Done,
            Action::Search { .. } => rate(1.0, 1.0, 1.0, 1.0),
            Action::Start { .. } => Event::Started { score: bits(0.0) },
            Action::Probe { .. } => {
                Event::Probed { slope: bits(1.0), cosine: bits(1.0), threshold: bits(0.0) }
            }
            Action::Update { .. } => trial(1.0, 1.0, 1.0, 0.0),
            Action::Step { .. } => Event::Moved { first: bits(f64::NAN), second: bits(0.0) },
            Action::Retreat { .. } => Event::Moved { first: bits(0.0), second: bits(0.0) },
            Action::Average { .. } => Event::Score(bits(0.0)),
            Action::Finish => Event::Final { bound: 0, first: 0, second: 0 },
            Action::Stop(_) => Event::Done,
        };
        c.step(event);
        events += 1;
    }
    assert_eq!(events, 6 * iterations as u64 + 2 * rounds(dimension) + 7);
}

#[test]
fn counters_stay_within_their_bounds() {
    let mut rng = StdRng::seed_from_u64(13);
    let mut c = Controller::new(2, 20_000, true);
    while c.outcome().is_none() {
        let action = c.action();
        let event = match action {
            Action::Step { .. } => {
                let first = if rng.gen::<bool>() { f64::NAN } else { 1.0 };
                Event::Moved { first: bits(first), second: bits(1.0) }
            }
            Action::Average { .. } => Event::Score(bits(-1.0)),
            Action::Probe { .. } => {
                Event::Probed { slope: bits(1.0), cosine: bits(-1.0), threshold: bits(0.0) }
            }
            other => any_answer(other, &mut rng),
        };
        c.step(event);
        let s = c.state();
        let k = s.improvement_fails;
        assert!(s.momentum_fails <= s.iterations as u64);
        assert!(s.consecutive_fails < 128 * (k + s.rounds) + 10);
        assert!(64 * k * k.saturating_sub(1) <= 11 * s.iterations as u64);
    }
    assert!(c.state().improvement_fails >= 5);
}

#[test]
fn deliver_marks_an_infeasible_start() {
    let mut point = [1.0, 2.0, 3.0];
    let best = [7.0, 8.0, 9.0];
    deliver(Outcome::Infeasible, &mut point, &best, f64::NAN);
    assert_eq!(point.len(), 3);
    assert!(point.iter().all(|v| v.is_nan()));
    assert!(point.iter().all(|v| is_nan(v.to_bits())));
    let mut empty: [f64; 0] = [];
    deliver(Outcome::Infeasible, &mut empty, &[], f64::NAN);
}

#[test]
fn deliver_hands_out_the_best_or_the_live_point() {
    let best = [7.0, 8.0, 9.0];
    let mut point = [1.0, 2.0, 3.0];
    deliver(Outcome::Best, &mut point, &best, f64::NAN);
    assert_eq!(point, best);
    let mut point = [1.0, 2.0, 3.0];
    deliver(Outcome::Live, &mut point, &best, f64::NAN);
    assert_eq!(point, [1.0, 2.0, 3.0]);
    deliver(Outcome::Stuck, &mut point, &best[..1], f64::NAN);
    assert_eq!(point, [1.0, 2.0, 3.0]);
}

#[test]
fn actions_know_their_evaluations() {
    assert_eq!(Action::Seed { round: 3 }.evaluations(), 2);
    assert_eq!(Action::Estimate { round: 3 }.evaluations(), 2);
    assert_eq!(Action::Search { attempt: 0 }.evaluations(), 4);
    assert_eq!(Action::Start { grow: true }.evaluations(), 2);
    assert_eq!(Action::Probe { iteration: 1, momentum_fails: 0 }.evaluations(), 2);
    assert_eq!(Action::Update { iteration: 1, lowered: None }.evaluations(), 2);
    let step = Action::Step { iteration: 1, shrink: false, settle: true, grow: false };
    assert_eq!(step.evaluations(), 2);
    assert_eq!(Action::Retreat { iteration: 1 }.evaluations(), 2);
    assert_eq!(Action::Average { iteration: 1 }.evaluations(), 0);
    let conclude = Action::Conclude { iteration: 1, improved: true, recovery: Some(1) };
    assert_eq!(conclude.evaluations(), 0);
    assert_eq!(Action::Finish.evaluations(), 2);
    assert_eq!(Action::Stop(Outcome::Live).evaluations(), 0);
}

#[test]
fn the_costliest_run_meets_its_budget() {
    let (dimension, iterations) = (2usize, 30usize);
    let mut c = Controller::new(dimension, iterations, false);
    let mut evaluations = 0u64;
    while c.outcome().is_none() {
        let action = c.action();
        evaluations += action.evaluations() as u64;
        let event = match action {
            Action::Search { .. } => rate(1.0, 1.0, 1.0, 1.0),
            Action::Step { .. } => Event::Moved { first: bits(f64::NAN), second: bits(0.0) },
            Action::Seed { .. } => Event::Mean(bits(1.0)),
            Action::Probe { .. } => {
                Event::Probed { slope: bits(1.0), cosine: bits(1.0), threshold: bits(0.0) }
            }
            other => any_answer(other, &mut StdRng::seed_from_u64(1)),
        };
        c.step(event);
    }
    assert_eq!(evaluations, 8 * iterations as u64 + 4 * rounds(dimension) + 24);
}
