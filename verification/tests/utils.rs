//! Random signs, options, the scratch pool and the sample count.

use rand::rngs::StdRng;
use rand::{Rng, SeedableRng};
use spsa::utils::{randsign, sign};
use spsa::{Optimizer, Options, Oversample, REGISTER_NUM};

#[test]
fn sign_of_a_bit() {
    assert_eq!(sign(true), 1);
    assert_eq!(sign(false), -1);
}

#[test]
fn randsign_gives_signs() {
    let mut rng = StdRng::seed_from_u64(1);
    for _ in 0..200 {
        for s in randsign(&mut rng) {
            assert!(s == 1 || s == -1);
        }
    }
}

#[test]
fn randsign_takes_four_draws_in_lane_order() {
    let mut rng = StdRng::seed_from_u64(42);
    let mut twin = StdRng::seed_from_u64(42);
    for _ in 0..50 {
        let signs = randsign(&mut rng);
        for lane in 0..4 {
            let expected = if twin.gen::<bool>() { 1 } else { -1 };
            assert_eq!(signs[lane], expected);
        }
    }
    // both generators stand at the same place afterwards
    assert_eq!(rng.gen::<u64>(), twin.gen::<u64>());
}

#[test]
fn randsign_gives_both_signs() {
    let mut rng = StdRng::seed_from_u64(7);
    let mut plus = 0;
    let mut minus = 0;
    for _ in 0..250 {
        for s in randsign(&mut rng) {
            if s == 1 {
                plus += 1;
            } else {
                minus += 1;
            }
        }
    }
    assert_eq!(plus + minus, 1000);
    assert!(plus > 400 && minus > 400, "{} plus, {} minus", plus, minus);
}

#[test]
fn default_options() {
    let o = Options::default();
    assert!(o.adam);
    assert_eq!(o.iterations, 10_000);
    assert_eq!(o.lr, None);
    assert_eq!(f64::from_bits(o.lr_decay), 1e-3);
    assert_eq!(f64::from_bits(o.lr_power), 0.5);
    assert_eq!(f64::from_bits(o.px), 2.0);
    assert_eq!(f64::from_bits(o.px_decay), 1e-2);
    assert_eq!(f64::from_bits(o.px_power), 0.161);
    assert_eq!(f64::from_bits(o.momentum), 0.9);
    assert_eq!(f64::from_bits(o.beta), 0.999);
    assert_eq!(f64::from_bits(o.epsilon), 1e-7);
}

fn registers<S>(pool: &Optimizer<S>) -> [&Vec<S>; 8] {
    [
        &pool.gradient,
        &pool.slow_gradient,
        &pool.variance,
        &pool.direction,
        &pool.perturbation,
        &pool.average,
        &pool.best,
        &pool.scratch,
    ]
}

#[test]
fn a_new_pool_is_empty() {
    let pool: Optimizer<f64> = Optimizer::new();
    assert_eq!(registers(&pool).len(), REGISTER_NUM);
    assert!(registers(&pool).iter().all(|register| register.is_empty()));
}

#[test]
fn prepare_sizes_every_register() {
    let mut pool: Optimizer<f64> = Optimizer::new();
    pool.prepare(5, 0.0);
    for register in registers(&pool) {
        assert_eq!(register, &vec![0.0; 5]);
    }
}

#[test]
fn prepare_clears_what_an_earlier_run_left() {
    let mut pool: Optimizer<i32> = Optimizer::new();
    pool.prepare(3, 0);
    pool.variance[1] = 17;
    pool.scratch.push(4);
    pool.best.clear();
    pool.prepare(4, -1);
    for register in registers(&pool) {
        assert_eq!(register, &vec![-1; 4]);
    }
    pool.prepare(0, 0);
    assert!(registers(&pool).iter().all(|register| register.is_empty()));
}

#[test]
fn oversample_counts_its_samples() {
    let o = Oversample::new("objective", 2);
    assert_eq!(o.count, 2);
    assert_eq!(o.samples(), 3);
    assert_eq!(o.into_inner(), "objective");
    assert_eq!(Oversample::new((), 0).samples(), 1);
    assert_eq!(Oversample::new((), usize::MAX - 1).samples(), usize::MAX);
}
