use csvdimreduce::affinity::{average_affinity, build_particle_affinities};
use csvdimreduce::init::{init_state, run_reduction};
use csvdimreduce::matrix::Matrix;
use csvdimreduce::schedule::{
    annealed_rate, geo_interp, lerp_fixed, resolve_config, Driver, RunOptions,
};

fn fx(x: f64) -> i64 {
    (x * 1_000_000.0).round() as i64
}

fn input_matrix(vals: Vec<Vec<f64>>) -> Matrix {
    let rows = vals.len();
    let cols = vals[0].len();
    let data: Vec<Vec<i64>> = vals.iter().map(|r| r.iter().map(|&x| fx(x)).collect()).collect();
    Matrix { rows, cols, data }
}

#[test]
fn lerp_midpoint() {
    assert_eq!(lerp_fixed(0, fx(1.0), 1, 2), fx(0.5));
    assert_eq!(lerp_fixed(fx(0.2), fx(0.2), 7, 9), fx(0.2));
    assert_eq!(lerp_fixed(fx(1.0), fx(0.0), 3, 4), fx(0.25));
}

#[test]
fn annealed_rate_endpoint() {
    assert_eq!(annealed_rate(fx(0.01), 200, 5, 5), 200);
}

#[test]
fn geo_interp_square_root_at_half() {
    // halfway between 1 and 16 in log space is 4
    assert_eq!(geo_interp(fx(1.0), fx(16.0), 2, 4), fx(4.0));
    // the endpoints are hit exactly
    assert_eq!(geo_interp(fx(2.0), fx(32.0), 4, 4), fx(32.0));
}

#[test]
fn config_defaults() {
    let opts = RunOptions::new_default();
    let cfg = resolve_config(&opts, fx(1.0), 3);
    assert_eq!(cfg.n_iters, 100);
    assert_eq!(cfg.warmup_iters, 50);
    assert_eq!(cfg.rate, fx(0.01));
    assert_eq!(cfg.inertia_multiplier, fx(0.9));
    assert_eq!(cfg.final_rate, fx(0.0002));
    assert_eq!(cfg.central_force, fx(20.0));
    assert_eq!(cfg.squeeze_rampup_rate, fx(0.002));
    assert_eq!(cfg.squeeze_rampup_iters, 0);
    assert_eq!(cfg.squeeze_final_iters, 0);
    assert_eq!(cfg.squeeze_final_force, fx(200.0));
    assert_eq!(cfg.squeeze_final_initial_rate, fx(0.002));
    assert_eq!(cfg.coords_to_squeeze, 0);
    assert_eq!(cfg.n_out_coords, 3);
}

#[test]
fn config_squeeze_defaults() {
    let mut opts = RunOptions::new_default();
    opts.retain_coords_from_squeezing = Some(1);
    opts.n_iters = Some(40);
    let cfg = resolve_config(&opts, fx(2.0), 3);
    assert_eq!(cfg.n_iters, 40);
    assert_eq!(cfg.warmup_iters, 20);
    assert_eq!(cfg.squeeze_rampup_iters, 40);
    assert_eq!(cfg.squeeze_final_iters, 40);
    assert_eq!(cfg.coords_to_squeeze, 2);
    assert_eq!(cfg.central_force, fx(40.0));
    assert_eq!(cfg.squeeze_final_force, fx(400.0));
}

#[test]
fn reduction_runs_all_phases() {
    let input = input_matrix(vec![vec![0.0], vec![1.0], vec![2.0], vec![3.0]]);
    let weights = vec![fx(1.0); 4];
    let mut opts = RunOptions::new_default();
    opts.n_iters = Some(10);
    opts.retain_coords_from_squeezing = Some(1);
    opts.squeeze_rampup_iters = Some(5);
    opts.squeeze_final_iters = Some(7);
    let (st, iters) = run_reduction(&input, weights, 2, &opts);
    // 10 main + 1 squeezed dimension * 5 rampup + 7 final
    assert_eq!(iters, 22);
    assert_eq!(st.coords.rows, 4);
    assert_eq!(st.coords.cols, 2);
    for j in 0..4 {
        for c in 0..2 {
            let v = st.coords.data[j][c];
            assert!(0 <= v && v <= fx(1.0));
        }
    }
}

#[test]
fn identical_seeds_give_identical_runs() {
    let input = input_matrix(vec![
        vec![0.0, 5.0],
        vec![1.0, 4.0],
        vec![2.0, 3.0],
        vec![3.0, 1.0],
        vec![4.0, 0.0],
    ]);
    let mut opts = RunOptions::new_default();
    opts.n_iters = Some(30);
    opts.random_seed = Some(42);
    let (st1, it1) = run_reduction(&input, vec![fx(1.0); 5], 2, &opts);
    let (st2, it2) = run_reduction(&input, vec![fx(1.0); 5], 2, &opts);
    assert_eq!(it1, it2);
    assert_eq!(st1.coords.data, st2.coords.data);
    assert_eq!(st1.inertias.data, st2.inertias.data);
    assert_eq!(st1.movement_scaler, st2.movement_scaler);
}

#[test]
fn squeeze_flattens_surplus_coordinate() {
    let input = input_matrix(vec![
        vec![0.0],
        vec![1.0],
        vec![2.0],
        vec![3.0],
        vec![4.0],
        vec![5.0],
    ]);
    let mut opts = RunOptions::new_default();
    opts.retain_coords_from_squeezing = Some(1);
    opts.random_seed = Some(7);
    let (st, _) = run_reduction(&input, vec![fx(1.0); 6], 2, &opts);
    // the squeezed coordinate collapses to the middle...
    for j in 0..6 {
        let dev = (st.coords.data[j][1] - fx(0.5)).abs();
        assert!(dev <= fx(0.01), "particle {} squeezed coordinate off by {}", j, dev);
    }
    // ...while the retained coordinate keeps meaningful spread
    let retained: Vec<i64> = (0..6).map(|j| st.coords.data[j][0]).collect();
    let spread = retained.iter().max().unwrap() - retained.iter().min().unwrap();
    assert!(spread > fx(0.05), "retained coordinate collapsed: spread {}", spread);
}

#[test]
fn geo_interp_start_is_first_endpoint() {
    assert_eq!(geo_interp(fx(3.0), fx(30.0), 0, 8), fx(3.0));
}

#[test]
fn zero_iterations_do_nothing() {
    let input = input_matrix(vec![vec![0.0], vec![1.0]]);
    let mut opts = RunOptions::new_default();
    opts.n_iters = Some(0);
    let (st, iters) = run_reduction(&input, vec![fx(1.0); 2], 2, &opts);
    assert_eq!(iters, 0);
    assert_eq!(st.coords.rows, 2);
    assert_eq!(st.coords.cols, 2);
    for j in 0..2 {
        for c in 0..2 {
            let v = st.coords.data[j][c];
            assert!(0 <= v && v < fx(1.0));
        }
    }
}

#[test]
fn single_particle_run_stays_bounded() {
    let input = input_matrix(vec![vec![42.0]]);
    let mut opts = RunOptions::new_default();
    opts.n_iters = Some(25);
    let (st, iters) = run_reduction(&input, vec![fx(1.0)], 3, &opts);
    assert_eq!(iters, 25);
    for c in 0..3 {
        let v = st.coords.data[0][c];
        assert!(0 <= v && v <= fx(1.0));
    }
}

#[test]
fn driver_ticks_match_run() {
    let input = input_matrix(vec![vec![0.0], vec![1.0], vec![2.0]]);
    let mut opts = RunOptions::new_default();
    opts.n_iters = Some(8);
    opts.random_seed = Some(3);

    // drive tick by tick, as a snapshot observer would
    let affinities = build_particle_affinities(&input, fx(0.2));
    let avgaff = average_affinity(&affinities);
    let cfg = resolve_config(&opts, avgaff, 2);
    let mut st = init_state(3, 3, 2, vec![fx(1.0); 3], affinities);
    let mut driver = Driver::new(cfg);
    let mut observed = 0usize;
    while !driver.done() {
        assert_eq!(driver.iterations(), observed);
        driver.tick(&mut st);
        observed += 1;
    }
    assert_eq!(observed, 8);

    // the one-call pipeline with the same seed lands on the same coordinates
    let (st2, iters) = run_reduction(&input, vec![fx(1.0); 3], 2, &opts);
    assert_eq!(iters, 8);
    assert_eq!(st.coords.data, st2.coords.data);
}
