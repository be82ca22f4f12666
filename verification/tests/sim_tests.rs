use csvdimreduce::matrix::Matrix;
use csvdimreduce::sim::{Params, State};

fn fx(x: f64) -> i64 {
    (x * 1_000_000.0).round() as i64
}

fn zeros(rows: usize, cols: usize) -> Matrix {
    Matrix { rows, cols, data: vec![vec![0i64; cols]; rows] }
}

fn from_vals(vals: Vec<Vec<f64>>) -> Matrix {
    let rows = vals.len();
    let cols = vals[0].len();
    let data: Vec<Vec<i64>> = vals.iter().map(|r| r.iter().map(|&x| fx(x)).collect()).collect();
    Matrix { rows, cols, data }
}

/// Three particles in two dimensions, affinity 1.0 everywhere but 0.2 on the
/// diagonal, equal weights.
fn three_particle_state(coords: Vec<Vec<f64>>) -> State {
    let affinities = Matrix {
        rows: 3,
        cols: 3,
        data: vec![
            vec![fx(0.2), fx(1.0), fx(1.0)],
            vec![fx(1.0), fx(0.2), fx(1.0)],
            vec![fx(1.0), fx(1.0), fx(0.2)],
        ],
    };
    State {
        coords: from_vals(coords),
        forces: zeros(3, 2),
        inertias: zeros(3, 2),
        weights: vec![fx(1.0); 3],
        affinities,
        movement_scaler: 0,
    }
}

fn no_force_params(rate: f64) -> Params {
    Params {
        rate: fx(rate),
        central_force: 0,
        squeeze_from: 2,
        squeeze_force: 0,
        squeeze_force2: 0,
        inertia_multiplier: fx(0.9),
    }
}

fn sq_dist(st: &State, a: usize, b: usize) -> f64 {
    let mut s = 0.0f64;
    for c in 0..st.coords.cols {
        let d = (st.coords.data[a][c] - st.coords.data[b][c]) as f64 / 1e6;
        s += d * d;
    }
    s
}

#[test]
fn repulsion_moves_particles_apart_within_rate() {
    let mut st = three_particle_state(vec![
        vec![0.2, 0.3],
        vec![0.8, 0.35],
        vec![0.5, 0.75],
    ]);
    let before = st.coords.data.clone();
    let d01 = sq_dist(&st, 0, 1);
    let d02 = sq_dist(&st, 0, 2);
    let d12 = sq_dist(&st, 1, 2);
    st.step(&no_force_params(0.1));
    // every pair ends further apart
    assert!(sq_dist(&st, 0, 1) > d01);
    assert!(sq_dist(&st, 0, 2) > d02);
    assert!(sq_dist(&st, 1, 2) > d12);
    // no coordinate moved further than the rate, and all stay inside [0, 1]
    for j in 0..3 {
        for c in 0..2 {
            let moved = (st.coords.data[j][c] - before[j][c]).abs();
            assert!(moved <= fx(0.1));
            assert!(0 <= st.coords.data[j][c] && st.coords.data[j][c] <= fx(1.0));
        }
    }
}

#[test]
fn step_keeps_shapes() {
    let mut st = three_particle_state(vec![
        vec![0.1, 0.9],
        vec![0.4, 0.6],
        vec![0.7, 0.2],
    ]);
    for _ in 0..5 {
        st.step(&no_force_params(0.05));
        assert_eq!(st.coords.rows, 3);
        assert_eq!(st.coords.cols, 2);
        assert_eq!(st.forces.rows, 3);
        assert_eq!(st.forces.cols, 2);
        assert_eq!(st.inertias.rows, 3);
        assert_eq!(st.inertias.cols, 2);
        assert_eq!(st.coords.data.len(), 3);
        for j in 0..3 {
            assert_eq!(st.coords.data[j].len(), 2);
        }
        assert_eq!(st.weights.len(), 3);
        assert_eq!(st.affinities.rows, 3);
        assert_eq!(st.affinities.cols, 3);
    }
}

#[test]
fn coincident_particles_step_safely() {
    let mut st = three_particle_state(vec![
        vec![0.5, 0.5],
        vec![0.5, 0.5],
        vec![0.5, 0.5],
    ]);
    for _ in 0..3 {
        let maxf = st.step(&no_force_params(0.1));
        assert!(maxf >= 0);
        for j in 0..3 {
            for c in 0..2 {
                let v = st.coords.data[j][c];
                assert!(0 <= v && v <= fx(1.0));
            }
        }
    }
}

#[test]
fn bounded_output_under_extreme_parameters() {
    let mut st = three_particle_state(vec![
        vec![0.0, 1.0],
        vec![1.0, 0.0],
        vec![0.013, 0.987],
    ]);
    let wild = Params {
        rate: fx(1000.0),
        central_force: -fx(50.0),
        squeeze_from: 1,
        squeeze_force: fx(123456.0),
        squeeze_force2: -fx(9.0),
        inertia_multiplier: fx(3.0),
    };
    for _ in 0..20 {
        st.step(&wild);
        for j in 0..3 {
            for c in 0..2 {
                let v = st.coords.data[j][c];
                assert!(0 <= v && v <= fx(1.0));
            }
        }
    }
}

#[test]
fn strong_central_force_pulls_to_middle() {
    let mut st = three_particle_state(vec![
        vec![0.1, 0.2],
        vec![0.9, 0.3],
        vec![0.4, 0.85],
    ]);
    let p = Params {
        rate: fx(0.01),
        central_force: fx(10000.0),
        squeeze_from: 2,
        squeeze_force: 0,
        squeeze_force2: 0,
        inertia_multiplier: fx(0.9),
    };
    for _ in 0..400 {
        st.step(&p);
    }
    for j in 0..3 {
        for c in 0..2 {
            let dev = (st.coords.data[j][c] - fx(0.5)).abs();
            assert!(dev <= fx(0.05), "coordinate {} of particle {} is off: {}", c, j, dev);
        }
    }
}
