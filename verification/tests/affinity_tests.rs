use csvdimreduce::affinity::{average_affinity, build_particle_affinities, normalize};
use csvdimreduce::matrix::Matrix;

fn fx(x: f64) -> i64 {
    (x * 1_000_000.0).round() as i64
}

fn mat(rows: usize, cols: usize, vals: Vec<Vec<f64>>) -> Matrix {
    let data: Vec<Vec<i64>> = vals.iter().map(|r| r.iter().map(|&x| fx(x)).collect()).collect();
    Matrix { rows, cols, data }
}

#[test]
fn affinity_formula_exact() {
    let input = mat(2, 2, vec![vec![0.0, 0.0], vec![1.0, 2.0]]);
    let m = build_particle_affinities(&input, fx(0.2));
    // 0.2 + |0 - 1| + |0 - 2| = 3.2
    assert_eq!(m.data[0][1], fx(3.2));
    assert_eq!(m.data[1][0], fx(3.2));
}

#[test]
fn affinity_symmetry() {
    let input = mat(
        3,
        3,
        vec![vec![0.5, -1.25, 2.0], vec![3.5, 0.125, -0.75], vec![-2.0, 1.0, 0.0]],
    );
    let m = build_particle_affinities(&input, fx(0.2));
    for j in 0..3 {
        for k in 0..3 {
            assert_eq!(m.data[j][k], m.data[k][j]);
        }
    }
}

#[test]
fn affinity_diagonal_is_constant() {
    let input = mat(3, 2, vec![vec![4.0, 5.0], vec![-1.0, 0.25], vec![100.0, -3.5]]);
    let m = build_particle_affinities(&input, fx(0.7));
    for j in 0..3 {
        assert_eq!(m.data[j][j], fx(0.7));
    }
}

#[test]
fn average_affinity_is_sum_over_size() {
    let m = Matrix { rows: 2, cols: 2, data: vec![vec![1, 2], vec![3, 4]] };
    // (1 + 2 + 3 + 4) / 4 = 2 (integer units)
    assert_eq!(average_affinity(&m), 2);
    let m2 = Matrix {
        rows: 2,
        cols: 2,
        data: vec![vec![fx(1.0), fx(2.0)], vec![fx(3.0), fx(4.0)]],
    };
    assert_eq!(average_affinity(&m2), fx(2.5));
}

#[test]
fn normalize_zero_mean_unit_norm() {
    let mut m = mat(3, 1, vec![vec![1.0], vec![2.0], vec![3.0]]);
    let ok = normalize(&mut m);
    assert!(ok);
    // centred column (-1, 0, 1), norm sqrt(2); entries +-0.7071, truncated
    assert_eq!(m.data[1][0], 0);
    assert!((m.data[0][0] - fx(-0.707106)).abs() <= 2);
    assert!((m.data[2][0] - fx(0.707106)).abs() <= 2);
    assert_eq!(m.data[0][0], -m.data[2][0]);
}

#[test]
fn normalize_rejects_constant_column() {
    let mut m = mat(3, 2, vec![vec![1.0, 5.0], vec![2.0, 5.0], vec![3.0, 5.0]]);
    let before = m.data.clone();
    let ok = normalize(&mut m);
    assert!(!ok);
    assert_eq!(m.data, before);
}

#[test]
fn average_affinity_single_entry() {
    let m = Matrix { rows: 1, cols: 1, data: vec![vec![fx(0.2)]] };
    assert_eq!(average_affinity(&m), fx(0.2));
}

#[test]
fn average_affinity_with_negative_entries() {
    let m = Matrix { rows: 2, cols: 2, data: vec![vec![fx(-3.0), fx(1.0)], vec![fx(1.0), fx(-1.0)]] };
    // (-3 + 1 + 1 - 1) / 4 = -0.5
    assert_eq!(average_affinity(&m), fx(-0.5));
}
