//! Construction of the pairwise affinity (dissimilarity) matrix.
//!
//! The affinity of two rows is a constant "same particle" repulsion plus the
//! sum of the absolute per-column differences of the rows' input values.  The
//! formula is applied uniformly to every ordered pair: at `j == k` the
//! difference sum vanishes, so the diagonal holds the constant alone and no
//! special case is needed.

use vstd::prelude::*;

use crate::fixed::{
    clamp_wide, clamped, div_trunc, div_trunc_wide, fabs, fadd, fdiv, fmul, fsub, spec_fabs,
    spec_fadd, spec_fdiv, spec_fmul, spec_fsub, spec_sqrt_fixed, sqrt_fixed, CLAMP_MAX,
};
use crate::matrix::Matrix;

verus! {

/// The affinity of rows `a` and `b` over the first `c` columns: the constant
/// `spf` plus the saturating sum of absolute per-column differences.
pub open spec fn spec_affinity(a: Seq<i64>, b: Seq<i64>, c: int, spf: i64) -> i64
    decreases c,
{
    if c <= 0 {
        spf
    } else {
        spec_fadd(spec_affinity(a, b, c - 1, spf), spec_fabs(spec_fsub(a[c - 1], b[c - 1])))
    }
}

/// The absolute difference of two values does not depend on their order.
proof fn lemma_abs_sub_comm(x: i64, y: i64)
    ensures
        spec_fabs(spec_fsub(x, y)) == spec_fabs(spec_fsub(y, x)),
{
}

/// Affinity is symmetric in the two rows.
pub proof fn lemma_affinity_symmetric(a: Seq<i64>, b: Seq<i64>, c: int, spf: i64)
    ensures
        spec_affinity(a, b, c, spf) == spec_affinity(b, a, c, spf),
    decreases c,
{
    if c > 0 {
        lemma_affinity_symmetric(a, b, c - 1, spf);
        lemma_abs_sub_comm(a[c - 1], b[c - 1]);
    }
}

/// The affinity of a row with itself is the constant alone.
pub proof fn lemma_affinity_diagonal(a: Seq<i64>, c: int, spf: i64)
    requires
        -CLAMP_MAX <= spf <= CLAMP_MAX,
    ensures
        spec_affinity(a, a, c, spf) == spf,
    decreases c,
{
    if c > 0 {
        lemma_affinity_diagonal(a, c - 1, spf);
    }
}

/// Affinities stay in the fixed-point range, and are nonnegative whenever the
/// constant is.
proof fn lemma_affinity_range(a: Seq<i64>, b: Seq<i64>, c: int, spf: i64)
    requires
        -CLAMP_MAX <= spf <= CLAMP_MAX,
    ensures
        -CLAMP_MAX <= spec_affinity(a, b, c, spf) <= CLAMP_MAX,
        spf >= 0 ==> spec_affinity(a, b, c, spf) >= 0,
    decreases c,
{
    if c > 0 {
        lemma_affinity_range(a, b, c - 1, spf);
    }
}

/// Build the full affinity matrix of `input` (one row per particle): entry
/// `(j, k)` is `same_particle_force` plus the summed absolute differences of
/// input rows `j` and `k`.  The result is symmetric, and its diagonal is the
/// constant alone.
pub fn build_particle_affinities(input: &Matrix, same_particle_force: i64) -> (m: Matrix)
    requires
        input.wf(),
        -CLAMP_MAX <= same_particle_force <= CLAMP_MAX,
    ensures
        m.wf(),
        m.rows == input.rows,
        m.cols == input.rows,
        forall|j: int, k: int|
            0 <= j < input.rows && 0 <= k < input.rows ==> #[trigger] m@[j][k]
                == spec_affinity(input@[j], input@[k], input.cols as int, same_particle_force),
        forall|j: int, k: int|
            0 <= j < input.rows && 0 <= k < input.rows ==> #[trigger] m@[j][k] == m@[k][j],
        forall|j: int|
            0 <= j < input.rows ==> #[trigger] m@[j][j] == same_particle_force,
        same_particle_force >= 0 ==> forall|j: int, k: int|
            0 <= j < input.rows && 0 <= k < input.rows ==> #[trigger] m@[j][k] >= 0,
{
    let n = input.nrows();
    let cn = input.ncols();
    let ghost spf = same_particle_force;
    let mut m = Matrix::new_filled(n, n, same_particle_force);
    let mut j: usize = 0;
    while j < n
        invariant
            input.wf(),
            m.wf(),
            input.rows == n,
            input.cols == cn,
            m.rows == n,
            m.cols == n,
            -CLAMP_MAX <= spf <= CLAMP_MAX,
            spf == same_particle_force,
            j <= n,
            forall|a: int, b: int|
                0 <= a < j && 0 <= b < n ==> #[trigger] m@[a][b]
                    == spec_affinity(input@[a], input@[b], cn as int, spf),
        decreases n - j,
    {
        let mut k: usize = 0;
        while k < n
            invariant
                input.wf(),
                m.wf(),
                input.rows == n,
                input.cols == cn,
                m.rows == n,
                m.cols == n,
                -CLAMP_MAX <= spf <= CLAMP_MAX,
                spf == same_particle_force,
                j < n,
                k <= n,
                forall|a: int, b: int|
                    0 <= a < j && 0 <= b < n ==> #[trigger] m@[a][b]
                        == spec_affinity(input@[a], input@[b], cn as int, spf),
                forall|b: int|
                    0 <= b < k ==> #[trigger] m@[j as int][b]
                        == spec_affinity(input@[j as int], input@[b], cn as int, spf),
            decreases n - k,
        {
            let mut acc: i64 = same_particle_force;
            let mut c: usize = 0;
            while c < cn
                invariant
                    input.wf(),
                    input.rows == n,
                    input.cols == cn,
                    -CLAMP_MAX <= spf <= CLAMP_MAX,
                    spf == same_particle_force,
                    j < n,
                    k < n,
                    c <= cn,
                    acc == spec_affinity(input@[j as int], input@[k as int], c as int, spf),
                    -CLAMP_MAX <= acc <= CLAMP_MAX,
                decreases cn - c,
            {
                let d = fsub(input.get(j, c), input.get(k, c));
                acc = fadd(acc, fabs(d));
                c += 1;
            }
            m.set(j, k, acc);
            k += 1;
        }
        j += 1;
    }
    proof {
        assert forall|a: int, b: int|
            0 <= a < n && 0 <= b < n implies #[trigger] m@[a][b] == m@[b][a] by {
            lemma_affinity_symmetric(input@[a], input@[b], cn as int, spf);
        }
        assert forall|a: int| 0 <= a < n implies #[trigger] m@[a][a] == spf by {
            lemma_affinity_diagonal(input@[a], cn as int, spf);
        }
        if spf >= 0 {
            assert forall|a: int, b: int|
                0 <= a < n && 0 <= b < n implies #[trigger] m@[a][b] >= 0 by {
                lemma_affinity_range(input@[a], input@[b], cn as int, spf);
            }
        }
    }
    m
}

/// The sum of the first `c` entries of a row, as a mathematical integer.
pub open spec fn spec_row_total(row: Seq<i64>, c: int) -> int
    decreases c,
{
    if c <= 0 {
        0
    } else {
        spec_row_total(row, c - 1) + row[c - 1]
    }
}

/// The sum of all entries of the first `j` rows, as a mathematical integer.
pub open spec fn spec_total(s: Seq<Seq<i64>>, j: int, cols: int) -> int
    decreases j,
{
    if j <= 0 {
        0
    } else {
        spec_total(s, j - 1, cols) + spec_row_total(s[j - 1], cols)
    }
}

proof fn lemma_row_total_bound(row: Seq<i64>, c: int)
    requires
        0 <= c,
        forall|b: int| 0 <= b < c ==> -CLAMP_MAX <= #[trigger] row[b] <= CLAMP_MAX,
    ensures
        -(c * CLAMP_MAX) <= spec_row_total(row, c) <= c * CLAMP_MAX,
    decreases c,
{
    if c > 0 {
        lemma_row_total_bound(row, c - 1);
        assert((c - 1) * CLAMP_MAX + CLAMP_MAX == c * CLAMP_MAX) by (nonlinear_arith);
    }
}

proof fn lemma_total_bound(s: Seq<Seq<i64>>, j: int, cols: int)
    requires
        0 <= j,
        0 <= cols,
        forall|a: int, b: int|
            0 <= a < j && 0 <= b < cols ==> -CLAMP_MAX <= #[trigger] s[a][b] <= CLAMP_MAX,
    ensures
        -(j * cols * CLAMP_MAX) <= spec_total(s, j, cols) <= j * cols * CLAMP_MAX,
    decreases j,
{
    if j > 0 {
        lemma_total_bound(s, j - 1, cols);
        lemma_row_total_bound(s[j - 1], cols);
        assert((j - 1) * cols * CLAMP_MAX + cols * CLAMP_MAX == j * cols * CLAMP_MAX)
            by (nonlinear_arith);
    }
}

/// The arithmetic mean of all entries of `m`: their total divided by the
/// number of entries (division truncates toward zero).  Used to scale the
/// central-force parameters to the dataset's characteristic dissimilarity.
pub fn average_affinity(m: &Matrix) -> (r: i64)
    requires
        m.wf(),
        m.rows > 0,
        m.cols > 0,
    ensures
        r as int == div_trunc(
            spec_total(m@, m.rows as int, m.cols as int),
            (m.rows as int) * (m.cols as int),
        ),
        -CLAMP_MAX <= r <= CLAMP_MAX,
{
    let rows = m.nrows();
    let cols = m.ncols();
    let mut sum: i128 = 0;
    let mut j: usize = 0;
    while j < rows
        invariant
            m.wf(),
            rows == m.rows,
            cols == m.cols,
            rows > 0,
            cols > 0,
            j <= rows,
            sum as int == spec_total(m@, j as int, cols as int),
            -((j as int) * (cols as int) * (CLAMP_MAX as int)) <= sum as int <= (j as int) * (
            cols as int) * (CLAMP_MAX as int),
        decreases rows - j,
    {
        let mut c: usize = 0;
        while c < cols
            invariant
                m.wf(),
                rows == m.rows,
                cols == m.cols,
                rows > 0,
                cols > 0,
                j < rows,
                c <= cols,
                sum as int == spec_total(m@, j as int, cols as int) + spec_row_total(
                    m@[j as int],
                    c as int,
                ),
                -(((j as int) * (cols as int) + c as int) * (CLAMP_MAX as int)) <= sum as int
                    <= ((j as int) * (cols as int) + c as int) * (CLAMP_MAX as int),
            decreases cols - c,
        {
            let e = m.get(j, c);
            proof {
                assert(((j as int) * (cols as int) + c as int) * (CLAMP_MAX as int)
                    + CLAMP_MAX as int == ((j as int) * (cols as int) + c as int + 1) * (
                CLAMP_MAX as int)) by (nonlinear_arith);
                assert((j as int) * (cols as int) + c as int + 1 <= 0x1_0000_0000_0000_0000)
                    by (nonlinear_arith)
                    requires
                        0 <= j as int,
                        (j as int) + 1 <= 0x1_0000_0000,
                        0 <= c as int,
                        (c as int) + 1 <= (cols as int),
                        (cols as int) <= 0x1_0000_0000,
                ;
                assert(((j as int) * (cols as int) + c as int + 1) * (CLAMP_MAX as int)
                    <= 85070591730234615865843651857942052864) by (nonlinear_arith)
                    requires
                        0 <= (j as int) * (cols as int) + c as int + 1
                            <= 0x1_0000_0000_0000_0000,
                ;
            }
            sum = sum + (e as i128);
            c += 1;
        }
        proof {
            assert((j as int) * (cols as int) + cols as int == (j as int + 1) * (cols as int))
                by (nonlinear_arith);
            assert(((j as int) * (cols as int) + cols as int) * (CLAMP_MAX as int) == (j as int
                + 1) * (cols as int) * (CLAMP_MAX as int)) by (nonlinear_arith);
        }
        j += 1;
    }
    proof {
        assert((rows as int) * (cols as int) > 0) by (nonlinear_arith)
            requires
                rows as int > 0,
                cols as int > 0,
        ;
        assert((rows as int) * (cols as int) <= 0x1_0000_0000_0000_0000) by (nonlinear_arith)
            requires
                0 < rows as int,
                (rows as int) <= 0x1_0000_0000,
                0 < cols as int,
                (cols as int) <= 0x1_0000_0000,
        ;
    }
    let count: i128 = (rows as i128) * (cols as i128);
    let q = div_trunc_wide(sum, count);
    proof {
        let cnt = count as int;
        let bound = cnt * (CLAMP_MAX as int);
        if sum >= 0 {
            vstd::arithmetic::div_mod::lemma_div_is_ordered(sum as int, bound, cnt);
            vstd::arithmetic::div_mod::lemma_div_multiples_vanish(CLAMP_MAX as int, cnt);
            vstd::arithmetic::div_mod::lemma_div_pos_is_pos(sum as int, cnt);
        } else {
            vstd::arithmetic::div_mod::lemma_div_is_ordered(-(sum as int), bound, cnt);
            vstd::arithmetic::div_mod::lemma_div_multiples_vanish(CLAMP_MAX as int, cnt);
            vstd::arithmetic::div_mod::lemma_div_pos_is_pos(-(sum as int), cnt);
        }
    }
    q as i64
}

/// The sum of column `c` over the first `j` rows, as a mathematical integer.
pub open spec fn spec_col_sum(s: Seq<Seq<i64>>, c: int, j: int) -> int
    decreases j,
{
    if j <= 0 {
        0
    } else {
        spec_col_sum(s, c, j - 1) + s[j - 1][c]
    }
}

/// The mean of column `c` over `n` rows (integer division truncates).
pub open spec fn spec_col_avg(s: Seq<Seq<i64>>, c: int, n: int) -> i64
    recommends
        n > 0,
{
    clamped(div_trunc(spec_col_sum(s, c, n), n))
}

/// The squared Euclidean norm of column `c` after the mean is subtracted,
/// accumulated over the first `j` rows with saturating fixed-point
/// arithmetic.
pub open spec fn spec_col_sqnorm(s: Seq<Seq<i64>>, c: int, avg: i64, j: int) -> i64
    decreases j,
{
    if j <= 0 {
        0
    } else {
        let d = spec_fsub(s[j - 1][c], avg);
        spec_fadd(spec_col_sqnorm(s, c, avg, j - 1), spec_fmul(d, d))
    }
}

/// The Euclidean norm of the mean-subtracted column `c`.
pub open spec fn spec_col_norm(s: Seq<Seq<i64>>, c: int, n: int) -> i64
    recommends
        n > 0,
{
    spec_sqrt_fixed(spec_fmax_zero(spec_col_sqnorm(s, c, spec_col_avg(s, c, n), n)))
}

/// Zero floor (the squared norm is nonnegative anyway; the floor keeps the
/// root total).
pub open spec fn spec_fmax_zero(x: i64) -> i64 {
    if x < 0 {
        0
    } else {
        x
    }
}

proof fn lemma_col_sum_bound(s: Seq<Seq<i64>>, c: int, j: int)
    requires
        0 <= j,
        forall|a: int| 0 <= a < j ==> -CLAMP_MAX <= #[trigger] s[a][c] <= CLAMP_MAX,
    ensures
        -(j * CLAMP_MAX) <= spec_col_sum(s, c, j) <= j * CLAMP_MAX,
    decreases j,
{
    if j > 0 {
        lemma_col_sum_bound(s, c, j - 1);
        assert((j - 1) * CLAMP_MAX + CLAMP_MAX == j * CLAMP_MAX) by (nonlinear_arith);
    }
}

/// Rescale every column of `m` to zero mean and unit Euclidean norm: the
/// column mean is subtracted, then every entry is divided by the centred
/// column's norm.  A column whose centred norm is zero (all entries equal)
/// has no unit rescaling; in that case nothing is changed and `false` comes
/// back.  A preprocessing utility, not part of the main pipeline.
pub fn normalize(m: &mut Matrix) -> (ok: bool)
    requires
        old(m).wf(),
        old(m).rows > 0,
    ensures
        final(m).wf(),
        final(m).rows == old(m).rows,
        final(m).cols == old(m).cols,
        ok <==> (forall|c: int|
            0 <= c < old(m).cols ==> #[trigger] spec_col_norm(
                old(m)@,
                c,
                old(m).rows as int,
            ) > 0),
        !ok ==> final(m)@ == old(m)@,
        ok ==> forall|j: int, c: int|
            0 <= j < old(m).rows && 0 <= c < old(m).cols ==> #[trigger] final(m)@[j][c]
                == spec_fdiv(
                spec_fsub(old(m)@[j][c], spec_col_avg(old(m)@, c, old(m).rows as int)),
                spec_col_norm(old(m)@, c, old(m).rows as int),
            ),
{
    let rows = m.nrows();
    let cols = m.ncols();
    let ghost o0 = m@;
    let mut avgs: Vec<i64> = Vec::new();
    let mut norms: Vec<i64> = Vec::new();
    let mut ok = true;
    let mut c: usize = 0;
    while c < cols
        invariant
            m.wf(),
            m.rows == rows,
            m.cols == cols,
            rows > 0,
            m@ == o0,
            c <= cols,
            avgs@.len() == c,
            norms@.len() == c,
            forall|b: int|
                0 <= b < c ==> #[trigger] avgs@[b] == spec_col_avg(o0, b, rows as int),
            forall|b: int|
                0 <= b < c ==> #[trigger] norms@[b] == spec_col_norm(o0, b, rows as int),
            ok <==> (forall|b: int|
                0 <= b < c ==> #[trigger] spec_col_norm(o0, b, rows as int) > 0),
        decreases cols - c,
    {
        let mut sum: i128 = 0;
        let mut j: usize = 0;
        while j < rows
            invariant
                m.wf(),
                m.rows == rows,
                m.cols == cols,
                m@ == o0,
                c < cols,
                j <= rows,
                sum as int == spec_col_sum(o0, c as int, j as int),
                -((j as int) * (CLAMP_MAX as int)) <= sum as int <= (j as int) * (
                CLAMP_MAX as int),
            decreases rows - j,
        {
            proof {
                assert((j as int) * (CLAMP_MAX as int) + CLAMP_MAX as int == (j as int + 1) * (
                CLAMP_MAX as int)) by (nonlinear_arith);
                assert((j as int + 1) * (CLAMP_MAX as int)
                    < 85070591730234615865843651857942052864) by (nonlinear_arith)
                    requires
                        0 <= j as int,
                        (j as int) < 0x1_0000_0000,
                ;
            }
            sum = sum + (m.get(j, c) as i128);
            j += 1;
        }
        let avg = clamp_wide(div_trunc_wide(sum, rows as i128));
        let mut sqn: i64 = 0;
        let mut j: usize = 0;
        while j < rows
            invariant
                m.wf(),
                m.rows == rows,
                m.cols == cols,
                m@ == o0,
                c < cols,
                j <= rows,
                avg == spec_col_avg(o0, c as int, rows as int),
                sqn == spec_col_sqnorm(o0, c as int, avg, j as int),
                0 <= sqn,
            decreases rows - j,
        {
            let d = fsub(m.get(j, c), avg);
            let t = fmul(d, d);
            proof {
                assert(d * d >= 0) by (nonlinear_arith);
                vstd::arithmetic::div_mod::lemma_div_pos_is_pos(d * d, 1_000_000);
            }
            sqn = fadd(sqn, t);
            j += 1;
        }
        let norm = sqrt_fixed(sqn);
        if norm == 0 {
            ok = false;
        }
        avgs.push(avg);
        norms.push(norm);
        proof {
            assert(norm == spec_col_norm(o0, c as int, rows as int));
            assert(norm >= 0);
        }
        c += 1;
    }
    if !ok {
        return false;
    }
    let mut j: usize = 0;
    while j < rows
        invariant
            m.wf(),
            m.rows == rows,
            m.cols == cols,
            rows > 0,
            j <= rows,
            avgs@.len() == cols,
            norms@.len() == cols,
            forall|b: int|
                0 <= b < cols ==> #[trigger] avgs@[b] == spec_col_avg(o0, b, rows as int),
            forall|b: int|
                0 <= b < cols ==> #[trigger] norms@[b] == spec_col_norm(o0, b, rows as int),
            forall|b: int| 0 <= b < cols ==> #[trigger] norms@[b] > 0,
            forall|a: int, b: int|
                #![trigger m@[a][b]]
                0 <= a < j && 0 <= b < cols ==> m@[a][b] == spec_fdiv(
                    spec_fsub(o0[a][b], spec_col_avg(o0, b, rows as int)),
                    spec_col_norm(o0, b, rows as int),
                ),
            forall|a: int, b: int|
                #![trigger m@[a][b]]
                j <= a < rows && 0 <= b < cols ==> m@[a][b] == o0[a][b],
        decreases rows - j,
    {
        let mut c: usize = 0;
        while c < cols
            invariant
                m.wf(),
                m.rows == rows,
                m.cols == cols,
                rows > 0,
                j < rows,
                c <= cols,
                avgs@.len() == cols,
                norms@.len() == cols,
                forall|b: int|
                    0 <= b < cols ==> #[trigger] avgs@[b] == spec_col_avg(o0, b, rows as int),
                forall|b: int|
                    0 <= b < cols ==> #[trigger] norms@[b] == spec_col_norm(o0, b, rows as int),
                forall|b: int| 0 <= b < cols ==> #[trigger] norms@[b] > 0,
                forall|a: int, b: int|
                    #![trigger m@[a][b]]
                    0 <= a < j && 0 <= b < cols ==> m@[a][b] == spec_fdiv(
                        spec_fsub(o0[a][b], spec_col_avg(o0, b, rows as int)),
                        spec_col_norm(o0, b, rows as int),
                    ),
                forall|b: int|
                    #![trigger m@[j as int][b]]
                    0 <= b < c ==> m@[j as int][b] == spec_fdiv(
                        spec_fsub(o0[j as int][b], spec_col_avg(o0, b, rows as int)),
                        spec_col_norm(o0, b, rows as int),
                    ),
                forall|b: int|
                    #![trigger m@[j as int][b]]
                    c <= b < cols ==> m@[j as int][b] == o0[j as int][b],
                forall|a: int, b: int|
                    #![trigger m@[a][b]]
                    j < a < rows && 0 <= b < cols ==> m@[a][b] == o0[a][b],
            decreases cols - c,
        {
            let d = fsub(m.get(j, c), avgs[c]);
            let v = fdiv(d, norms[c]);
            m.set(j, c, v);
            c += 1;
        }
        j += 1;
    }
    true
}

} // verus!
