//! The per-iteration physics of the particle simulation: force accumulation,
//! adaptive step scaling, momentum integration and clamping.
//!
//! Every quantity `step` writes is pinned exactly by its contract, as a
//! function of the state before the call and the parameters, so a whole run
//! is a mathematical function of its inputs: two runs from equal states with
//! equal parameters produce equal states.

use vstd::prelude::*;

use crate::fixed::{
    fabs, fadd, fdiv, fmax, fmul, fmuldiv, fmuli, fsub, spec_fabs, spec_fadd, spec_fdiv,
    spec_fmax, spec_fmul, spec_fmuldiv, spec_fmuli, spec_fsub, spec_sqrt_fixed, sqrt_fixed,
    CLAMP_MAX, FORCE_EPS, HALF, SCALE, SQNORM_EPS,
};

use crate::matrix::Matrix;

verus! {

/// The schedule parameters of one simulation step.
///
/// Coordinates with index below `squeeze_from` feel `central_force`, the
/// coordinate exactly at `squeeze_from` feels `squeeze_force`, and the
/// coordinates above it feel `squeeze_force2`.
#[derive(Clone, Copy)]
pub struct Params {
    /// Target magnitude of the largest per-iteration displacement.
    pub rate: i64,
    /// Spring strength pulling retained coordinates toward one half.
    pub central_force: i64,
    /// Index of the coordinate currently being squeezed.
    pub squeeze_from: usize,
    /// Spring strength on the coordinate at `squeeze_from`.
    pub squeeze_force: i64,
    /// Spring strength on the coordinates above `squeeze_from`.
    pub squeeze_force2: i64,
    /// Per-step decay factor of the momentum buffer.
    pub inertia_multiplier: i64,
}

/// The simulation state: particle coordinates, the per-step force
/// accumulator, the momentum buffer, the read-only weights and affinities,
/// and the smoothed movement scaler.
pub struct State {
    /// Particle positions; row = particle, column = output coordinate.
    pub coords: Matrix,
    /// Force accumulator, rebuilt from scratch by every step.
    pub forces: Matrix,
    /// Momentum carried between steps, decayed by `inertia_multiplier`.
    pub inertias: Matrix,
    /// Per-particle weights; heavier particles are pushed less.
    pub weights: Vec<i64>,
    /// Pairwise affinities; read-only during the run.
    pub affinities: Matrix,
    /// Smoothed estimate of the largest force magnitude seen so far.
    pub movement_scaler: i64,
}

impl State {
    /// Shape and range soundness: the three particle buffers agree on their
    /// dimensions, the affinity matrix is square over the particles, the
    /// weights are positive, and the scaler is a nonnegative fixed-point
    /// value.
    pub open spec fn wf(&self) -> bool {
        &&& self.coords.wf()
        &&& self.forces.wf()
        &&& self.inertias.wf()
        &&& self.affinities.wf()
        &&& self.forces.rows == self.coords.rows
        &&& self.forces.cols == self.coords.cols
        &&& self.inertias.rows == self.coords.rows
        &&& self.inertias.cols == self.coords.cols
        &&& self.affinities.rows == self.coords.rows
        &&& self.affinities.cols == self.coords.rows
        &&& self.weights@.len() == self.coords.rows
        &&& forall|i: int|
            0 <= i < self.weights@.len() ==> 0 < #[trigger] self.weights@[i] <= CLAMP_MAX
        &&& 0 <= self.movement_scaler <= CLAMP_MAX
    }
}

/// The squared distance of particle rows `cj` and `cp` over the first `c`
/// coordinates, accumulated with saturating fixed-point arithmetic.
pub open spec fn spec_pair_sqnorm(cj: Seq<i64>, cp: Seq<i64>, c: int) -> i64
    decreases c,
{
    if c <= 0 {
        0
    } else {
        let dv = spec_fsub(cj[c - 1], cp[c - 1]);
        spec_fadd(spec_pair_sqnorm(cj, cp, c - 1), spec_fmul(dv, dv))
    }
}

/// The squared distance floored at `SQNORM_EPS`, so that coinciding
/// particles still repel finitely.
pub open spec fn spec_sqnorm_floored(cj: Seq<i64>, cp: Seq<i64>, d: int) -> i64 {
    spec_fmax(spec_pair_sqnorm(cj, cp, d), SQNORM_EPS)
}

/// The magnitude of the repulsion particle `p` exerts on particle `j`:
/// affinity over squared distance, scaled up by `p`'s weight and down by
/// `j`'s own.
pub open spec fn spec_repel(aff: i64, wp: i64, wj: i64, sq: i64) -> i64
    recommends
        sq > 0,
        wj > 0,
{
    spec_fdiv(spec_fmul(spec_fdiv(aff, sq), wp), wj)
}

/// Coordinate `c` of the repulsion vector particle `p` contributes to
/// particle `j`: the repulsion magnitude times the unit displacement.
pub open spec fn spec_pair_term(
    coords: Seq<Seq<i64>>,
    aff: Seq<Seq<i64>>,
    w: Seq<i64>,
    j: int,
    p: int,
    c: int,
    d: int,
) -> i64 {
    let sq = spec_sqnorm_floored(coords[j], coords[p], d);
    let norm = spec_sqrt_fixed(sq);
    spec_fmul(
        spec_repel(aff[j][p], w[p], w[j], sq),
        spec_fdiv(spec_fsub(coords[j][c], coords[p][c]), norm),
    )
}

/// Coordinate `c` of the total repulsion on particle `j` from the particles
/// below `p_upto` (the particle itself contributes nothing).
pub open spec fn spec_force_pairs(
    coords: Seq<Seq<i64>>,
    aff: Seq<Seq<i64>>,
    w: Seq<i64>,
    j: int,
    c: int,
    d: int,
    p_upto: int,
) -> i64
    decreases p_upto,
{
    if p_upto <= 0 {
        0
    } else {
        let prev = spec_force_pairs(coords, aff, w, j, c, d, p_upto - 1);
        if p_upto - 1 == j {
            prev
        } else {
            spec_fadd(prev, spec_pair_term(coords, aff, w, j, p_upto - 1, c, d))
        }
    }
}

/// The spring constant acting on coordinate `c` under `params`.
pub open spec fn spec_force_const(params: Params, c: int) -> i64 {
    if c == params.squeeze_from as int {
        params.squeeze_force
    } else if c > params.squeeze_from as int {
        params.squeeze_force2
    } else {
        params.central_force
    }
}

/// Coordinate `c` of the total force on particle `j`: accumulated repulsion
/// minus the central spring, which pulls toward one half and is scaled by the
/// particle count `n` to stay comparable to the accumulated repulsion.
pub open spec fn spec_force(
    coords: Seq<Seq<i64>>,
    aff: Seq<Seq<i64>>,
    w: Seq<i64>,
    params: Params,
    n: int,
    d: int,
    j: int,
    c: int,
) -> i64 {
    let base = spec_force_pairs(coords, aff, w, j, c, d, n);
    let dev = spec_fsub(coords[j][c], HALF);
    spec_fsub(base, spec_fmuli(spec_fmul(spec_force_const(params, c), dev), n))
}

/// The largest absolute entry of the first `c` entries of a row.
pub open spec fn spec_row_maxabs(row: Seq<i64>, c: int) -> i64
    decreases c,
{
    if c <= 0 {
        0
    } else {
        spec_fmax(spec_row_maxabs(row, c - 1), spec_fabs(row[c - 1]))
    }
}

/// The largest absolute entry of the first `j` rows.
pub open spec fn spec_maxabs(s: Seq<Seq<i64>>, j: int, cols: int) -> i64
    decreases j,
{
    if j <= 0 {
        0
    } else {
        spec_fmax(spec_maxabs(s, j - 1, cols), spec_row_maxabs(s[j - 1], cols))
    }
}

/// The movement scaler after a step that observed a largest force magnitude
/// of `maxf`: an exponential moving average, four fifths of the previous
/// value plus one fifth of the new observation (floored at `FORCE_EPS`).  A
/// scaler of zero means nothing was observed yet, and the average is seeded
/// with the observation itself.
pub open spec fn spec_new_scaler(prev: i64, maxf: i64) -> i64 {
    let m = spec_fmax(maxf, FORCE_EPS);
    let base = if prev == 0 {
        m
    } else {
        prev
    };
    spec_fadd(spec_fmul(base, 800_000), spec_fmul(m, 200_000))
}

/// The momentum of one entry after the new force is integrated, before
/// decay: the force, scaled so that the largest force moves its coordinate
/// by about `rate`.
pub open spec fn spec_new_inertia_pre(i0: i64, f: i64, rate: i64, scaler: i64) -> i64
    recommends
        scaler > 0,
{
    spec_fadd(i0, spec_fmuldiv(rate, f, scaler))
}

/// A coordinate clamped into the unit interval.
pub open spec fn spec_clamp01(x: i64) -> i64 {
    if x < 0 {
        0
    } else if x > SCALE {
        SCALE
    } else {
        x
    }
}

/// How one (coordinate, momentum) entry leaves a step: the scaled force joins
/// the momentum, the momentum moves the coordinate (clamped into the unit
/// interval), and the momentum then decays.
pub open spec fn spec_entry_step(
    cold: i64,
    iold: i64,
    f: i64,
    rate: i64,
    scaler: i64,
    mult: i64,
    inew: i64,
    cnew: i64,
) -> bool {
    let i1 = spec_new_inertia_pre(iold, f, rate, scaler);
    inew == spec_fmul(i1, mult) && cnew == spec_clamp01(spec_fadd(cold, i1))
}

/// Every value a step writes is a function of the prior state's views, the
/// scaler, and the parameters: two states that agree on those step to equal
/// forces, equal scaler, and (with equal momentum) equal coordinates.
pub proof fn lemma_step_determined(s1: State, s2: State, p: Params, maxf: i64)
    requires
        s1.coords@ == s2.coords@,
        s1.affinities@ == s2.affinities@,
        s1.weights@ == s2.weights@,
        s1.inertias@ == s2.inertias@,
        s1.movement_scaler == s2.movement_scaler,
        s1.coords.rows == s2.coords.rows,
        s1.coords.cols == s2.coords.cols,
    ensures
        forall|j: int, c: int|
            spec_force(
                s1.coords@,
                s1.affinities@,
                s1.weights@,
                p,
                s1.coords.rows as int,
                s1.coords.cols as int,
                j,
                c,
            ) == spec_force(
                s2.coords@,
                s2.affinities@,
                s2.weights@,
                p,
                s2.coords.rows as int,
                s2.coords.cols as int,
                j,
                c,
            ),
        spec_new_scaler(s1.movement_scaler, maxf) == spec_new_scaler(s2.movement_scaler, maxf),
{
}

/// The fresh movement scaler is positive (so it can divide the rate) and in
/// range.
proof fn lemma_scaler_pos(prev: i64, maxf: i64)
    requires
        0 <= prev <= CLAMP_MAX,
    ensures
        0 < spec_new_scaler(prev, maxf) <= CLAMP_MAX,
{
    let m = spec_fmax(maxf, FORCE_EPS);
    let base = if prev == 0 {
        m
    } else {
        prev
    };
    assert(m >= FORCE_EPS);
    assert(m * 200_000 >= 20_000_000) by (nonlinear_arith)
        requires
            m >= 100,
    ;
    assert(base * 800_000 >= 0) by (nonlinear_arith)
        requires
            base >= 0,
    ;
    vstd::arithmetic::div_mod::lemma_div_is_ordered(20_000_000, m * 200_000, 1_000_000);
    assert(spec_fmul(m, 200_000) >= 20);
    assert(spec_fmul(base, 800_000) >= 0);
}

fn clamp01(x: i64) -> (r: i64)
    ensures
        r == spec_clamp01(x),
        0 <= r <= SCALE,
{
    if x < 0 {
        0
    } else if x > SCALE {
        SCALE
    } else {
        x
    }
}

impl State {
    /// One simulation step.
    ///
    /// Accumulates the pairwise repulsion and the central spring into the
    /// force matrix, measures the largest force magnitude, refreshes the
    /// movement scaler, integrates the scaled forces through the momentum
    /// buffer into the coordinates, decays the momentum, and clamps every
    /// coordinate into the unit interval.
    ///
    /// The contract pins every written value exactly, so the step is a
    /// function of the prior state and the parameters.  It also states the
    /// two standing guarantees: no buffer changes its dimensions, and every
    /// coordinate ends inside the unit interval.  Nothing is required of the
    /// particle positions themselves: coinciding particles are handled by
    /// the squared-distance floor, and a force field of zeroes by the scaler
    /// floor, so the step is total on well-formed states.  The returned
    /// value is the largest absolute force entry, the quantity a debugging
    /// caller would report.
    pub fn step(&mut self, params: &Params) -> (maxforce: i64)
        requires
            old(self).wf(),
        ensures
            final(self).wf(),
            final(self).coords.rows == old(self).coords.rows,
            final(self).coords.cols == old(self).coords.cols,
            final(self).forces.rows == old(self).forces.rows,
            final(self).forces.cols == old(self).forces.cols,
            final(self).inertias.rows == old(self).inertias.rows,
            final(self).inertias.cols == old(self).inertias.cols,
            final(self).weights@ == old(self).weights@,
            final(self).affinities@ == old(self).affinities@,
            final(self).affinities.rows == old(self).affinities.rows,
            final(self).affinities.cols == old(self).affinities.cols,
            forall|j: int, c: int|
                0 <= j < old(self).coords.rows && 0 <= c < old(self).coords.cols
                    ==> #[trigger] final(self).forces@[j][c] == spec_force(
                    old(self).coords@,
                    old(self).affinities@,
                    old(self).weights@,
                    *params,
                    old(self).coords.rows as int,
                    old(self).coords.cols as int,
                    j,
                    c,
                ),
            maxforce == spec_maxabs(
                final(self).forces@,
                old(self).coords.rows as int,
                old(self).coords.cols as int,
            ),
            final(self).movement_scaler == spec_new_scaler(old(self).movement_scaler, maxforce),
            forall|j: int, c: int|
                #![trigger final(self).coords@[j][c]]
                #![trigger final(self).inertias@[j][c]]
                0 <= j < old(self).coords.rows && 0 <= c < old(self).coords.cols
                    ==> spec_entry_step(
                    old(self).coords@[j][c],
                    old(self).inertias@[j][c],
                    final(self).forces@[j][c],
                    params.rate,
                    final(self).movement_scaler,
                    params.inertia_multiplier,
                    final(self).inertias@[j][c],
                    final(self).coords@[j][c],
                ),
            forall|j: int, c: int|
                0 <= j < old(self).coords.rows && 0 <= c < old(self).coords.cols ==> 0
                    <= #[trigger] final(self).coords@[j][c] <= SCALE,
    {
        let n = self.coords.nrows();
        let d = self.coords.ncols();
        let ghost c0 = self.coords@;
        let ghost a0 = self.affinities@;
        let ghost w0 = self.weights@;
        let ghost i0 = self.inertias@;
        let ghost scaler0 = self.movement_scaler;
        let ghost ps = *params;

        self.forces.fill(0);

        let mut j: usize = 0;
        while j < n
            invariant
                self.wf(),
                self.coords.rows == n,
                self.coords.cols == d,
                self.coords@ == c0,
                self.affinities@ == a0,
                self.weights@ == w0,
                self.inertias@ == i0,
                self.movement_scaler == scaler0,
                ps == *params,
                j <= n,
                forall|a: int, b: int|
                    0 <= a < j && 0 <= b < d ==> #[trigger] self.forces@[a][b] == spec_force(
                        c0,
                        a0,
                        w0,
                        ps,
                        n as int,
                        d as int,
                        a,
                        b,
                    ),
                forall|a: int, b: int|
                    j <= a < n && 0 <= b < d ==> #[trigger] self.forces@[a][b] == 0,
            decreases n - j,
        {
            let mut p: usize = 0;
            while p < n
                invariant
                    self.wf(),
                    self.coords.rows == n,
                    self.coords.cols == d,
                    self.coords@ == c0,
                    self.affinities@ == a0,
                    self.weights@ == w0,
                    self.inertias@ == i0,
                    self.movement_scaler == scaler0,
                    ps == *params,
                    j < n,
                    p <= n,
                    forall|a: int, b: int|
                        0 <= a < j && 0 <= b < d ==> #[trigger] self.forces@[a][b] == spec_force(
                            c0,
                            a0,
                            w0,
                            ps,
                            n as int,
                            d as int,
                            a,
                            b,
                        ),
                    forall|a: int, b: int|
                        j < a < n && 0 <= b < d ==> #[trigger] self.forces@[a][b] == 0,
                    forall|b: int|
                        0 <= b < d ==> #[trigger] self.forces@[j as int][b] == spec_force_pairs(
                            c0,
                            a0,
                            w0,
                            j as int,
                            b,
                            d as int,
                            p as int,
                        ),
                decreases n - p,
            {
                if p != j {
                    let mut sq: i64 = 0;
                    let mut c: usize = 0;
                    while c < d
                        invariant
                            self.wf(),
                            self.coords.rows == n,
                            self.coords.cols == d,
                            self.coords@ == c0,
                            j < n,
                            p < n,
                            c <= d,
                            sq == spec_pair_sqnorm(c0[j as int], c0[p as int], c as int),
                        decreases d - c,
                    {
                        let dv = fsub(self.coords.get(j, c), self.coords.get(p, c));
                        sq = fadd(sq, fmul(dv, dv));
                        c += 1;
                    }
                    let sqf = fmax(sq, SQNORM_EPS);
                    assert(sqf == spec_sqnorm_floored(c0[j as int], c0[p as int], d as int));
                    let norm = sqrt_fixed(sqf);
                    proof {
                        assert(norm >= 1) by {
                            if norm == 0 {
                                assert((norm as int + 1) * (norm as int + 1) == 1)
                                    by (nonlinear_arith)
                                    requires
                                        norm as int == 0,
                                ;
                                assert(sqf * SCALE < 1);
                                assert(sqf * SCALE >= 10 * 1_000_000) by (nonlinear_arith)
                                    requires
                                        sqf >= 10,
                                ;
                            }
                        }
                    }
                    let aff = self.affinities.get(j, p);
                    let wp = self.weights[p];
                    let wj = self.weights[j];
                    let r1 = fdiv(aff, sqf);
                    let r2 = fmul(r1, wp);
                    let repel = fdiv(r2, wj);
                    assert(repel == spec_repel(a0[j as int][p as int], w0[p as int], w0[j as int], sqf));

                    let mut c: usize = 0;
                    while c < d
                        invariant
                            self.wf(),
                            self.coords.rows == n,
                            self.coords.cols == d,
                            self.coords@ == c0,
                            self.affinities@ == a0,
                            self.weights@ == w0,
                            self.inertias@ == i0,
                            self.movement_scaler == scaler0,
                            ps == *params,
                            j < n,
                            p < n,
                            p != j,
                            c <= d,
                            sqf == spec_sqnorm_floored(c0[j as int], c0[p as int], d as int),
                            norm == spec_sqrt_fixed(sqf),
                            norm >= 1,
                            repel == spec_repel(
                                a0[j as int][p as int],
                                w0[p as int],
                                w0[j as int],
                                sqf,
                            ),
                            forall|a: int, b: int|
                                0 <= a < j && 0 <= b < d ==> #[trigger] self.forces@[a][b]
                                    == spec_force(c0, a0, w0, ps, n as int, d as int, a, b),
                            forall|a: int, b: int|
                                j < a < n && 0 <= b < d ==> #[trigger] self.forces@[a][b] == 0,
                            forall|b: int|
                                0 <= b < c ==> #[trigger] self.forces@[j as int][b]
                                    == spec_force_pairs(
                                    c0,
                                    a0,
                                    w0,
                                    j as int,
                                    b,
                                    d as int,
                                    p as int + 1,
                                ),
                            forall|b: int|
                                c <= b < d ==> #[trigger] self.forces@[j as int][b]
                                    == spec_force_pairs(
                                    c0,
                                    a0,
                                    w0,
                                    j as int,
                                    b,
                                    d as int,
                                    p as int,
                                ),
                        decreases d - c,
                    {
                        let dv = fsub(self.coords.get(j, c), self.coords.get(p, c));
                        let unit = fdiv(dv, norm);
                        let term = fmul(repel, unit);
                        assert(term == spec_pair_term(c0, a0, w0, j as int, p as int, c as int, d as int));
                        let prev = self.forces.get(j, c);
                        self.forces.set(j, c, fadd(prev, term));
                        c += 1;
                    }
                } else {
                    proof {
                        assert forall|b: int| 0 <= b < d implies #[trigger] self.forces@[j as int][b]
                            == spec_force_pairs(c0, a0, w0, j as int, b, d as int, p as int + 1) by {
                            assert(spec_force_pairs(c0, a0, w0, j as int, b, d as int, p as int + 1)
                                == spec_force_pairs(c0, a0, w0, j as int, b, d as int, p as int));
                        }
                    }
                }
                p += 1;
            }
            let n64 = n as i64;
            let mut c: usize = 0;
            while c < d
                invariant
                    self.wf(),
                    self.coords.rows == n,
                    self.coords.cols == d,
                    self.coords@ == c0,
                    self.affinities@ == a0,
                    self.weights@ == w0,
                    self.inertias@ == i0,
                    self.movement_scaler == scaler0,
                    ps == *params,
                    j < n,
                    c <= d,
                    n64 == n as i64,
                    forall|a: int, b: int|
                        0 <= a < j && 0 <= b < d ==> #[trigger] self.forces@[a][b] == spec_force(
                            c0,
                            a0,
                            w0,
                            ps,
                            n as int,
                            d as int,
                            a,
                            b,
                        ),
                    forall|a: int, b: int|
                        j < a < n && 0 <= b < d ==> #[trigger] self.forces@[a][b] == 0,
                    forall|b: int|
                        0 <= b < c ==> #[trigger] self.forces@[j as int][b] == spec_force(
                            c0,
                            a0,
                            w0,
                            ps,
                            n as int,
                            d as int,
                            j as int,
                            b,
                        ),
                    forall|b: int|
                        c <= b < d ==> #[trigger] self.forces@[j as int][b] == spec_force_pairs(
                            c0,
                            a0,
                            w0,
                            j as int,
                            b,
                            d as int,
                            n as int,
                        ),
                decreases d - c,
            {
                let dev = fsub(self.coords.get(j, c), HALF);
                let fc = if c == params.squeeze_from {
                    params.squeeze_force
                } else if c > params.squeeze_from {
                    params.squeeze_force2
                } else {
                    params.central_force
                };
                assert(fc == spec_force_const(ps, c as int));
                let t1 = fmul(fc, dev);
                let t2 = fmuli(t1, n64);
                let prev = self.forces.get(j, c);
                self.forces.set(j, c, fsub(prev, t2));
                c += 1;
            }
            j += 1;
        }

        let ghost f1 = self.forces@;
        let mut total: i64 = 0;
        let mut mj: usize = 0;
        while mj < n
            invariant
                self.wf(),
                self.coords.rows == n,
                self.coords.cols == d,
                self.forces@ == f1,
                self.coords@ == c0,
                self.affinities@ == a0,
                self.weights@ == w0,
                self.inertias@ == i0,
                self.movement_scaler == scaler0,
                mj <= n,
                total == spec_maxabs(f1, mj as int, d as int),
            decreases n - mj,
        {
            let mut rm: i64 = 0;
            let mut c: usize = 0;
            while c < d
                invariant
                    self.wf(),
                    self.coords.rows == n,
                    self.coords.cols == d,
                    self.forces@ == f1,
                    self.coords@ == c0,
                    self.affinities@ == a0,
                    self.weights@ == w0,
                    self.inertias@ == i0,
                    self.movement_scaler == scaler0,
                    mj < n,
                    c <= d,
                    rm == spec_row_maxabs(f1[mj as int], c as int),
                decreases d - c,
            {
                rm = fmax(rm, fabs(self.forces.get(mj, c)));
                c += 1;
            }
            total = fmax(total, rm);
            mj += 1;
        }
        let maxforce = total;

        let floored = fmax(maxforce, FORCE_EPS);
        let base = if self.movement_scaler == 0 {
            floored
        } else {
            self.movement_scaler
        };
        let new_scaler = fadd(fmul(base, 800_000), fmul(floored, 200_000));
        proof {
            lemma_scaler_pos(scaler0, maxforce);
        }
        assert(new_scaler == spec_new_scaler(scaler0, maxforce));
        assert(new_scaler > 0);
        self.movement_scaler = new_scaler;
        let rate = params.rate;

        let mut j: usize = 0;
        while j < n
            invariant
                self.wf(),
                self.coords.rows == n,
                self.coords.cols == d,
                self.forces@ == f1,
                self.affinities@ == a0,
                self.weights@ == w0,
                self.movement_scaler == new_scaler,
                new_scaler > 0,
                rate == ps.rate,
                ps == *params,
                j <= n,
                forall|a: int, b: int|
                    #![trigger self.coords@[a][b]]
                    #![trigger self.inertias@[a][b]]
                    0 <= a < j && 0 <= b < d ==> spec_entry_step(
                        c0[a][b],
                        i0[a][b],
                        f1[a][b],
                        ps.rate,
                        new_scaler,
                        ps.inertia_multiplier,
                        self.inertias@[a][b],
                        self.coords@[a][b],
                    ),
                forall|a: int, b: int|
                    #![trigger self.coords@[a][b]]
                    #![trigger self.inertias@[a][b]]
                    j <= a < n && 0 <= b < d ==> self.inertias@[a][b] == i0[a][b]
                        && self.coords@[a][b] == c0[a][b],
            decreases n - j,
        {
            let mut c: usize = 0;
            while c < d
                invariant
                    self.wf(),
                    self.coords.rows == n,
                    self.coords.cols == d,
                    self.forces@ == f1,
                    self.affinities@ == a0,
                    self.weights@ == w0,
                    self.movement_scaler == new_scaler,
                    new_scaler > 0,
                    rate == ps.rate,
                    ps == *params,
                    j < n,
                    c <= d,
                    forall|a: int, b: int|
                        #![trigger self.coords@[a][b]]
                        #![trigger self.inertias@[a][b]]
                        0 <= a < j && 0 <= b < d ==> spec_entry_step(
                            c0[a][b],
                            i0[a][b],
                            f1[a][b],
                            ps.rate,
                            new_scaler,
                            ps.inertia_multiplier,
                            self.inertias@[a][b],
                            self.coords@[a][b],
                        ),
                    forall|b: int|
                        #![trigger self.coords@[j as int][b]]
                        #![trigger self.inertias@[j as int][b]]
                        0 <= b < c ==> spec_entry_step(
                            c0[j as int][b],
                            i0[j as int][b],
                            f1[j as int][b],
                            ps.rate,
                            new_scaler,
                            ps.inertia_multiplier,
                            self.inertias@[j as int][b],
                            self.coords@[j as int][b],
                        ),
                    forall|b: int|
                        #![trigger self.coords@[j as int][b]]
                        #![trigger self.inertias@[j as int][b]]
                        c <= b < d ==> self.inertias@[j as int][b] == i0[j as int][b]
                            && self.coords@[j as int][b] == c0[j as int][b],
                    forall|a: int, b: int|
                        #![trigger self.coords@[a][b]]
                        #![trigger self.inertias@[a][b]]
                        j < a < n && 0 <= b < d ==> self.inertias@[a][b] == i0[a][b]
                            && self.coords@[a][b] == c0[a][b],
                decreases d - c,
            {
                let iold = self.inertias.get(j, c);
                let f = self.forces.get(j, c);
                let i1 = fadd(iold, fmuldiv(rate, f, new_scaler));
                let raw = fadd(self.coords.get(j, c), i1);
                let nc = clamp01(raw);
                self.coords.set(j, c, nc);
                self.inertias.set(j, c, fmul(i1, params.inertia_multiplier));
                c += 1;
            }
            j += 1;
        }
        maxforce
    }
}

} // verus!
