//! Deterministic random initialization of the coordinate matrix, and the
//! assembly of a full simulation run.

use vstd::prelude::*;

use rand::rngs::StdRng;

use crate::affinity::{average_affinity, build_particle_affinities, spec_affinity, spec_total};
use crate::fixed::{div_trunc, CLAMP_MAX, SCALE};
use crate::matrix::Matrix;
use crate::schedule::{
    or_else, resolve_config, spec_first_phase, spec_iters_left, spec_resolve_config,
    spec_run_view, spec_zero_grid, Driver, RunOptions,
};
use crate::sim::State;

verus! {

#[verifier::external_type_specification]
#[verifier::external_body]
/// The seedable generator of the rand crate, opaque to the verifier.
pub struct ExStdRng(StdRng);

/// Relies on rand's `SeedableRng::seed_from_u64` for `StdRng`: builds a
/// generator whose stream is a function of the seed, so a run is
/// reproducible.  Nothing about the stream is assumed.
#[verifier::external_body]
fn rng_from_seed(seed: u64) -> StdRng {
    rand::SeedableRng::seed_from_u64(seed)
}

/// Relies on rand's `Rng::next_u64` for `StdRng`: yields the generator's
/// next value; nothing is assumed about which value comes out.
#[verifier::external_body]
fn rng_next(rng: &mut StdRng) -> u64 {
    rand::Rng::next_u64(rng)
}

/// One coordinate drawn uniformly from the unit interval (in fixed-point
/// units, the half-open range `[0, SCALE)`), whatever the generator yields.
fn random_unit_coord(rng: &mut StdRng) -> (r: i64)
    ensures
        0 <= r < SCALE,
{
    let x = rng_next(rng);
    (x % (SCALE as u64)) as i64
}

/// A fresh `n x d` coordinate matrix with every entry drawn from the unit
/// interval by a generator seeded with `seed`.
pub fn random_coords(seed: u64, n: usize, d: usize) -> (m: Matrix)
    requires
        n <= 0x1_0000_0000,
        d <= 0x1_0000_0000,
    ensures
        m.wf(),
        m.rows == n,
        m.cols == d,
        forall|j: int, c: int| 0 <= j < n && 0 <= c < d ==> 0 <= #[trigger] m@[j][c] < SCALE,
{
    let mut rng = rng_from_seed(seed);
    let mut m = Matrix::new_filled(n, d, 0);
    let mut j: usize = 0;
    while j < n
        invariant
            m.wf(),
            m.rows == n,
            m.cols == d,
            j <= n,
            forall|a: int, b: int|
                0 <= a < j && 0 <= b < d ==> 0 <= #[trigger] m@[a][b] < SCALE,
        decreases n - j,
    {
        let mut c: usize = 0;
        while c < d
            invariant
                m.wf(),
                m.rows == n,
                m.cols == d,
                j < n,
                c <= d,
                forall|a: int, b: int|
                    0 <= a < j && 0 <= b < d ==> 0 <= #[trigger] m@[a][b] < SCALE,
                forall|b: int| 0 <= b < c ==> 0 <= #[trigger] m@[j as int][b] < SCALE,
            decreases d - c,
        {
            let v = random_unit_coord(&mut rng);
            m.set(j, c, v);
            c += 1;
        }
        j += 1;
    }
    m
}

/// A weight vector of all ones, the default when no weight column is given.
pub fn unit_weights(n: usize) -> (w: Vec<i64>)
    ensures
        w@.len() == n,
        forall|i: int| 0 <= i < n ==> #[trigger] w@[i] == SCALE,
{
    let mut w: Vec<i64> = Vec::new();
    let mut i: usize = 0;
    while i < n
        invariant
            i <= n,
            w@.len() == i,
            forall|k: int| 0 <= k < i ==> #[trigger] w@[k] == SCALE,
        decreases n - i,
    {
        w.push(SCALE);
        i += 1;
    }
    w
}

/// Assemble a ready-to-run simulation state: randomly seeded coordinates,
/// zeroed force and momentum buffers, a zero movement scaler, and the given
/// weights and affinities.
pub fn init_state(seed: u64, n: usize, d: usize, weights: Vec<i64>, affinities: Matrix) -> (st:
    State)
    requires
        n <= 0x1_0000_0000,
        d <= 0x1_0000_0000,
        affinities.wf(),
        affinities.rows == n,
        affinities.cols == n,
        weights@.len() == n,
        forall|i: int| 0 <= i < n ==> 0 < #[trigger] weights@[i] <= CLAMP_MAX,
    ensures
        st.wf(),
        st.coords.rows == n,
        st.coords.cols == d,
        st.weights@ == weights@,
        st.affinities@ == affinities@,
        st.movement_scaler == 0,
        forall|j: int, c: int|
            0 <= j < n && 0 <= c < d ==> 0 <= #[trigger] st.coords@[j][c] < SCALE,
        forall|j: int, c: int|
            0 <= j < n && 0 <= c < d ==> #[trigger] st.inertias@[j][c] == 0,
{
    let coords = random_coords(seed, n, d);
    let forces = Matrix::new_filled(n, d, 0);
    let inertias = Matrix::new_filled(n, d, 0);
    State { coords, forces, inertias, weights, affinities, movement_scaler: 0 }
}

/// The whole pipeline on an already-parsed input: build the affinity matrix,
/// scale the force settings by its average, resolve the schedule, seed the
/// coordinates, and run every phase.  Returns the finished state (its
/// coordinate matrix is the embedding) together with the number of
/// iterations performed.  The contract pins the affinity matrix, the
/// iteration count, and the final state as the fold of the schedule over
/// some valid randomly-drawn starting coordinates — everything but which
/// coordinates the seeded generator drew.
pub fn run_reduction(input: &Matrix, weights: Vec<i64>, n_out_coords: usize, opts: &RunOptions)
    -> (r: (State, usize))
    requires
        input.wf(),
        input.rows > 0,
        n_out_coords <= 0x1_0000_0000,
        weights@.len() == input.rows,
        forall|i: int| 0 <= i < input.rows ==> 0 < #[trigger] weights@[i] <= CLAMP_MAX,
        -CLAMP_MAX <= or_else(opts.same_particle_force, 200_000) <= CLAMP_MAX,
        or_else(opts.n_iters, 100) <= 0x1_0000_0000,
        or_else(
            opts.squeeze_rampup_iters,
            if opts.retain_coords_from_squeezing is Some {
                or_else(opts.n_iters, 100)
            } else {
                0
            },
        ) <= 0x1_0000_0000,
        or_else(
            opts.squeeze_final_iters,
            if opts.retain_coords_from_squeezing is Some {
                or_else(opts.n_iters, 100)
            } else {
                0
            },
        ) <= 0x1_0000_0000,
    ensures
        r.0.wf(),
        r.0.coords.rows == input.rows,
        r.0.coords.cols == n_out_coords,
        r.0.weights@ == weights@,
        forall|j: int, c: int|
            0 <= j < input.rows && 0 <= c < n_out_coords ==> 0 <= #[trigger] r.0.coords@[j][c]
                <= SCALE,
        forall|j: int, k: int|
            0 <= j < input.rows && 0 <= k < input.rows ==> #[trigger] r.0.affinities@[j][k]
                == spec_affinity(
                input@[j],
                input@[k],
                input.cols as int,
                or_else(opts.same_particle_force, 200_000),
            ),
        ({
            let spf = or_else(opts.same_particle_force, 200_000);
            let n = input.rows as int;
            let d = n_out_coords as int;
            let affv = Seq::new(
                n as nat,
                |j: int|
                    Seq::new(
                        n as nat,
                        |k: int| spec_affinity(input@[j], input@[k], input.cols as int, spf),
                    ),
            );
            let avg = div_trunc(spec_total(affv, n, n), n * n) as i64;
            let cfg = spec_resolve_config(*opts, avg, n_out_coords);
            let first = spec_first_phase(cfg);
            &&& r.1 as int == (if spec_iters_left(cfg, first) <= usize::MAX {
                spec_iters_left(cfg, first)
            } else {
                usize::MAX as int
            })
            &&& exists|c0: Seq<Seq<i64>>|
                {
                    &&& #[trigger] c0.len() == n
                    &&& (forall|j: int| 0 <= j < n ==> (#[trigger] c0[j]).len() == d)
                    &&& (forall|j: int, c: int|
                        0 <= j < n && 0 <= c < d ==> 0 <= #[trigger] c0[j][c] < SCALE)
                    &&& ({
                        let rv = spec_run_view(
                            cfg,
                            first,
                            c0,
                            spec_zero_grid(n, d),
                            0,
                            n,
                            d,
                            weights@,
                            affv,
                        );
                        r.0.coords@ == rv.0 && r.0.inertias@ == rv.1 && r.0.movement_scaler
                            == rv.2
                    })
                }
        }),
{
    let spf = match opts.same_particle_force {
        Some(x) => x,
        None => 200_000,
    };
    let affinities = build_particle_affinities(input, spf);
    let avgaff = average_affinity(&affinities);
    let cfg = resolve_config(opts, avgaff, n_out_coords);
    let seed = match opts.random_seed {
        Some(x) => x,
        None => 1,
    };
    let n = input.nrows();
    let ghost affg = affinities@;
    let ghost w0 = weights@;
    let mut st = init_state(seed, n, n_out_coords, weights, affinities);
    let ghost initc = st.coords@;
    let ghost initi = st.inertias@;
    let mut driver = Driver::new(cfg);
    driver.run(&mut st);
    let iters = driver.iterations();
    proof {
        let ni = input.rows as int;
        let dd = n_out_coords as int;
        let spfv = or_else(opts.same_particle_force, 200_000);
        let affv = Seq::new(
            ni as nat,
            |j: int|
                Seq::new(
                    ni as nat,
                    |k: int| spec_affinity(input@[j], input@[k], input.cols as int, spfv),
                ),
        );
        assert(affg =~~= affv);
        let avg = div_trunc(spec_total(affv, ni, ni), ni * ni) as i64;
        assert(avgaff == avg);
        let scfg = spec_resolve_config(*opts, avg, n_out_coords);
        assert(cfg == scfg);
        let first = spec_first_phase(scfg);
        assert(iters as int == if spec_iters_left(scfg, first) <= usize::MAX {
            spec_iters_left(scfg, first)
        } else {
            usize::MAX as int
        });
        assert(initi =~~= spec_zero_grid(ni, dd));
        let rv = spec_run_view(scfg, first, initc, spec_zero_grid(ni, dd), 0, ni, dd, w0, affv);
        assert(st.coords@ == rv.0 && st.inertias@ == rv.1 && st.movement_scaler == rv.2);
        assert(initc.len() == ni);
        assert(forall|j: int| 0 <= j < ni ==> (#[trigger] initc[j]).len() == dd);
        assert(forall|j: int, c: int|
            0 <= j < ni && 0 <= c < dd ==> 0 <= #[trigger] initc[j][c] < SCALE);
    }
    (st, iters)
}

} // verus!
