//! The multi-phase schedule that drives the simulator: a warmup ramp, the
//! main annealed run, a per-dimension squeeze rampup, and a squeeze
//! finalization pass.  The schedule owns no particle data, only the resolved
//! scalar parameters and the phase position.

use vstd::prelude::*;

use crate::fixed::{
    clamp_wide, clamped, div_trunc, div_trunc_wide, fmul, isqrt_wide, lemma_isqrt_exists,
    lemma_isqrt_unique, spec_fadd, spec_fdiv, spec_fmul, spec_fmuli, spec_isqrt,
    spec_sqrt_fixed, sqrt_fixed, SCALE,
};
use crate::sim::{
    spec_clamp01, spec_entry_step, spec_force, spec_maxabs, spec_new_inertia_pre,
    spec_new_scaler, Params, State,
};

verus! {

/// The value of an optional setting, or its default.
pub open spec fn or_else<T>(o: Option<T>, d: T) -> T {
    match o {
        Some(x) => x,
        None => d,
    }
}

/// Linear interpolation from `a` (at `num == 0`) to `b` (at `num == den`),
/// with the fraction `num / den` applied by truncating fixed-point
/// arithmetic.
pub open spec fn spec_lerp(a: i64, b: i64, num: int, den: int) -> i64
    recommends
        den > 0,
{
    clamped(a + clamped(div_trunc((b - a) * num, den)) as int)
}

/// Linear interpolation.
pub fn lerp_fixed(a: i64, b: i64, num: usize, den: usize) -> (r: i64)
    requires
        0 < den <= 0x1_0000_0000,
        num <= den,
    ensures
        r == spec_lerp(a, b, num as int, den as int),
{
    let dw: i128 = (b as i128) - (a as i128);
    proof {
        assert(-85070591730234615865843651857942052864 < dw as int * (num as int)
            < 85070591730234615865843651857942052864) by (nonlinear_arith)
            requires
                -18446744073709551616 <= dw as int <= 18446744073709551616,
                0 <= num as int <= 0x1_0000_0000,
        ;
    }
    let p: i128 = dw * (num as i128);
    let q = clamp_wide(div_trunc_wide(p, den as i128));
    clamp_wide((a as i128) + (q as i128))
}

/// Rates far beyond one (a million fixed-point units) carry no meaning; the
/// annealing interpolant clips them there so its intermediate squares stay
/// exact.
pub const RATE_LIMIT: i64 = 1_000_000_000_000;

/// A rate clipped into the range the annealing interpolant covers.
pub open spec fn spec_rate_clip(x: i64) -> i64 {
    if x > RATE_LIMIT {
        RATE_LIMIT
    } else if x < -RATE_LIMIT {
        (-(RATE_LIMIT as int)) as i64
    } else {
        x
    }
}

/// The annealed rate between iterations: the squares of the two rates are
/// interpolated linearly, at full precision, and the square root of the
/// interpolant (floored at zero) is taken.  This spends more iterations at
/// the higher rates than a plain linear ramp would.
pub open spec fn spec_annealed_rate(a: i64, b: i64, num: int, den: int) -> i64
    recommends
        den > 0,
{
    let ca = spec_rate_clip(a) as int;
    let cb = spec_rate_clip(b) as int;
    let v = ca * ca + div_trunc((cb * cb - ca * ca) * num, den);
    let v0 = if v < 0 {
        0
    } else {
        v
    };
    spec_isqrt(v0) as i64
}

fn rate_clip(x: i64) -> (r: i64)
    ensures
        r == spec_rate_clip(x),
{
    if x > RATE_LIMIT {
        RATE_LIMIT
    } else if x < -RATE_LIMIT {
        -RATE_LIMIT
    } else {
        x
    }
}

/// The annealed rate, by interpolating squares.
pub fn annealed_rate(a: i64, b: i64, num: usize, den: usize) -> (r: i64)
    requires
        0 < den <= 0x1_0000_0000,
        num <= den,
    ensures
        r == spec_annealed_rate(a, b, num as int, den as int),
{
    let ca = rate_clip(a) as i128;
    let cb = rate_clip(b) as i128;
    proof {
        assert(0 <= (ca as int) * (ca as int) <= 1000000000000000000000000)
            by (nonlinear_arith)
            requires
                -1000000000000 <= ca as int <= 1000000000000,
        ;
        assert(0 <= (cb as int) * (cb as int) <= 1000000000000000000000000)
            by (nonlinear_arith)
            requires
                -1000000000000 <= cb as int <= 1000000000000,
        ;
    }
    let la: i128 = ca * ca;
    let lb: i128 = cb * cb;
    proof {
        assert(-8507059173023461586584365185794205286 <= (lb as int - la as int) * (num as int)
            <= 8507059173023461586584365185794205286) by (nonlinear_arith)
            requires
                -1000000000000000000000000 <= lb as int - la as int
                    <= 1000000000000000000000000,
                0 <= num as int <= 0x1_0000_0000,
        ;
    }
    let diff: i128 = lb - la;
    let p: i128 = diff * (num as i128);
    let q = div_trunc_wide(p, den as i128);
    let v: i128 = la + q;
    let v0: i128 = if v < 0 {
        0
    } else {
        v
    };
    proof {
        if p >= 0 {
            vstd::arithmetic::div_mod::lemma_div_nonincreasing(p as int, den as int);
            vstd::arithmetic::div_mod::lemma_div_pos_is_pos(p as int, den as int);
        } else {
            vstd::arithmetic::div_mod::lemma_div_nonincreasing(-(p as int), den as int);
            vstd::arithmetic::div_mod::lemma_div_pos_is_pos(-(p as int), den as int);
        }
    }
    let r = isqrt_i128(v0);
    r
}

fn isqrt_i128(v: i128) -> (r: i64)
    requires
        0 <= v < 85070591730234615865843651857942052864,
    ensures
        r as int == spec_isqrt(v as int),
        0 <= r,
{
    let x: u128 = v as u128;
    let r0 = isqrt_wide(x);
    proof {
        lemma_isqrt_exists(x as int);
        lemma_isqrt_unique(x as int, r0 as int, spec_isqrt(x as int));
        assert(r0 as int <= 9223372036854775807) by (nonlinear_arith)
            requires
                0 <= r0 as int,
                (r0 as int) * (r0 as int) <= x as int,
                (x as int) < 85070591730234615865843651857942052864,
                (r0 as int) < 9223372036854775808,
        ;
    }
    r0 as i64
}

/// The state of the exponential-interpolation chain after `k` halvings: the
/// repeatedly square-rooted ratio, the remaining fraction (in 65536ths), the
/// accumulated product, and the weight of the next binary digit.
pub open spec fn spec_geo_state(ratio: i64, frac: int, k: int) -> (i64, int, i64, int)
    decreases k,
{
    if k <= 0 {
        (ratio, frac, SCALE, 65536)
    } else {
        let (pr, prem, pacc, pw) = spec_geo_state(ratio, frac, k - 1);
        let nr = spec_sqrt_fixed(pr);
        let nw = pw / 2;
        if prem >= nw {
            (nr, prem - nw, spec_fmul(pacc, nr), nw)
        } else {
            (nr, prem, pacc, nw)
        }
    }
}

/// Exponential interpolation from `a` (at `num == 0`) to `b` (at
/// `num == den`): linear interpolation of the logarithm, carried out by
/// binary decomposition of the fraction over repeated square roots of
/// `b / a`.  Nonpositive endpoints have no logarithm and fall to `b`.
pub open spec fn spec_geo_interp(a: i64, b: i64, num: int, den: int) -> i64
    recommends
        den > 0,
{
    if a <= 0 || b <= 0 || num == den {
        b
    } else {
        spec_fmul(a, spec_geo_state(spec_fdiv(b, a), (num * 65536) / den, 16).2)
    }
}

/// Exponential (log-space linear) interpolation.
pub fn geo_interp(a: i64, b: i64, num: usize, den: usize) -> (r: i64)
    requires
        0 < den <= 0x1_0000_0000,
        num <= den,
    ensures
        r == spec_geo_interp(a, b, num as int, den as int),
{
    if a <= 0 || b <= 0 || num == den {
        return b;
    }
    let frac: u64 = ((num as u64) * 65536) / (den as u64);
    proof {
        let t = (num as int) * 65536;
        assert((num as int) * 65536 < (den as int) * 65536) by (nonlinear_arith)
            requires
                0 <= num as int,
                (num as int) < (den as int),
        ;
        vstd::arithmetic::div_mod::lemma_fundamental_div_mod(t, den as int);
        vstd::arithmetic::div_mod::lemma_mod_bound(t, den as int);
        if t / (den as int) >= 65536 {
            assert((den as int) * (t / (den as int)) >= (den as int) * 65536)
                by (nonlinear_arith)
                requires
                    (den as int) > 0,
                    t / (den as int) >= 65536,
            ;
        }
        assert(frac < 65536);
    }
    let ghost frac0 = frac as int;
    let mut r = crate::fixed::fdiv(b, a);
    proof {
        vstd::arithmetic::div_mod::lemma_div_pos_is_pos(b * SCALE, a as int);
        assert(b * SCALE >= 0) by (nonlinear_arith)
            requires
                b >= 0,
        ;
    }
    let ghost ratio0 = r;
    let mut rem: u64 = frac;
    let mut acc: i64 = SCALE;
    let mut w: u64 = 65536;
    let mut i: usize = 0;
    while i < 16
        invariant
            i <= 16,
            0 <= r,
            0 <= acc,
            0 <= ratio0,
            rem <= frac,
            frac < 65536,
            frac0 == frac as int,
            (r, rem as int, acc, w as int) == spec_geo_state(ratio0, frac0, i as int),
        decreases 16 - i,
    {
        r = sqrt_fixed(r);
        w = w / 2;
        if rem >= w {
            rem = rem - w;
            let na = fmul(acc, r);
            proof {
                vstd::arithmetic::div_mod::lemma_div_pos_is_pos(acc * r, SCALE as int);
                assert(acc * r >= 0) by (nonlinear_arith)
                    requires
                        acc >= 0,
                        r >= 0,
                ;
            }
            acc = na;
        }
        i += 1;
    }
    fmul(a, acc)
}

/// The numeric settings a caller may override; `None` means the documented
/// default.  Rates and forces are fixed-point values; the force settings are
/// relative to the average affinity of the dataset.
pub struct RunOptions {
    pub n_iters: Option<usize>,
    pub warmup_iterations: Option<usize>,
    pub rate: Option<i64>,
    pub inertia_multiplier: Option<i64>,
    pub final_rate: Option<i64>,
    pub central_force: Option<i64>,
    pub same_particle_force: Option<i64>,
    pub retain_coords_from_squeezing: Option<usize>,
    pub squeeze_rampup_rate: Option<i64>,
    pub squeeze_rampup_iters: Option<usize>,
    pub squeeze_final_force: Option<i64>,
    pub squeeze_final_initial_rate: Option<i64>,
    pub squeeze_final_iters: Option<usize>,
    pub random_seed: Option<u64>,
}

impl RunOptions {
    /// Every setting left at its default.
    pub fn new_default() -> (r: RunOptions)
        ensures
            r.n_iters is None,
            r.warmup_iterations is None,
            r.rate is None,
            r.inertia_multiplier is None,
            r.final_rate is None,
            r.central_force is None,
            r.same_particle_force is None,
            r.retain_coords_from_squeezing is None,
            r.squeeze_rampup_rate is None,
            r.squeeze_rampup_iters is None,
            r.squeeze_final_force is None,
            r.squeeze_final_initial_rate is None,
            r.squeeze_final_iters is None,
            r.random_seed is None,
    {
        RunOptions {
            n_iters: None,
            warmup_iterations: None,
            rate: None,
            inertia_multiplier: None,
            final_rate: None,
            central_force: None,
            same_particle_force: None,
            retain_coords_from_squeezing: None,
            squeeze_rampup_rate: None,
            squeeze_rampup_iters: None,
            squeeze_final_force: None,
            squeeze_final_initial_rate: None,
            squeeze_final_iters: None,
            random_seed: None,
        }
    }
}

/// The fully resolved schedule: every parameter a run needs, with forces
/// already scaled by the dataset's average affinity.
#[derive(Clone, Copy)]
pub struct SimConfig {
    pub n_iters: usize,
    pub warmup_iters: usize,
    pub rate: i64,
    pub inertia_multiplier: i64,
    pub final_rate: i64,
    pub central_force: i64,
    pub squeeze_rampup_rate: i64,
    pub squeeze_rampup_iters: usize,
    pub squeeze_final_iters: usize,
    pub squeeze_final_force: i64,
    pub squeeze_final_initial_rate: i64,
    pub coords_to_squeeze: usize,
    pub n_out_coords: usize,
}

impl SimConfig {
    /// Iteration counts small enough for interpolation arithmetic, and no
    /// more squeezed coordinates than coordinates.
    pub open spec fn wf(&self) -> bool {
        &&& self.n_iters <= 0x1_0000_0000
        &&& self.squeeze_rampup_iters <= 0x1_0000_0000
        &&& self.squeeze_final_iters <= 0x1_0000_0000
        &&& self.coords_to_squeeze <= self.n_out_coords
    }
}

/// How many of the highest output coordinates a run squeezes away: those not
/// retained.
pub open spec fn spec_coords_to_squeeze(retain: Option<usize>, n_out: usize) -> usize {
    match retain {
        Some(r) => if r >= n_out {
            0
        } else {
            (n_out - r) as usize
        },
        None => 0,
    }
}

/// The resolved schedule as a function of the settings, the average
/// affinity, and the output dimensionality.
pub open spec fn spec_resolve_config(opts: RunOptions, avgaff: i64, n_out: usize) -> SimConfig {
    let n_iters = or_else(opts.n_iters, 100);
    let rate = or_else(opts.rate, 10_000);
    let cfp = or_else(opts.central_force, 20_000_000);
    let srr = or_else(opts.squeeze_rampup_rate, spec_fmul(rate, 200_000));
    let squeezing = opts.retain_coords_from_squeezing is Some;
    SimConfig {
        n_iters,
        warmup_iters: or_else(opts.warmup_iterations, ((n_iters as int) / 2) as usize),
        rate,
        inertia_multiplier: or_else(opts.inertia_multiplier, 900_000),
        final_rate: or_else(opts.final_rate, spec_fmul(rate, 20_000)),
        central_force: spec_fmul(avgaff, cfp),
        squeeze_rampup_rate: srr,
        squeeze_rampup_iters: or_else(
            opts.squeeze_rampup_iters,
            if squeezing {
                n_iters
            } else {
                0
            },
        ),
        squeeze_final_iters: or_else(
            opts.squeeze_final_iters,
            if squeezing {
                n_iters
            } else {
                0
            },
        ),
        squeeze_final_force: spec_fmul(
            avgaff,
            or_else(opts.squeeze_final_force, spec_fmuli(cfp, 10)),
        ),
        squeeze_final_initial_rate: or_else(opts.squeeze_final_initial_rate, srr),
        coords_to_squeeze: spec_coords_to_squeeze(opts.retain_coords_from_squeezing, n_out),
        n_out_coords: n_out,
    }
}

/// Resolve the optional settings into a full schedule, applying the
/// documented defaults: 100 iterations, half of them warmup, a rate of one
/// hundredth, momentum decay of nine tenths, a final rate of a fiftieth of
/// the base rate, a central force of twenty average affinities, a squeeze
/// rampup at a fifth of the base rate, squeeze phases as long as the main
/// run when any coordinate is squeezed, and a final squeeze force ten times
/// the central force.
pub fn resolve_config(opts: &RunOptions, avgaff: i64, n_out_coords: usize) -> (cfg: SimConfig)
    requires
        or_else(opts.n_iters, 100) <= 0x1_0000_0000,
        or_else(
            opts.squeeze_rampup_iters,
            if opts.retain_coords_from_squeezing is Some {
                or_else(opts.n_iters, 100)
            } else {
                0
            },
        ) <= 0x1_0000_0000,
        or_else(
            opts.squeeze_final_iters,
            if opts.retain_coords_from_squeezing is Some {
                or_else(opts.n_iters, 100)
            } else {
                0
            },
        ) <= 0x1_0000_0000,
    ensures
        cfg.wf(),
        cfg == spec_resolve_config(*opts, avgaff, n_out_coords),
    {
    let n_iters = match opts.n_iters {
        Some(x) => x,
        None => 100,
    };
    let warmup_iters = match opts.warmup_iterations {
        Some(x) => x,
        None => n_iters / 2,
    };
    let rate = match opts.rate {
        Some(x) => x,
        None => 10_000,
    };
    let inertia_multiplier = match opts.inertia_multiplier {
        Some(x) => x,
        None => 900_000,
    };
    let final_rate = match opts.final_rate {
        Some(x) => x,
        None => fmul(rate, 20_000),
    };
    let central_force_param = match opts.central_force {
        Some(x) => x,
        None => 20_000_000,
    };
    let central_force = fmul(avgaff, central_force_param);
    let squeeze_rampup_rate = match opts.squeeze_rampup_rate {
        Some(x) => x,
        None => fmul(rate, 200_000),
    };
    let squeezing = match opts.retain_coords_from_squeezing {
        Some(_) => true,
        None => false,
    };
    let squeeze_rampup_iters = match opts.squeeze_rampup_iters {
        Some(x) => x,
        None => if squeezing {
            n_iters
        } else {
            0
        },
    };
    let squeeze_final_iters = match opts.squeeze_final_iters {
        Some(x) => x,
        None => if squeezing {
            n_iters
        } else {
            0
        },
    };
    let squeeze_final_force_param = match opts.squeeze_final_force {
        Some(x) => x,
        None => crate::fixed::fmuli(central_force_param, 10),
    };
    let squeeze_final_force = fmul(avgaff, squeeze_final_force_param);
    let squeeze_final_initial_rate = match opts.squeeze_final_initial_rate {
        Some(x) => x,
        None => squeeze_rampup_rate,
    };
    let coords_to_squeeze = match opts.retain_coords_from_squeezing {
        Some(r) => if r >= n_out_coords {
            0
        } else {
            n_out_coords - r
        },
        None => 0,
    };
    SimConfig {
        n_iters,
        warmup_iters,
        rate,
        inertia_multiplier,
        final_rate,
        central_force,
        squeeze_rampup_rate,
        squeeze_rampup_iters,
        squeeze_final_iters,
        squeeze_final_force,
        squeeze_final_initial_rate,
        coords_to_squeeze,
        n_out_coords,
    }
}

/// Where a run stands: the warmup and main iterations, the per-dimension
/// squeeze rampup, the squeeze finalization, or the end.
#[derive(Clone, Copy, PartialEq, Eq, Structural)]
pub enum Phase {
    /// Iteration `q` of the main loop (warmup included).
    Main { q: usize },
    /// Iteration `q` of the rampup that squeezes the `s`-th coordinate
    /// (counted from the top, starting at one).
    Rampup { s: usize, q: usize },
    /// Iteration `q` of the finalization pass.
    Finalize { q: usize },
    /// The run is over.
    Done,
}

/// The phase a run enters once the main loop is exhausted.
pub open spec fn spec_after_main(cfg: SimConfig) -> Phase {
    if cfg.coords_to_squeeze > 0 && cfg.squeeze_rampup_iters > 0 {
        Phase::Rampup { s: 1, q: 0 }
    } else if cfg.squeeze_final_iters > 0 {
        Phase::Finalize { q: 0 }
    } else {
        Phase::Done
    }
}

/// The phase a fresh run starts in.
pub open spec fn spec_first_phase(cfg: SimConfig) -> Phase {
    if cfg.n_iters > 0 {
        Phase::Main { q: 0 }
    } else {
        spec_after_main(cfg)
    }
}

/// The phase after one iteration.
pub open spec fn spec_next_phase(cfg: SimConfig, ph: Phase) -> Phase {
    match ph {
        Phase::Main { q } => if q + 1 < cfg.n_iters {
            Phase::Main { q: (q + 1) as usize }
        } else {
            spec_after_main(cfg)
        },
        Phase::Rampup { s, q } => if q + 1 < cfg.squeeze_rampup_iters {
            Phase::Rampup { s, q: (q + 1) as usize }
        } else if s + 1 <= cfg.coords_to_squeeze {
            Phase::Rampup { s: (s + 1) as usize, q: 0 }
        } else if cfg.squeeze_final_iters > 0 {
            Phase::Finalize { q: 0 }
        } else {
            Phase::Done
        },
        Phase::Finalize { q } => if q + 1 < cfg.squeeze_final_iters {
            Phase::Finalize { q: (q + 1) as usize }
        } else {
            Phase::Done
        },
        Phase::Done => Phase::Done,
    }
}

/// A phase consistent with the schedule: indices inside their loops.
pub open spec fn spec_phase_wf(cfg: SimConfig, ph: Phase) -> bool {
    match ph {
        Phase::Main { q } => q < cfg.n_iters,
        Phase::Rampup { s, q } => 1 <= s <= cfg.coords_to_squeeze && q
            < cfg.squeeze_rampup_iters,
        Phase::Finalize { q } => q < cfg.squeeze_final_iters,
        Phase::Done => true,
    }
}

/// The simulator parameters the schedule hands to `step` in phase `ph`.
pub open spec fn spec_params_at(cfg: SimConfig, ph: Phase) -> Params {
    match ph {
        Phase::Main { q } => Params {
            rate: if q < cfg.warmup_iters {
                spec_lerp(
                    spec_fmul(cfg.rate, 100_000),
                    cfg.rate,
                    q + 1,
                    cfg.n_iters as int,
                )
            } else if cfg.squeeze_final_iters == 0 {
                spec_annealed_rate(cfg.rate, cfg.final_rate, q + 1, cfg.n_iters as int)
            } else {
                cfg.rate
            },
            central_force: cfg.central_force,
            squeeze_from: cfg.n_out_coords,
            squeeze_force: cfg.central_force,
            squeeze_force2: cfg.squeeze_final_force,
            inertia_multiplier: cfg.inertia_multiplier,
        },
        Phase::Rampup { s, q } => Params {
            rate: cfg.squeeze_rampup_rate,
            central_force: cfg.central_force,
            squeeze_from: (cfg.n_out_coords - s) as usize,
            squeeze_force: spec_geo_interp(
                cfg.central_force,
                cfg.squeeze_final_force,
                q + 1,
                cfg.squeeze_rampup_iters as int,
            ),
            squeeze_force2: cfg.squeeze_final_force,
            inertia_multiplier: cfg.inertia_multiplier,
        },
        Phase::Finalize { q } => Params {
            rate: if q == 0 {
                cfg.squeeze_final_initial_rate
            } else {
                spec_annealed_rate(
                    cfg.squeeze_final_initial_rate,
                    cfg.final_rate,
                    q as int,
                    cfg.squeeze_final_iters as int,
                )
            },
            central_force: cfg.central_force,
            squeeze_from: if cfg.coords_to_squeeze > 0 {
                (cfg.n_out_coords - cfg.coords_to_squeeze) as usize
            } else {
                cfg.n_out_coords
            },
            squeeze_force: cfg.squeeze_final_force,
            squeeze_force2: cfg.squeeze_final_force,
            inertia_multiplier: cfg.inertia_multiplier,
        },
        Phase::Done => Params {
            rate: 0,
            central_force: 0,
            squeeze_from: 0,
            squeeze_force: 0,
            squeeze_force2: 0,
            inertia_multiplier: 0,
        },
    }
}

/// Whether the momentum buffer is zeroed before the step of phase `ph`: at
/// the start of each per-dimension rampup, or at the start of finalization
/// when the rampup was configured away.
pub open spec fn spec_zero_momentum_at(cfg: SimConfig, ph: Phase) -> bool {
    match ph {
        Phase::Rampup { s: _, q } => q == 0,
        Phase::Finalize { q } => q == 0 && cfg.coords_to_squeeze > 0
            && cfg.squeeze_rampup_iters == 0,
        _ => false,
    }
}

/// Iterations left from phase `ph`, plus one per phase boundary: a strictly
/// decreasing measure of progress.
pub open spec fn spec_phase_measure(cfg: SimConfig, ph: Phase) -> int {
    match ph {
        Phase::Main { q } => (cfg.n_iters - q) + cfg.coords_to_squeeze
            * cfg.squeeze_rampup_iters + cfg.squeeze_final_iters + 1,
        Phase::Rampup { s, q } => (cfg.coords_to_squeeze - s) * cfg.squeeze_rampup_iters + (
        cfg.squeeze_rampup_iters - q) + cfg.squeeze_final_iters + 1,
        Phase::Finalize { q } => (cfg.squeeze_final_iters - q) + 1,
        Phase::Done => 0,
    }
}

proof fn lemma_measure_nonneg(cfg: SimConfig, ph: Phase)
    requires
        spec_phase_wf(cfg, ph),
    ensures
        spec_phase_measure(cfg, ph) >= 0,
{
    match ph {
        Phase::Main { q } => {
            assert(cfg.coords_to_squeeze * cfg.squeeze_rampup_iters >= 0) by (nonlinear_arith);
        },
        Phase::Rampup { s, q } => {
            assert((cfg.coords_to_squeeze - s) * cfg.squeeze_rampup_iters >= 0)
                by (nonlinear_arith)
                requires
                    s <= cfg.coords_to_squeeze,
                    cfg.squeeze_rampup_iters >= 0,
            ;
        },
        _ => {},
    }
}

proof fn lemma_measure_decreases(cfg: SimConfig, ph: Phase)
    requires
        spec_phase_wf(cfg, ph),
        !(ph is Done),
    ensures
        spec_phase_measure(cfg, spec_next_phase(cfg, ph)) < spec_phase_measure(cfg, ph),
        spec_phase_wf(cfg, spec_next_phase(cfg, ph)),
{
    lemma_measure_nonneg(cfg, ph);
    match ph {
        Phase::Main { q } => {
            if !(q + 1 < cfg.n_iters) {
                assert(cfg.coords_to_squeeze * cfg.squeeze_rampup_iters >= 0)
                    by (nonlinear_arith);
                if cfg.coords_to_squeeze > 0 && cfg.squeeze_rampup_iters > 0 {
                    assert((cfg.coords_to_squeeze - 1) * cfg.squeeze_rampup_iters
                        + cfg.squeeze_rampup_iters == cfg.coords_to_squeeze
                        * cfg.squeeze_rampup_iters) by (nonlinear_arith);
                }
            }
        },
        Phase::Rampup { s, q } => {
            if q + 1 < cfg.squeeze_rampup_iters {
            } else if s + 1 <= cfg.coords_to_squeeze {
                assert((cfg.coords_to_squeeze - s) * cfg.squeeze_rampup_iters == (
                cfg.coords_to_squeeze - s - 1) * cfg.squeeze_rampup_iters
                    + cfg.squeeze_rampup_iters) by (nonlinear_arith);
            } else {
                assert((cfg.coords_to_squeeze - s) * cfg.squeeze_rampup_iters >= 0)
                    by (nonlinear_arith)
                    requires
                        s <= cfg.coords_to_squeeze,
                        cfg.squeeze_rampup_iters >= 0,
                ;
            }
        },
        Phase::Finalize { q } => {},
        Phase::Done => {},
    }
}

/// An all-zero `n x d` grid, the momentum buffer after a reset.
pub open spec fn spec_zero_grid(n: int, d: int) -> Seq<Seq<i64>> {
    Seq::new(n as nat, |j: int| Seq::new(d as nat, |c: int| 0i64))
}

/// One iteration of the schedule on a state view, exactly as `tick` performs
/// it: the phase's parameters are applied, the momentum is zeroed at a
/// squeeze boundary, the forces are computed, the scaler refreshed, and
/// every entry integrated and clamped.  The triple is (coordinates,
/// momentum, movement scaler); `n`, `d`, `w` and `aff` are the fixed
/// dimensions, weights and affinities.
pub open spec fn spec_tick_view(
    cfg: SimConfig,
    ph: Phase,
    coords: Seq<Seq<i64>>,
    inertias: Seq<Seq<i64>>,
    scaler: i64,
    n: int,
    d: int,
    w: Seq<i64>,
    aff: Seq<Seq<i64>>,
) -> (Seq<Seq<i64>>, Seq<Seq<i64>>, i64) {
    let p = spec_params_at(cfg, ph);
    let i_in = if spec_zero_momentum_at(cfg, ph) {
        spec_zero_grid(n, d)
    } else {
        inertias
    };
    let forces = Seq::new(
        n as nat,
        |j: int| Seq::new(d as nat, |c: int| spec_force(coords, aff, w, p, n, d, j, c)),
    );
    let sc = spec_new_scaler(scaler, spec_maxabs(forces, n, d));
    let c2 = Seq::new(
        n as nat,
        |j: int|
            Seq::new(
                d as nat,
                |c: int|
                    spec_clamp01(
                        spec_fadd(
                            coords[j][c],
                            spec_new_inertia_pre(i_in[j][c], forces[j][c], p.rate, sc),
                        ),
                    ),
            ),
    );
    let i2 = Seq::new(
        n as nat,
        |j: int|
            Seq::new(
                d as nat,
                |c: int|
                    spec_fmul(
                        spec_new_inertia_pre(i_in[j][c], forces[j][c], p.rate, sc),
                        p.inertia_multiplier,
                    ),
            ),
    );
    (c2, i2, sc)
}

/// The state view after the whole remaining schedule is run from phase
/// `ph`: the fold of `spec_tick_view` over the phases until `Done`.
pub open spec fn spec_run_view(
    cfg: SimConfig,
    ph: Phase,
    coords: Seq<Seq<i64>>,
    inertias: Seq<Seq<i64>>,
    scaler: i64,
    n: int,
    d: int,
    w: Seq<i64>,
    aff: Seq<Seq<i64>>,
) -> (Seq<Seq<i64>>, Seq<Seq<i64>>, i64)
    decreases spec_phase_measure(cfg, ph),
        when cfg.wf() && spec_phase_wf(cfg, ph)
        via spec_run_view_decreases
{
    if ph is Done {
        (coords, inertias, scaler)
    } else {
        let t = spec_tick_view(cfg, ph, coords, inertias, scaler, n, d, w, aff);
        spec_run_view(cfg, spec_next_phase(cfg, ph), t.0, t.1, t.2, n, d, w, aff)
    }
}

#[via_fn]
proof fn spec_run_view_decreases(
    cfg: SimConfig,
    ph: Phase,
    coords: Seq<Seq<i64>>,
    inertias: Seq<Seq<i64>>,
    scaler: i64,
    n: int,
    d: int,
    w: Seq<i64>,
    aff: Seq<Seq<i64>>,
) {
    lemma_measure_nonneg(cfg, ph);
    if !(ph is Done) {
        lemma_measure_decreases(cfg, ph);
    }
}

/// How many iterations the remaining schedule performs from phase `ph`.
pub open spec fn spec_iters_left(cfg: SimConfig, ph: Phase) -> int
    decreases spec_phase_measure(cfg, ph),
        when cfg.wf() && spec_phase_wf(cfg, ph)
        via spec_iters_left_decreases
{
    if ph is Done {
        0
    } else {
        1 + spec_iters_left(cfg, spec_next_phase(cfg, ph))
    }
}

#[via_fn]
proof fn spec_iters_left_decreases(cfg: SimConfig, ph: Phase) {
    lemma_measure_nonneg(cfg, ph);
    if !(ph is Done) {
        lemma_measure_decreases(cfg, ph);
    }
}

/// Drives a `State` through the phases, one `tick` per iteration, keeping
/// the global iteration counter a snapshot observer reads between ticks.
pub struct Driver {
    pub cfg: SimConfig,
    pub phase: Phase,
    pub iter_count: usize,
}

impl Driver {
    /// A consistent driver position.
    pub open spec fn wf(&self) -> bool {
        &&& self.cfg.wf()
        &&& spec_phase_wf(self.cfg, self.phase)
    }

    /// A fresh driver at the start of the schedule.
    pub fn new(cfg: SimConfig) -> (dr: Driver)
        requires
            cfg.wf(),
        ensures
            dr.wf(),
            dr.cfg == cfg,
            dr.phase == spec_first_phase(cfg),
            dr.iter_count == 0,
    {
        let phase = if cfg.n_iters > 0 {
            Phase::Main { q: 0 }
        } else if cfg.coords_to_squeeze > 0 && cfg.squeeze_rampup_iters > 0 {
            Phase::Rampup { s: 1, q: 0 }
        } else if cfg.squeeze_final_iters > 0 {
            Phase::Finalize { q: 0 }
        } else {
            Phase::Done
        };
        Driver { cfg, phase, iter_count: 0 }
    }

    /// Whether the schedule is exhausted.
    pub fn done(&self) -> (r: bool)
        ensures
            r == (self.phase is Done),
    {
        match self.phase {
            Phase::Done => true,
            _ => false,
        }
    }

    /// The number of iterations performed so far.
    pub fn iterations(&self) -> (r: usize)
        ensures
            r == self.iter_count,
    {
        self.iter_count
    }

    /// One iteration: compute the phase's parameters, zero the momentum at a
    /// squeeze boundary, step the simulator, and advance the phase.  The
    /// parameters used, every value the step writes, and the new phase are
    /// all pinned exactly.  Returns the largest force magnitude the step
    /// observed.
    pub fn tick(&mut self, st: &mut State) -> (maxforce: i64)
        requires
            old(self).wf(),
            !(old(self).phase is Done),
            old(st).wf(),
        ensures
            final(self).wf(),
            final(self).cfg == old(self).cfg,
            final(self).phase == spec_next_phase(old(self).cfg, old(self).phase),
            final(self).iter_count == if old(self).iter_count < usize::MAX {
                old(self).iter_count + 1
            } else {
                old(self).iter_count as int
            },
            spec_phase_measure(final(self).cfg, final(self).phase) < spec_phase_measure(
                old(self).cfg,
                old(self).phase,
            ),
            final(st).wf(),
            final(st).coords.rows == old(st).coords.rows,
            final(st).coords.cols == old(st).coords.cols,
            final(st).forces.rows == old(st).forces.rows,
            final(st).forces.cols == old(st).forces.cols,
            final(st).inertias.rows == old(st).inertias.rows,
            final(st).inertias.cols == old(st).inertias.cols,
            final(st).weights@ == old(st).weights@,
            final(st).affinities@ == old(st).affinities@,
            forall|j: int, c: int|
                0 <= j < old(st).coords.rows && 0 <= c < old(st).coords.cols
                    ==> #[trigger] final(st).forces@[j][c] == spec_force(
                    old(st).coords@,
                    old(st).affinities@,
                    old(st).weights@,
                    spec_params_at(old(self).cfg, old(self).phase),
                    old(st).coords.rows as int,
                    old(st).coords.cols as int,
                    j,
                    c,
                ),
            maxforce == spec_maxabs(
                final(st).forces@,
                old(st).coords.rows as int,
                old(st).coords.cols as int,
            ),
            final(st).movement_scaler == spec_new_scaler(old(st).movement_scaler, maxforce),
            forall|j: int, c: int|
                #![trigger final(st).coords@[j][c]]
                #![trigger final(st).inertias@[j][c]]
                0 <= j < old(st).coords.rows && 0 <= c < old(st).coords.cols
                    ==> spec_entry_step(
                    old(st).coords@[j][c],
                    if spec_zero_momentum_at(old(self).cfg, old(self).phase) {
                        0
                    } else {
                        old(st).inertias@[j][c]
                    },
                    final(st).forces@[j][c],
                    spec_params_at(old(self).cfg, old(self).phase).rate,
                    final(st).movement_scaler,
                    spec_params_at(old(self).cfg, old(self).phase).inertia_multiplier,
                    final(st).inertias@[j][c],
                    final(st).coords@[j][c],
                ),
            forall|j: int, c: int|
                0 <= j < old(st).coords.rows && 0 <= c < old(st).coords.cols ==> 0
                    <= #[trigger] final(st).coords@[j][c] <= SCALE,
    {
        let ghost cfg0 = self.cfg;
        let ghost ph0 = self.phase;
        let params: Params;
        let mut zero_momentum = false;
        match self.phase {
            Phase::Main { q } => {
                let rate = if q < self.cfg.warmup_iters {
                    lerp_fixed(fmul(self.cfg.rate, 100_000), self.cfg.rate, q + 1, self.cfg.n_iters)
                } else if self.cfg.squeeze_final_iters == 0 {
                    annealed_rate(self.cfg.rate, self.cfg.final_rate, q + 1, self.cfg.n_iters)
                } else {
                    self.cfg.rate
                };
                params = Params {
                    rate,
                    central_force: self.cfg.central_force,
                    squeeze_from: self.cfg.n_out_coords,
                    squeeze_force: self.cfg.central_force,
                    squeeze_force2: self.cfg.squeeze_final_force,
                    inertia_multiplier: self.cfg.inertia_multiplier,
                };
            },
            Phase::Rampup { s, q } => {
                let sf = geo_interp(
                    self.cfg.central_force,
                    self.cfg.squeeze_final_force,
                    q + 1,
                    self.cfg.squeeze_rampup_iters,
                );
                params = Params {
                    rate: self.cfg.squeeze_rampup_rate,
                    central_force: self.cfg.central_force,
                    squeeze_from: self.cfg.n_out_coords - s,
                    squeeze_force: sf,
                    squeeze_force2: self.cfg.squeeze_final_force,
                    inertia_multiplier: self.cfg.inertia_multiplier,
                };
                if q == 0 {
                    zero_momentum = true;
                }
            },
            Phase::Finalize { q } => {
                let rate = if q == 0 {
                    self.cfg.squeeze_final_initial_rate
                } else {
                    annealed_rate(
                        self.cfg.squeeze_final_initial_rate,
                        self.cfg.final_rate,
                        q,
                        self.cfg.squeeze_final_iters,
                    )
                };
                params = Params {
                    rate,
                    central_force: self.cfg.central_force,
                    squeeze_from: if self.cfg.coords_to_squeeze > 0 {
                        self.cfg.n_out_coords - self.cfg.coords_to_squeeze
                    } else {
                        self.cfg.n_out_coords
                    },
                    squeeze_force: self.cfg.squeeze_final_force,
                    squeeze_force2: self.cfg.squeeze_final_force,
                    inertia_multiplier: self.cfg.inertia_multiplier,
                };
                if q == 0 && self.cfg.coords_to_squeeze > 0 && self.cfg.squeeze_rampup_iters == 0 {
                    zero_momentum = true;
                }
            },
            Phase::Done => {
                params = Params {
                    rate: 0,
                    central_force: 0,
                    squeeze_from: 0,
                    squeeze_force: 0,
                    squeeze_force2: 0,
                    inertia_multiplier: 0,
                };
            },
        }
        assert(params == spec_params_at(cfg0, ph0));
        assert(zero_momentum == spec_zero_momentum_at(cfg0, ph0));
        if zero_momentum {
            st.inertias.fill(0);
        }
        let maxforce = st.step(&params);
        let next = match self.phase {
            Phase::Main { q } => if q + 1 < self.cfg.n_iters {
                Phase::Main { q: q + 1 }
            } else if self.cfg.coords_to_squeeze > 0 && self.cfg.squeeze_rampup_iters > 0 {
                Phase::Rampup { s: 1, q: 0 }
            } else if self.cfg.squeeze_final_iters > 0 {
                Phase::Finalize { q: 0 }
            } else {
                Phase::Done
            },
            Phase::Rampup { s, q } => if q + 1 < self.cfg.squeeze_rampup_iters {
                Phase::Rampup { s, q: q + 1 }
            } else if s < self.cfg.coords_to_squeeze {
                Phase::Rampup { s: s + 1, q: 0 }
            } else if self.cfg.squeeze_final_iters > 0 {
                Phase::Finalize { q: 0 }
            } else {
                Phase::Done
            },
            Phase::Finalize { q } => if q + 1 < self.cfg.squeeze_final_iters {
                Phase::Finalize { q: q + 1 }
            } else {
                Phase::Done
            },
            Phase::Done => Phase::Done,
        };
        proof {
            lemma_measure_decreases(cfg0, ph0);
        }
        self.phase = next;
        if self.iter_count < usize::MAX {
            self.iter_count = self.iter_count + 1;
        }
        maxforce
    }

    /// Run the remaining schedule to completion, one tick per iteration.
    /// Afterwards the schedule is exhausted, the iteration counter has
    /// advanced by the number of iterations the schedule held (saturating),
    /// and the state is exactly the fold of the per-tick effect over the
    /// remaining phases; the buffers keep their shapes and the weights and
    /// affinities are untouched.
    pub fn run(&mut self, st: &mut State)
        requires
            old(self).wf(),
            old(st).wf(),
        ensures
            final(self).wf(),
            final(self).cfg == old(self).cfg,
            final(self).phase is Done,
            final(self).iter_count == if old(self).iter_count + spec_iters_left(
                old(self).cfg,
                old(self).phase,
            ) <= usize::MAX {
                old(self).iter_count + spec_iters_left(old(self).cfg, old(self).phase)
            } else {
                usize::MAX as int
            },
            final(st).wf(),
            final(st).coords.rows == old(st).coords.rows,
            final(st).coords.cols == old(st).coords.cols,
            final(st).weights@ == old(st).weights@,
            final(st).affinities@ == old(st).affinities@,
            ({
                let rv = spec_run_view(
                    old(self).cfg,
                    old(self).phase,
                    old(st).coords@,
                    old(st).inertias@,
                    old(st).movement_scaler,
                    old(st).coords.rows as int,
                    old(st).coords.cols as int,
                    old(st).weights@,
                    old(st).affinities@,
                );
                final(st).coords@ == rv.0 && final(st).inertias@ == rv.1
                    && final(st).movement_scaler == rv.2
            }),
            forall|j: int, c: int|
                0 <= j < old(st).coords.rows && 0 <= c < old(st).coords.cols ==> (0
                    <= #[trigger] final(st).coords@[j][c] <= SCALE) || final(st).coords@[j][c]
                    == old(st).coords@[j][c],
    {
        let ghost cfg = self.cfg;
        let ghost c0 = st.coords@;
        let ghost i0 = st.inertias@;
        let ghost sc0 = st.movement_scaler;
        let ghost ph0 = self.phase;
        let ghost n = st.coords.rows as int;
        let ghost d = st.coords.cols as int;
        let ghost w0 = st.weights@;
        let ghost a0 = st.affinities@;
        let ghost count0 = self.iter_count as int;
        let ghost left0 = spec_iters_left(cfg, ph0);
        while !self.done()
            invariant
                self.wf(),
                self.cfg == cfg,
                cfg == old(self).cfg,
                st.wf(),
                st.coords.rows == old(st).coords.rows,
                st.coords.cols == old(st).coords.cols,
                st.weights@ == w0,
                st.affinities@ == a0,
                n == old(st).coords.rows as int,
                d == old(st).coords.cols as int,
                c0 == old(st).coords@,
                i0 == old(st).inertias@,
                sc0 == old(st).movement_scaler,
                w0 == old(st).weights@,
                a0 == old(st).affinities@,
                ph0 == old(self).phase,
                count0 == old(self).iter_count as int,
                left0 == spec_iters_left(cfg, ph0),
                spec_run_view(cfg, ph0, c0, i0, sc0, n, d, w0, a0) == spec_run_view(
                    cfg,
                    self.phase,
                    st.coords@,
                    st.inertias@,
                    st.movement_scaler,
                    n,
                    d,
                    w0,
                    a0,
                ),
                self.iter_count as int == if count0 + (left0 - spec_iters_left(cfg, self.phase))
                    <= usize::MAX {
                    count0 + (left0 - spec_iters_left(cfg, self.phase))
                } else {
                    usize::MAX as int
                },
                forall|j: int, c: int|
                    0 <= j < old(st).coords.rows && 0 <= c < old(st).coords.cols ==> (0
                        <= #[trigger] st.coords@[j][c] <= SCALE) || st.coords@[j][c] == c0[j][c],
            decreases spec_phase_measure(self.cfg, self.phase),
        {
            let ghost ph_b = self.phase;
            let ghost cb = st.coords@;
            let ghost ib = st.inertias@;
            let ghost scb = st.movement_scaler;
            self.tick(st);
            proof {
                let t = spec_tick_view(cfg, ph_b, cb, ib, scb, n, d, w0, a0);
                let p = spec_params_at(cfg, ph_b);
                let fseq = Seq::new(
                    n as nat,
                    |j: int| Seq::new(d as nat, |c: int| spec_force(cb, a0, w0, p, n, d, j, c)),
                );
                assert(st.forces@ =~~= fseq);
                assert(st.movement_scaler == t.2);
                assert forall|j: int, c: int| 0 <= j < n && 0 <= c < d implies st.coords@[j][c]
                    == t.0[j][c] && st.inertias@[j][c] == t.1[j][c] by {
                    assert(spec_entry_step(
                        cb[j][c],
                        if spec_zero_momentum_at(cfg, ph_b) {
                            0
                        } else {
                            ib[j][c]
                        },
                        st.forces@[j][c],
                        p.rate,
                        st.movement_scaler,
                        p.inertia_multiplier,
                        st.inertias@[j][c],
                        st.coords@[j][c],
                    ));
                }
                assert(st.coords@ =~~= t.0);
                assert(st.inertias@ =~~= t.1);
            }
        }
        proof {
            lemma_measure_nonneg(self.cfg, self.phase);
        }
    }
}

} // verus!
