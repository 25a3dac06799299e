//! The demand, reward and transition models of the inventory problem.
//!
//! The demand model evaluates a normal density at integer demand values in
//! fixed-point arithmetic: the exponential is computed from a table value of
//! `exp(-1)` and a fourth-order series for the fractional part, and the
//! density is cut off to zero beyond seven standard deviations.  All three
//! models are specified exactly by spec-level mirrors of the same integer
//! arithmetic.

use vstd::prelude::*;
use crate::config::{
    MDPConfig, SCALE, PARAM_LIMIT, DEMAND_LIMIT, REWARD_BOUND, WEIGHT_BOUND, UNIT_ORDER_COST,
};
use crate::fixed::{tdiv, div_pos_i128, lemma_scaled_product_le};

verus! {

/// Fixed-point value of `exp(-1)`.
pub const EXP_NEG_ONE: i64 = 367_879;

/// Fixed-point value of `sqrt(2 * pi)`.
pub const SQRT_TWO_PI: i64 = 2_506_628;

/// Arguments of `exp(-t)` at or beyond this threshold (twenty whole units)
/// yield zero: the true value is far below one fixed-point unit.
pub const EXP_ARG_LIMIT: i64 = 20_000_000;

/// Standardized scores at or beyond this magnitude (seven standard
/// deviations) yield a zero density.
pub const Z_LIMIT: i64 = 7_000_000;

/// Fourth-order series for `exp(-f)` on a fractional argument
/// `0 <= f < SCALE`, every division truncating.
pub open spec fn exp_frac_spec(f: int) -> int
    recommends
        0 <= f < SCALE,
{
    let f2 = (f * f) / (SCALE as int);
    let f3 = (f2 * f) / (SCALE as int);
    let f4 = (f3 * f) / (SCALE as int);
    SCALE - f + f2 / 2 - f3 / 6 + f4 / 24
}

/// `exp(-k)` for a whole-number argument `k`, as the `k`-th scaled power of
/// `EXP_NEG_ONE`.
pub open spec fn exp_whole_spec(k: nat) -> int
    decreases k,
{
    if k == 0 {
        SCALE as int
    } else {
        (exp_whole_spec((k - 1) as nat) * EXP_NEG_ONE) / (SCALE as int)
    }
}

/// `exp(-t)` for a nonnegative fixed-point argument `t`: zero beyond the
/// cutoff, otherwise the whole-number power times the fractional series.
pub open spec fn exp_neg_spec(t: int) -> int
    recommends
        t >= 0,
{
    if t >= EXP_ARG_LIMIT {
        0
    } else {
        (exp_whole_spec((t / (SCALE as int)) as nat) * exp_frac_spec(t % (SCALE as int))) / (SCALE as int)
    }
}

/// The normal density's normalizing constant `1 / (std * sqrt(2 * pi))`,
/// in fixed point (the numerator is `SCALE` cubed).
pub open spec fn norm_const_spec(std: int) -> int
    recommends
        1 <= std,
{
    1_000_000_000_000_000_000int / (std * (SQRT_TWO_PI as int))
}

/// Normal density at fixed-point abscissa `x`: the standardized score is
/// `z = (x - mean) * SCALE / std`, and the density is
/// `norm_const * exp(-z^2 / 2)`, zero beyond seven standard deviations.
pub open spec fn pdf_spec(x: int, mean: int, std: int) -> int
    recommends
        1 <= std,
{
    let z = tdiv((x - mean) * SCALE, std);
    if z >= Z_LIMIT || z <= -Z_LIMIT {
        0
    } else {
        (norm_const_spec(std) * exp_neg_spec(((z * z) / (SCALE as int)) / 2)) / (SCALE as int)
    }
}

/// Likelihood weight of integer demand `d`: zero for negative demand,
/// otherwise the normal density at `d` under the configured moments.
pub open spec fn weight_spec(cfg: MDPConfig, d: int) -> int {
    if d < 0 {
        0
    } else {
        pdf_spec(d * SCALE, cfg.demand_mean as int, cfg.demand_std as int)
    }
}

/// Single-period payoff of ordering `action` units at inventory `state`
/// when `demand` materializes: sales revenue, less holding cost on the
/// period-start level, less ordering cost (a fixed part plus a per-unit
/// part, only when an order is placed), less the stockout penalty on
/// unmet demand.
pub open spec fn reward_spec(cfg: MDPConfig, state: int, action: int, demand: int) -> int {
    let sales = if state <= demand {
        state
    } else {
        demand
    };
    let ordering = if action > 0 {
        cfg.order_cost + action * UNIT_ORDER_COST
    } else {
        0
    };
    let shortfall = if demand > state {
        demand - state
    } else {
        0
    };
    sales * cfg.selling_price - state * cfg.holding_cost - ordering - shortfall
        * cfg.stockout_cost
}

/// Deterministic next inventory level: `state + action - demand`, clipped
/// into `[0, max_inventory]` at both ends.
pub open spec fn next_state_spec(cfg: MDPConfig, state: int, action: int, demand: int) -> int {
    let net = state + action - demand;
    if net < 0 {
        0
    } else if net > cfg.max_inventory {
        cfg.max_inventory as int
    } else {
        net
    }
}

/// Every scaled power of `EXP_NEG_ONE` lies in `[0, SCALE]`.
pub proof fn lemma_exp_whole_bounds(k: nat)
    ensures
        0 <= exp_whole_spec(k) <= SCALE,
    decreases k,
{
    if k > 0 {
        lemma_exp_whole_bounds((k - 1) as nat);
        lemma_scaled_product_le(exp_whole_spec((k - 1) as nat), EXP_NEG_ONE as int, SCALE as int);
        vstd::arithmetic::div_mod::lemma_div_is_ordered(
            exp_whole_spec((k - 1) as nat) * EXP_NEG_ONE,
            exp_whole_spec((k - 1) as nat) * SCALE,
            SCALE as int,
        );
    }
}

/// The fractional series stays in `[0, SCALE]` on its domain.
pub proof fn lemma_exp_frac_bounds(f: int)
    requires
        0 <= f < SCALE,
    ensures
        0 <= exp_frac_spec(f) <= SCALE,
{
    let f2 = (f * f) / (SCALE as int);
    let f3 = (f2 * f) / (SCALE as int);
    let f4 = (f3 * f) / (SCALE as int);
    lemma_scaled_product_le(f, f, SCALE as int);
    lemma_scaled_product_le(f2, f, SCALE as int);
    lemma_scaled_product_le(f3, f, SCALE as int);
    vstd::arithmetic::div_mod::lemma_div_is_ordered(f3, f2, 6);
    vstd::arithmetic::div_mod::lemma_div_is_ordered(f4, f3, 24);
    assert(f2 / 6 <= f2 / 2) by {
        vstd::arithmetic::div_mod::lemma_div_is_ordered_by_denominator(f2, 2, 6);
    }
    assert(f3 / 24 <= f3 / 6) by {
        vstd::arithmetic::div_mod::lemma_div_is_ordered_by_denominator(f3, 6, 24);
    }
    vstd::arithmetic::div_mod::lemma_div_pos_is_pos(f2, 2);
    vstd::arithmetic::div_mod::lemma_div_pos_is_pos(f3, 6);
    vstd::arithmetic::div_mod::lemma_div_pos_is_pos(f4, 24);
    assert(f2 / 2 <= f2);
    assert(f2 <= f);
}

/// Computes the fractional series `exp_frac_spec` exactly.
fn exp_frac(f: u64) -> (r: u64)
    requires
        f < 1_000_000,
    ensures
        r == exp_frac_spec(f as int),
        r <= 1_000_000,
{
    proof {
        lemma_exp_frac_bounds(f as int);
        lemma_scaled_product_le(f as int, f as int, SCALE as int);
        lemma_scaled_product_le(((f * f) as int) / (SCALE as int), f as int, SCALE as int);
        lemma_scaled_product_le(
            ((((f * f) as int) / (SCALE as int)) * f) / (SCALE as int),
            f as int,
            SCALE as int,
        );
    }
    let f2: u64 = f * f / 1_000_000;
    let f3: u64 = f2 * f / 1_000_000;
    let f4: u64 = f3 * f / 1_000_000;
    proof {
        vstd::arithmetic::div_mod::lemma_div_is_ordered(f3 as int, f2 as int, 6);
        vstd::arithmetic::div_mod::lemma_div_is_ordered_by_denominator(f2 as int, 2, 6);
        vstd::arithmetic::div_mod::lemma_div_is_ordered(f4 as int, f3 as int, 24);
    }
    1_000_000 - f + f2 / 2 - f3 / 6 + f4 / 24
}

/// Computes `exp_neg_spec` exactly: `exp(-t)` for a nonnegative
/// fixed-point argument.
fn exp_neg(t: u64) -> (r: u64)
    ensures
        r == exp_neg_spec(t as int),
        r <= 1_000_000,
{
    if t >= 20_000_000 {
        0
    } else {
        let k: u64 = t / 1_000_000;
        let f: u64 = t % 1_000_000;
        let mut p: u64 = 1_000_000;
        let mut i: u64 = 0;
        proof {
            lemma_exp_whole_bounds(0);
        }
        while i < k
            invariant
                i <= k,
                k < 20,
                p == exp_whole_spec(i as nat),
                0 <= p <= 1_000_000,
            decreases k - i,
        {
            proof {
                lemma_exp_whole_bounds((i + 1) as nat);
            }
            p = p * 367_879 / 1_000_000;
            i = i + 1;
        }
        let e: u64 = exp_frac(f);
        proof {
            lemma_scaled_product_le(p as int, e as int, SCALE as int);
            assert((p as int) * (e as int) <= (p as int) * (SCALE as int)) by (nonlinear_arith)
                requires
                    0 <= p,
                    0 <= e <= SCALE;
            vstd::arithmetic::div_mod::lemma_div_is_ordered(
                (p as int) * (e as int),
                (p as int) * (SCALE as int),
                SCALE as int,
            );
            vstd::arithmetic::div_mod::lemma_div_multiples_vanish(p as int, SCALE as int);
            assert((p as int) * (SCALE as int) == (SCALE as int) * (p as int)) by (nonlinear_arith);
        }
        p * e / 1_000_000
    }
}

/// Computes the normalizing constant `norm_const_spec` exactly.
fn norm_const(std: i64) -> (r: i64)
    requires
        1 <= std <= PARAM_LIMIT,
    ensures
        r == norm_const_spec(std as int),
        0 <= r <= WEIGHT_BOUND,
{
    let d: u128 = (std as u128) * 2_506_628;
    let q: u128 = 1_000_000_000_000_000_000u128 / d;
    proof {
        assert((std as u128) * 2_506_628 == (std as int) * (SQRT_TWO_PI as int)) by (nonlinear_arith)
            requires
                1 <= std <= PARAM_LIMIT;
        vstd::arithmetic::div_mod::lemma_div_pos_is_pos(
            1_000_000_000_000_000_000,
            (std as int) * (SQRT_TWO_PI as int),
        );
        vstd::arithmetic::div_mod::lemma_div_is_ordered_by_denominator(
            1_000_000_000_000_000_000,
            SQRT_TWO_PI as int,
            (std as int) * (SQRT_TWO_PI as int),
        );
        assert(SQRT_TWO_PI as int <= (std as int) * (SQRT_TWO_PI as int)) by (nonlinear_arith)
            requires
                1 <= std;
        assert(1_000_000_000_000_000_000int / (SQRT_TWO_PI as int) < WEIGHT_BOUND);
    }
    q as i64
}

/// Normal density at fixed-point abscissa `x` with the given moments;
/// computes `pdf_spec` exactly.
pub fn normal_pdf(x: i64, mean: i64, std: i64) -> (r: i64)
    requires
        1 <= std <= PARAM_LIMIT,
        -1_000_000_000_000_000 <= x <= 1_000_000_000_000_000,
        -PARAM_LIMIT <= mean <= PARAM_LIMIT,
    ensures
        r == pdf_spec(x as int, mean as int, std as int),
        0 <= r <= WEIGHT_BOUND,
{
    let num: i128 = ((x - mean) as i128) * 1_000_000;
    let z: i128 = div_pos_i128(num, std as u64);
    if z >= 7_000_000 || z <= -7_000_000 {
        0
    } else {
        proof {
            assert(z * z >= 0 && z * z < 49_000_000_000_000) by (nonlinear_arith)
                requires
                    -7_000_000 < z < 7_000_000;
        }
        let zz: u128 = (z * z) as u128;
        let t: u64 = ((zz / 1_000_000) / 2) as u64;
        let e: u64 = exp_neg(t);
        let nc: i64 = norm_const(std);
        proof {
            assert((nc as int) * (e as int) <= (nc as int) * (SCALE as int)
                && 0 <= (nc as int) * (e as int)) by (nonlinear_arith)
                requires
                    0 <= nc,
                    0 <= e <= SCALE;
            assert((nc as int) * (SCALE as int) <= 400_000_000_000_000_000int) by (nonlinear_arith)
                requires
                    0 <= nc <= WEIGHT_BOUND;
            vstd::arithmetic::div_mod::lemma_div_is_ordered(
                (nc as int) * (e as int),
                (nc as int) * (SCALE as int),
                SCALE as int,
            );
            vstd::arithmetic::div_mod::lemma_div_multiples_vanish(nc as int, SCALE as int);
            assert((nc as int) * (SCALE as int) == (SCALE as int) * (nc as int)) by (nonlinear_arith);
            vstd::arithmetic::div_mod::lemma_div_pos_is_pos(
                (nc as int) * (e as int),
                SCALE as int,
            );
        }
        let prod: u128 = (nc as u128) * (e as u128);
        (prod / 1_000_000) as i64
    }
}

/// Likelihood weight of integer demand `d` (the `DemandModel`): zero for
/// negative demand, otherwise the configured normal density at `d`;
/// computes `weight_spec` exactly.  The upper bound on `d` only keeps the
/// fixed-point abscissa `d * SCALE` representable; the weight at any such
/// demand is already zero far above the mean.
pub fn demand_probability(cfg: &MDPConfig, d: i64) -> (r: i64)
    requires
        cfg.valid(),
        d <= 1_000_000_000,
    ensures
        r == weight_spec(*cfg, d as int),
        0 <= r <= WEIGHT_BOUND,
        d < 0 ==> r == 0,
{
    if d < 0 {
        0
    } else {
        normal_pdf(d * 1_000_000, cfg.demand_mean, cfg.demand_std)
    }
}

/// Single-period payoff (the `RewardModel`); computes `reward_spec`
/// exactly and stays within `REWARD_BOUND`.
pub fn immediate_reward(cfg: &MDPConfig, state: usize, action: usize, demand: i64) -> (r: i64)
    requires
        cfg.valid(),
        state <= cfg.max_inventory,
        action <= cfg.max_inventory - state,
        0 <= demand <= DEMAND_LIMIT,
    ensures
        r == reward_spec(*cfg, state as int, action as int, demand as int),
        -REWARD_BOUND <= r <= REWARD_BOUND,
{
    let s64: i64 = state as i64;
    let sales: i64 = if s64 <= demand {
        s64
    } else {
        demand
    };
    proof {
        assert(0 <= sales * cfg.selling_price <= 100_000_000_000_000_000int) by (nonlinear_arith)
            requires
                0 <= sales <= 1_000_000,
                0 <= cfg.selling_price <= PARAM_LIMIT;
        assert(0 <= (s64 as int) * cfg.holding_cost <= 10_000_000_000_000_000int) by (nonlinear_arith)
            requires
                0 <= s64 <= 100_000,
                0 <= cfg.holding_cost <= PARAM_LIMIT;
    }
    let revenue: i64 = sales * cfg.selling_price;
    let holding: i64 = s64 * cfg.holding_cost;
    let ordering: i64 = if action > 0 {
        cfg.order_cost + (action as i64) * 5_000_000
    } else {
        0
    };
    let shortfall: i64 = if demand > s64 {
        demand - s64
    } else {
        0
    };
    proof {
        assert(0 <= (shortfall as int) * cfg.stockout_cost <= 100_000_000_000_000_000int)
            by (nonlinear_arith)
            requires
                0 <= shortfall <= 1_000_000,
                0 <= cfg.stockout_cost <= PARAM_LIMIT;
    }
    let stockout: i64 = shortfall * cfg.stockout_cost;
    revenue - holding - ordering - stockout
}

/// Deterministic next inventory level (the `TransitionModel`); computes
/// `next_state_spec` exactly, and the result always lies in
/// `[0, max_inventory]`, whatever the demand.
pub fn next_state(cfg: &MDPConfig, state: usize, action: usize, demand: i64) -> (r: usize)
    requires
        cfg.valid(),
        state <= cfg.max_inventory,
        action <= cfg.max_inventory - state,
        demand >= 0,
    ensures
        r == next_state_spec(*cfg, state as int, action as int, demand as int),
        r <= cfg.max_inventory,
{
    let net: i64 = state as i64 + action as i64 - demand;
    if net < 0 {
        0
    } else if net > cfg.max_inventory as i64 {
        cfg.max_inventory
    } else {
        net as usize
    }
}

/// Peak-density law: when the demand mean is a whole number, the weight at
/// the mean itself is exactly the normalizing constant
/// `1 / (std * sqrt(2 * pi))` — the exponential factor is exactly one.
pub proof fn lemma_peak_density(cfg: MDPConfig, d: int)
    requires
        cfg.valid(),
        (cfg.demand_mean as int) % (SCALE as int) == 0,
        d == (cfg.demand_mean as int) / (SCALE as int),
    ensures
        weight_spec(cfg, d) == norm_const_spec(cfg.demand_std as int),
{
    vstd::arithmetic::div_mod::lemma_div_pos_is_pos(cfg.demand_mean as int, SCALE as int);
    vstd::arithmetic::div_mod::lemma_fundamental_div_mod(cfg.demand_mean as int, SCALE as int);
    assert(d * SCALE == cfg.demand_mean) by (nonlinear_arith)
        requires
            cfg.demand_mean as int == (SCALE as int) * ((cfg.demand_mean as int) / (SCALE as int)),
            d == (cfg.demand_mean as int) / (SCALE as int);
    let z = tdiv((d * SCALE - cfg.demand_mean) * SCALE, cfg.demand_std as int);
    assert((d * SCALE - cfg.demand_mean) * SCALE == 0) by (nonlinear_arith)
        requires
            d * SCALE == cfg.demand_mean;
    assert(z == 0) by {
        vstd::arithmetic::div_mod::lemma_div_of0(cfg.demand_std as int);
    }
    assert((z * z) / (SCALE as int) / 2 == 0) by {
        vstd::arithmetic::div_mod::lemma_div_of0(SCALE as int);
        vstd::arithmetic::div_mod::lemma_div_of0(2);
    }
    assert(exp_neg_spec(0) == SCALE) by {
        assert(exp_whole_spec(0nat) == SCALE);
        assert(exp_frac_spec(0) == SCALE) by {
            vstd::arithmetic::div_mod::lemma_div_of0(SCALE as int);
            vstd::arithmetic::div_mod::lemma_div_of0(2);
            vstd::arithmetic::div_mod::lemma_div_of0(6);
            vstd::arithmetic::div_mod::lemma_div_of0(24);
        }
        vstd::arithmetic::div_mod::lemma_div_multiples_vanish(SCALE as int, SCALE as int);
    }
    assert(weight_spec(cfg, d) == (norm_const_spec(cfg.demand_std as int) * (SCALE as int)) / (
    SCALE as int));
    vstd::arithmetic::div_mod::lemma_div_multiples_vanish(
        norm_const_spec(cfg.demand_std as int),
        SCALE as int,
    );
    assert(norm_const_spec(cfg.demand_std as int) * (SCALE as int) == (SCALE as int)
        * norm_const_spec(cfg.demand_std as int)) by (nonlinear_arith);
}

} // verus!
