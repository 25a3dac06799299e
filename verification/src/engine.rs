//! The optimization engine: the Bellman operator over one state and the
//! in-place (Gauss-Seidel) value-iteration loop with convergence tracking.
//!
//! The engine owns the value function, the policy and the Q-table; sweeps
//! update them in place, visiting states in increasing order, so that later
//! states of the same sweep already see this sweep's values for lower
//! states.

use vstd::prelude::*;
use vstd::string::StringExecFns;
use crate::config::{MDPConfig, MdpError, SCALE, VALUE_BOUND, REWARD_BOUND, WEIGHT_BOUND};
use crate::fixed::{tdiv, div_scale_i64, div_pos_i128, lemma_discount_bound};
use crate::models::{
    weight_spec, reward_spec, next_state_spec, demand_probability, immediate_reward, next_state,
};
use crate::simulate::TransportMode;

verus! {

/// Magnitude bound on one accumulation term of a Bellman backup:
/// `WEIGHT_BOUND * (REWARD_BOUND + VALUE_BOUND)`.
pub const TERM_BOUND: i128 = 520_000_000_000_000_000_000_000_000_000;

/// Largest demand value (whole units) included in a Bellman backup:
/// `demand_mean + 4 * demand_std`, truncated to a whole number.  Tail mass
/// beyond four standard deviations is treated as exactly zero.
pub open spec fn demand_horizon(cfg: MDPConfig) -> int {
    tdiv(cfg.demand_mean + 4 * cfg.demand_std, SCALE as int)
}

/// One accumulation term of the Bellman backup at `(state, action)` for
/// demand `d`: the demand weight times immediate reward plus discounted
/// value at the successor state.
pub open spec fn q_term(cfg: MDPConfig, v: Seq<i64>, state: int, action: int, d: int) -> int {
    weight_spec(cfg, d) * (reward_spec(cfg, state, action, d) + tdiv(
        cfg.gamma * v[next_state_spec(cfg, state, action, d)],
        SCALE as int,
    ))
}

/// Partial sum of the Bellman backup over demands `0 .. n`.
pub open spec fn q_partial(cfg: MDPConfig, v: Seq<i64>, state: int, action: int, n: nat) -> int
    decreases n,
{
    if n == 0 {
        0
    } else {
        q_partial(cfg, v, state, action, (n - 1) as nat) + q_term(cfg, v, state, action, n - 1)
    }
}

/// The expected discounted return of taking `action` in `state` under value
/// estimates `v`: the weighted sum over the truncated demand range, scaled
/// back down once.
pub open spec fn q_value_spec(cfg: MDPConfig, v: Seq<i64>, state: int, action: int) -> int {
    tdiv(q_partial(cfg, v, state, action, (demand_horizon(cfg) + 1) as nat), SCALE as int)
}

/// All feasible actions of `state` have representable backups.
pub open spec fn row_fits(cfg: MDPConfig, v: Seq<i64>, state: int) -> bool {
    forall|a: int|
        0 <= a <= cfg.max_inventory - state ==> -VALUE_BOUND <= #[trigger] q_value_spec(
            cfg,
            v,
            state,
            a,
        ) <= VALUE_BOUND
}

/// Best (value, action) pair over the action prefix `0 .. n`, ties resolved
/// toward the lower action index: only a strictly larger backup displaces
/// the incumbent.
pub open spec fn best_prefix(cfg: MDPConfig, v: Seq<i64>, state: int, n: nat) -> (int, int)
    decreases n,
{
    if n <= 1 {
        (q_value_spec(cfg, v, state, 0), 0)
    } else {
        let prev = best_prefix(cfg, v, state, (n - 1) as nat);
        let q = q_value_spec(cfg, v, state, n - 1);
        if q > prev.0 {
            (q, n - 1)
        } else {
            prev
        }
    }
}

/// The best achievable backup value at `state` over all feasible actions.
pub open spec fn best_value_spec(cfg: MDPConfig, v: Seq<i64>, state: int) -> int {
    best_prefix(cfg, v, state, (cfg.max_inventory - state + 1) as nat).0
}

/// The lowest action index achieving `best_value_spec` at `state`.
pub open spec fn best_action_spec(cfg: MDPConfig, v: Seq<i64>, state: int) -> int {
    best_prefix(cfg, v, state, (cfg.max_inventory - state + 1) as nat).1
}

/// The pair returned by `best_prefix` really is a maximum with ties
/// resolved toward the lower action: the chosen action lies in the prefix
/// and achieves the returned value, no action of the prefix exceeds it,
/// and every action below the chosen one is strictly worse.
pub proof fn lemma_best_prefix_is_max(cfg: MDPConfig, v: Seq<i64>, state: int, n: nat)
    requires
        n >= 1,
    ensures
        0 <= best_prefix(cfg, v, state, n).1 < n,
        best_prefix(cfg, v, state, n).0 == q_value_spec(
            cfg,
            v,
            state,
            best_prefix(cfg, v, state, n).1,
        ),
        forall|a: int|
            0 <= a < n ==> #[trigger] q_value_spec(cfg, v, state, a) <= best_prefix(
                cfg,
                v,
                state,
                n,
            ).0,
        forall|a: int|
            0 <= a < best_prefix(cfg, v, state, n).1 ==> #[trigger] q_value_spec(cfg, v, state, a)
                < best_prefix(cfg, v, state, n).0,
    decreases n,
{
    if n > 1 {
        lemma_best_prefix_is_max(cfg, v, state, (n - 1) as nat);
    }
}

/// Value estimates after the first `k` states of one in-place sweep that
/// started from `v`: each state's new best value is written back
/// immediately, so later states see the updated entries (Gauss-Seidel
/// order).
pub open spec fn sweep_values(cfg: MDPConfig, v: Seq<i64>, k: nat) -> Seq<i64>
    decreases k,
{
    if k == 0 {
        v
    } else {
        let prev = sweep_values(cfg, v, (k - 1) as nat);
        prev.update(k - 1, best_value_spec(cfg, prev, k - 1) as i64)
    }
}

/// Policy after the first `k` states of one in-place sweep: each state
/// records the best action against the value estimates it saw.
pub open spec fn sweep_policy(cfg: MDPConfig, v: Seq<i64>, pol: Seq<usize>, k: nat) -> Seq<usize>
    decreases k,
{
    if k == 0 {
        pol
    } else {
        sweep_policy(cfg, v, pol, (k - 1) as nat).update(
            k - 1,
            best_action_spec(cfg, sweep_values(cfg, v, (k - 1) as nat), k - 1) as usize,
        )
    }
}

/// Largest per-state value change over the first `k` states of one
/// in-place sweep starting from `v`.
pub open spec fn sweep_delta(cfg: MDPConfig, v: Seq<i64>, k: nat) -> int
    decreases k,
{
    if k == 0 {
        0
    } else {
        let dprev = sweep_delta(cfg, v, (k - 1) as nat);
        let prev = sweep_values(cfg, v, (k - 1) as nat);
        let nv = best_value_spec(cfg, prev, k - 1);
        let d = if prev[k - 1] >= nv {
            prev[k - 1] - nv
        } else {
            nv - prev[k - 1]
        };
        if d > dprev {
            d
        } else {
            dprev
        }
    }
}

/// Every one of the first `k` states of the sweep starting from `v` had a
/// representable backup row when its turn came.
pub open spec fn sweep_fits_upto(cfg: MDPConfig, v: Seq<i64>, k: nat) -> bool
    decreases k,
{
    if k == 0 {
        true
    } else {
        sweep_fits_upto(cfg, v, (k - 1) as nat) && row_fits(
            cfg,
            sweep_values(cfg, v, (k - 1) as nat),
            k - 1,
        )
    }
}

/// Value estimates after `i` full in-place sweeps from `v0`.
pub open spec fn run_values(cfg: MDPConfig, v0: Seq<i64>, i: nat) -> Seq<i64>
    decreases i,
{
    if i == 0 {
        v0
    } else {
        sweep_values(cfg, run_values(cfg, v0, (i - 1) as nat), (cfg.max_inventory + 1) as nat)
    }
}

/// Policy after `i` full in-place sweeps from values `v0` and policy
/// `pol0`.
pub open spec fn run_policy(cfg: MDPConfig, v0: Seq<i64>, pol0: Seq<usize>, i: nat) -> Seq<usize>
    decreases i,
{
    if i == 0 {
        pol0
    } else {
        sweep_policy(
            cfg,
            run_values(cfg, v0, (i - 1) as nat),
            run_policy(cfg, v0, pol0, (i - 1) as nat),
            (cfg.max_inventory + 1) as nat,
        )
    }
}

/// Largest per-state value change of the `i`-th sweep (`i >= 1`) of a run
/// from `v0`.
pub open spec fn run_delta(cfg: MDPConfig, v0: Seq<i64>, i: nat) -> int
    recommends
        i >= 1,
{
    sweep_delta(cfg, run_values(cfg, v0, (i - 1) as nat), (cfg.max_inventory + 1) as nat)
}

/// Whether a run from `v` with tolerance `eps` and the given sweep budget
/// keeps every backup representable until it stops: each attempted sweep
/// must fit in full, and the run stops at the first sweep whose change
/// drops below the tolerance, or when the budget runs out.
pub open spec fn run_fits(cfg: MDPConfig, v: Seq<i64>, eps: int, budget: nat) -> bool
    decreases budget,
{
    if budget == 0 {
        true
    } else if !sweep_fits_upto(cfg, v, (cfg.max_inventory + 1) as nat) {
        false
    } else if sweep_delta(cfg, v, (cfg.max_inventory + 1) as nat) < eps {
        true
    } else {
        run_fits(cfg, sweep_values(cfg, v, (cfg.max_inventory + 1) as nat), eps, (budget - 1) as nat)
    }
}

/// If a whole prefix of a sweep fits, so does any shorter prefix.
pub proof fn lemma_sweep_fits_monotone(cfg: MDPConfig, v: Seq<i64>, k1: nat, k2: nat)
    requires
        k1 <= k2,
        sweep_fits_upto(cfg, v, k2),
    ensures
        sweep_fits_upto(cfg, v, k1),
    decreases k2,
{
    if k1 < k2 {
        lemma_sweep_fits_monotone(cfg, v, k1, (k2 - 1) as nat);
    }
}

/// Convergence record of one value-iteration run: whether the run stopped
/// because the sweep change dropped below the tolerance, how many sweeps
/// ran, the last sweep's change, and the change of every sweep in order.
#[derive(Clone, Debug)]
pub struct ConvergenceInfo {
    /// True when the run stopped below the tolerance within the budget.
    pub converged: bool,
    /// Number of sweeps performed.
    pub iterations: usize,
    /// Maximum per-state value change of the last sweep (zero if none ran).
    pub final_delta: i64,
    /// Maximum per-state value change of each sweep, in sweep order.
    pub delta_history: Vec<i64>,
}

/// The value-iteration engine.  It exclusively owns the value function, the
/// policy and the Q-table; all three are index-aligned to states
/// `0 ..= max_inventory`.
#[derive(Debug)]
pub struct MDPOptimizer {
    /// The validated problem parameters.
    pub config: MDPConfig,
    /// Current value estimate per state, fixed-point.
    pub value_function: Vec<i64>,
    /// Current best-known action per state.
    pub policy: Vec<usize>,
    /// Last computed backup per state and action; entries for infeasible
    /// actions are stale and never read.
    pub q_values: Vec<Vec<i64>>,
    /// Shipping catalog consulted by the episode simulator.
    pub transport_modes: Vec<TransportMode>,
}

impl MDPOptimizer {
    /// Structural invariant: a valid configuration, index-aligned buffers of
    /// length `max_inventory + 1`, bounded value estimates, and a feasible
    /// action recorded for every state.
    pub open spec fn wf(self) -> bool {
        &&& self.config.valid()
        &&& self.value_function@.len() == self.config.max_inventory + 1
        &&& self.policy@.len() == self.config.max_inventory + 1
        &&& self.q_values@.len() == self.config.max_inventory + 1
        &&& forall|s: int|
            0 <= s < self.q_values@.len() ==> (#[trigger] self.q_values@[s])@.len()
                == self.config.max_inventory + 1
        &&& forall|s: int|
            0 <= s < self.value_function@.len() ==> -VALUE_BOUND
                <= #[trigger] self.value_function@[s] <= VALUE_BOUND
        &&& forall|s: int|
            0 <= s < self.policy@.len() ==> #[trigger] self.policy@[s]
                <= self.config.max_inventory - s
        &&& forall|i: int|
            0 <= i < self.transport_modes@.len() ==> 0 <= (#[trigger] self.transport_modes@[i]).cost
                <= 100_000_000_000
    }

    /// Builds an engine for a configuration, failing fast on an invalid one.
    /// Value estimates and policy start at zero; the transport catalog holds
    /// the four standard modes.
    pub fn new(config: MDPConfig) -> (r: Result<MDPOptimizer, MdpError>)
        ensures
            r is Ok <==> config.valid(),
            r matches Err(e) ==> e == MdpError::InvalidConfig,
            r matches Ok(o) ==> {
                &&& o.wf()
                &&& o.config == config
                &&& forall|s: int|
                    0 <= s < o.value_function@.len() ==> #[trigger] o.value_function@[s] == 0
                &&& forall|s: int| 0 <= s < o.policy@.len() ==> #[trigger] o.policy@[s] == 0
                &&& forall|s: int, a: int|
                    0 <= s < o.q_values@.len() && 0 <= a < o.q_values@[s]@.len()
                        ==> #[trigger] o.q_values@[s]@[a] == 0
                &&& o.transport_modes@.len() == 4
                &&& o.transport_modes@[0].name@ == "truck"@
                &&& o.transport_modes@[0].cost == 100_000_000
                &&& o.transport_modes@[0].time == 1
                &&& o.transport_modes@[1].name@ == "ship"@
                &&& o.transport_modes@[1].cost == 50_000_000
                &&& o.transport_modes@[1].time == 3
                &&& o.transport_modes@[2].name@ == "rail"@
                &&& o.transport_modes@[2].cost == 75_000_000
                &&& o.transport_modes@[2].time == 2
                &&& o.transport_modes@[3].name@ == "air"@
                &&& o.transport_modes@[3].cost == 200_000_000
                &&& o.transport_modes@[3].time == 0
            },
    {
        match config.validate() {
            Err(e) => Err(e),
            Ok(()) => {
                let size: usize = config.max_inventory + 1;
                let value_function = zero_i64_vec(size);
                let policy = zero_usize_vec(size);
                let mut q_values: Vec<Vec<i64>> = Vec::new();
                let mut i: usize = 0;
                while i < size
                    invariant
                        q_values@.len() == i,
                        i <= size,
                        forall|s: int|
                            0 <= s < i ==> (#[trigger] q_values@[s])@.len() == size,
                        forall|s: int, a: int|
                            0 <= s < i && 0 <= a < size ==> #[trigger] q_values@[s]@[a] == 0,
                    decreases size - i,
                {
                    q_values.push(zero_i64_vec(size));
                    i = i + 1;
                }
                let mut transport_modes: Vec<TransportMode> = Vec::new();
                transport_modes.push(
                    TransportMode { name: String::from_str("truck"), cost: 100_000_000, time: 1 },
                );
                transport_modes.push(
                    TransportMode { name: String::from_str("ship"), cost: 50_000_000, time: 3 },
                );
                transport_modes.push(
                    TransportMode { name: String::from_str("rail"), cost: 75_000_000, time: 2 },
                );
                transport_modes.push(
                    TransportMode { name: String::from_str("air"), cost: 200_000_000, time: 0 },
                );
                Ok(MDPOptimizer { config, value_function, policy, q_values, transport_modes })
            },
        }
    }

    /// The Bellman operator at one state: recomputes the backup of every
    /// feasible action into the Q-table row and returns the best value and
    /// the lowest action achieving it.  Value estimates and policy are not
    /// touched.  Fails with an internal error — leaving the engine
    /// unchanged — exactly when some feasible backup leaves the
    /// representable range.
    pub fn bellman_update(&mut self, state: usize) -> (r: Result<(i64, usize), MdpError>)
        requires
            old(self).wf(),
            state <= old(self).config.max_inventory,
        ensures
            final(self).wf(),
            final(self).config == old(self).config,
            final(self).value_function == old(self).value_function,
            final(self).policy == old(self).policy,
            final(self).transport_modes == old(self).transport_modes,
            final(self).q_values@.len() == old(self).q_values@.len(),
            forall|s: int|
                0 <= s < final(self).q_values@.len() && s != state ==> final(self).q_values@[s]
                    == old(self).q_values@[s],
            r is Ok <==> row_fits(
                old(self).config,
                old(self).value_function@,
                state as int,
            ),
            r matches Err(e) ==> e == MdpError::InternalError && *final(self) == *old(self),
            r matches Ok(p) ==> {
                &&& p.0 == best_value_spec(
                    old(self).config,
                    old(self).value_function@,
                    state as int,
                )
                &&& p.1 == best_action_spec(
                    old(self).config,
                    old(self).value_function@,
                    state as int,
                )
                &&& p.1 <= old(self).config.max_inventory - state
                &&& -VALUE_BOUND <= p.0 <= VALUE_BOUND
                &&& forall|a: int|
                    0 <= a <= old(self).config.max_inventory - state
                        ==> final(self).q_values@[state as int]@[a] == q_value_spec(
                        old(self).config,
                        old(self).value_function@,
                        state as int,
                        a,
                    )
                &&& forall|a: int|
                    old(self).config.max_inventory - state < a < final(self).q_values@[
                        state as int
                    ]@.len() ==> final(self).q_values@[state as int]@[a] == 0
            },
    {
        let cfg = self.config;
        let ghost oldv = self.value_function@;
        let max_action: usize = cfg.max_inventory - state;
        let horizon_scaled: i64 = cfg.demand_mean + 4 * cfg.demand_std;
        let dmax: i64 = div_scale_i64(horizon_scaled);
        proof {
            assert(dmax == demand_horizon(cfg));
            assert(0 <= dmax <= 500_000);
        }
        let mut row = zero_i64_vec(cfg.max_inventory + 1);
        let mut best_v: i64 = 0;
        let mut best_a: usize = 0;
        let mut action: usize = 0;
        while action <= max_action
            invariant
                self == old(self),
                self.wf(),
                cfg == self.config,
                oldv == self.value_function@,
                state <= cfg.max_inventory,
                max_action == cfg.max_inventory - state,
                dmax == demand_horizon(cfg),
                0 <= dmax <= 500_000,
                action <= max_action + 1,
                row@.len() == cfg.max_inventory + 1,
                forall|j: int|
                    0 <= j < action ==> #[trigger] row@[j] == q_value_spec(
                        cfg,
                        oldv,
                        state as int,
                        j,
                    ),
                forall|j: int| action <= j < row@.len() ==> #[trigger] row@[j] == 0,
                forall|j: int|
                    0 <= j < action ==> -VALUE_BOUND <= #[trigger] q_value_spec(
                        cfg,
                        oldv,
                        state as int,
                        j,
                    ) <= VALUE_BOUND,
                action >= 1 ==> {
                    &&& best_v == best_prefix(cfg, oldv, state as int, action as nat).0
                    &&& best_a == best_prefix(cfg, oldv, state as int, action as nat).1
                    &&& best_a < action
                    &&& -VALUE_BOUND <= best_v <= VALUE_BOUND
                },
            decreases max_action + 1 - action,
        {
            let mut acc: i128 = 0;
            let mut d: i64 = 0;
            while d <= dmax
                invariant
                    self == old(self),
                    self.wf(),
                    cfg == self.config,
                    oldv == self.value_function@,
                    state <= cfg.max_inventory,
                    action <= max_action,
                    max_action == cfg.max_inventory - state,
                    0 <= dmax <= 500_000,
                    0 <= d <= dmax + 1,
                    acc == q_partial(cfg, oldv, state as int, action as int, d as nat),
                    -(d as i128) * TERM_BOUND <= acc <= (d as i128) * TERM_BOUND,
                decreases dmax + 1 - d,
            {
                let w: i64 = demand_probability(&cfg, d);
                let rew: i64 = immediate_reward(&cfg, state, action, d);
                let ns: usize = next_state(&cfg, state, action, d);
                let vns: i64 = self.value_function[ns];
                proof {
                    assert(0 <= (cfg.gamma as int) * (vns as int) <= 1_000_000_000_000_000_000_000_000int
                        || 0 >= (cfg.gamma as int) * (vns as int)
                            >= -1_000_000_000_000_000_000_000_000int) by (nonlinear_arith)
                        requires
                            0 <= cfg.gamma < 1_000_000,
                            -VALUE_BOUND <= vns <= VALUE_BOUND;
                }
                let gprod: i128 = (cfg.gamma as i128) * (vns as i128);
                let gv: i128 = div_pos_i128(gprod, 1_000_000);
                proof {
                    lemma_discount_bound(
                        cfg.gamma as int,
                        vns as int,
                        SCALE as int,
                        VALUE_BOUND as int,
                    );
                }
                let base: i128 = (rew as i128) + gv;
                proof {
                    assert(-TERM_BOUND <= (w as i128) * base <= TERM_BOUND) by (nonlinear_arith)
                        requires
                            0 <= w <= WEIGHT_BOUND,
                            -(REWARD_BOUND as i128) - (VALUE_BOUND as i128) <= base <= (
                            REWARD_BOUND as i128) + (VALUE_BOUND as i128),
                            TERM_BOUND == (WEIGHT_BOUND as i128) * ((REWARD_BOUND as i128) + (
                            VALUE_BOUND as i128));
                }
                let term: i128 = (w as i128) * base;
                proof {
                    assert(term == q_term(cfg, oldv, state as int, action as int, d as int));
                    assert(q_partial(cfg, oldv, state as int, action as int, (d + 1) as nat)
                        == q_partial(cfg, oldv, state as int, action as int, d as nat) + q_term(
                        cfg,
                        oldv,
                        state as int,
                        action as int,
                        d as int,
                    ));
                }
                acc = acc + term;
                d = d + 1;
            }
            let q128: i128 = div_pos_i128(acc, 1_000_000);
            proof {
                assert(q128 == q_value_spec(cfg, oldv, state as int, action as int));
            }
            if q128 > 1_000_000_000_000_000_000i128 || q128 < -1_000_000_000_000_000_000i128 {
                proof {
                    assert(!row_fits(cfg, oldv, state as int));
                }
                return Err(MdpError::InternalError);
            }
            let q: i64 = q128 as i64;
            row[action] = q;
            if action == 0 {
                best_v = q;
                best_a = 0;
            } else if q > best_v {
                best_v = q;
                best_a = action;
            }
            proof {
                assert(best_v == best_prefix(cfg, oldv, state as int, (action + 1) as nat).0);
                assert(best_a == best_prefix(cfg, oldv, state as int, (action + 1) as nat).1);
            }
            action = action + 1;
        }
        proof {
            assert(row_fits(cfg, oldv, state as int));
        }
        self.q_values[state] = row;
        Ok((best_v, best_a))
    }

    /// Value iteration: repeated in-place sweeps of the Bellman operator
    /// over all states in increasing order, immediately writing each state's
    /// new value and best action back, until the largest per-state change of
    /// a sweep drops below `epsilon` or the iteration budget is exhausted.
    ///
    /// The returned trace records one delta per sweep; the run converged
    /// exactly when it performed at least one sweep and the last delta is
    /// below `epsilon`, and every delta but the last is at least `epsilon`
    /// (the run stops at the first crossing).  A backup leaving the
    /// representable range aborts the run with an internal error.
    pub fn value_iteration(&mut self, epsilon: i64, max_iterations: usize) -> (r: Result<
        ConvergenceInfo,
        MdpError,
    >)
        requires
            old(self).wf(),
            epsilon >= 0,
        ensures
            final(self).wf(),
            final(self).config == old(self).config,
            final(self).transport_modes == old(self).transport_modes,
            final(self).value_function@.len() == old(self).value_function@.len(),
            final(self).policy@.len() == old(self).policy@.len(),
            r matches Err(e) ==> e == MdpError::InternalError,
            r is Ok <==> run_fits(
                old(self).config,
                old(self).value_function@,
                epsilon as int,
                max_iterations as nat,
            ),
            r matches Ok(t) ==> {
                &&& t.delta_history@.len() == t.iterations
                &&& t.iterations <= max_iterations
                &&& (t.converged <==> (t.iterations > 0 && t.final_delta < epsilon))
                &&& (!t.converged ==> t.iterations == max_iterations)
                &&& (t.iterations > 0 ==> t.final_delta == t.delta_history@.last())
                &&& (t.iterations == 0 ==> t.final_delta == 0)
                &&& forall|j: int|
                    0 <= j < t.delta_history@.len() - 1 ==> #[trigger] t.delta_history@[j]
                        >= epsilon
                &&& forall|j: int|
                    0 <= j < t.delta_history@.len() ==> #[trigger] t.delta_history@[j] >= 0
                &&& final(self).value_function@ == run_values(
                    old(self).config,
                    old(self).value_function@,
                    t.iterations as nat,
                )
                &&& final(self).policy@ == run_policy(
                    old(self).config,
                    old(self).value_function@,
                    old(self).policy@,
                    t.iterations as nat,
                )
                &&& forall|j: int|
                    0 <= j < t.iterations ==> #[trigger] t.delta_history@[j] == run_delta(
                        old(self).config,
                        old(self).value_function@,
                        (j + 1) as nat,
                    )
            },
    {
        let ghost cfg = old(self).config;
        let ghost v0 = old(self).value_function@;
        let ghost pol0 = old(self).policy@;
        let ghost n = (old(self).config.max_inventory + 1) as nat;
        let mut iterations: usize = 0;
        let mut converged = false;
        let mut delta_history: Vec<i64> = Vec::new();
        let mut final_delta: i64 = 0;
        while iterations < max_iterations && !converged
            invariant
                self.wf(),
                self.config == old(self).config,
                self.transport_modes == old(self).transport_modes,
                self.value_function@.len() == old(self).value_function@.len(),
                self.policy@.len() == old(self).policy@.len(),
                cfg == old(self).config,
                v0 == old(self).value_function@,
                pol0 == old(self).policy@,
                n == cfg.max_inventory + 1,
                epsilon >= 0,
                iterations <= max_iterations,
                delta_history@.len() == iterations,
                converged ==> iterations > 0 && final_delta < epsilon,
                iterations > 0 ==> final_delta == delta_history@.last(),
                iterations == 0 ==> final_delta == 0 && !converged,
                forall|j: int|
                    0 <= j < delta_history@.len() ==> #[trigger] delta_history@[j] >= 0,
                !converged ==> forall|j: int|
                    0 <= j < delta_history@.len() ==> #[trigger] delta_history@[j] >= epsilon,
                converged ==> forall|j: int|
                    0 <= j < delta_history@.len() - 1 ==> #[trigger] delta_history@[j] >= epsilon,
                self.value_function@ == run_values(cfg, v0, iterations as nat),
                self.policy@ == run_policy(cfg, v0, pol0, iterations as nat),
                forall|j: int|
                    0 <= j < iterations ==> #[trigger] delta_history@[j] == run_delta(
                        cfg,
                        v0,
                        (j + 1) as nat,
                    ),
                converged ==> run_fits(cfg, v0, epsilon as int, max_iterations as nat),
                !converged ==> (run_fits(cfg, v0, epsilon as int, max_iterations as nat)
                    <==> run_fits(
                    cfg,
                    run_values(cfg, v0, iterations as nat),
                    epsilon as int,
                    (max_iterations - iterations) as nat,
                )),
            decreases max_iterations - iterations,
        {
            let ghost vstart = run_values(cfg, v0, iterations as nat);
            let ghost polstart = run_policy(cfg, v0, pol0, iterations as nat);
            let mut delta: i64 = 0;
            let mut state: usize = 0;
            while state <= self.config.max_inventory
                invariant
                    self.wf(),
                    self.config == old(self).config,
                    self.transport_modes == old(self).transport_modes,
                    self.value_function@.len() == old(self).value_function@.len(),
                    self.policy@.len() == old(self).policy@.len(),
                    cfg == old(self).config,
                    v0 == old(self).value_function@,
                    pol0 == old(self).policy@,
                    n == cfg.max_inventory + 1,
                    iterations < max_iterations,
                    vstart == run_values(cfg, v0, iterations as nat),
                    polstart == run_policy(cfg, v0, pol0, iterations as nat),
                    run_fits(cfg, v0, epsilon as int, max_iterations as nat) <==> run_fits(
                        cfg,
                        vstart,
                        epsilon as int,
                        (max_iterations - iterations) as nat,
                    ),
                    state <= self.config.max_inventory + 1,
                    delta >= 0,
                    self.value_function@ == sweep_values(cfg, vstart, state as nat),
                    self.policy@ == sweep_policy(cfg, vstart, polstart, state as nat),
                    delta == sweep_delta(cfg, vstart, state as nat),
                    sweep_fits_upto(cfg, vstart, state as nat),
                decreases self.config.max_inventory + 1 - state,
            {
                let old_value: i64 = self.value_function[state];
                let ghost prev = sweep_values(cfg, vstart, state as nat);
                match self.bellman_update(state) {
                    Ok(pair) => {
                        let (new_value, best_action) = pair;
                        let diff: i64 = if old_value >= new_value {
                            old_value - new_value
                        } else {
                            new_value - old_value
                        };
                        if diff > delta {
                            delta = diff;
                        }
                        self.value_function[state] = new_value;
                        self.policy[state] = best_action;
                        proof {
                            assert(new_value == best_value_spec(cfg, prev, state as int));
                            assert(best_value_spec(cfg, prev, state as int) as i64 == new_value);
                            assert(self.value_function@ == sweep_values(
                                cfg,
                                vstart,
                                (state + 1) as nat,
                            ));
                            assert(best_action_spec(cfg, prev, state as int) as usize
                                == best_action);
                            assert(self.policy@ == sweep_policy(
                                cfg,
                                vstart,
                                polstart,
                                (state + 1) as nat,
                            ));
                            assert(delta == sweep_delta(cfg, vstart, (state + 1) as nat));
                        }
                    },
                    Err(e) => {
                        proof {
                            assert(!row_fits(cfg, prev, state as int));
                            assert(!sweep_fits_upto(cfg, vstart, (state + 1) as nat));
                            if sweep_fits_upto(cfg, vstart, n) {
                                lemma_sweep_fits_monotone(cfg, vstart, (state + 1) as nat, n);
                            }
                            assert(!sweep_fits_upto(cfg, vstart, n));
                            assert(!sweep_fits_upto(
                                cfg,
                                vstart,
                                (cfg.max_inventory + 1) as nat,
                            ));
                            assert((max_iterations - iterations) as nat >= 1);
                            assert(!run_fits(
                                cfg,
                                vstart,
                                epsilon as int,
                                (max_iterations - iterations) as nat,
                            ));
                            assert(!run_fits(
                                old(self).config,
                                old(self).value_function@,
                                epsilon as int,
                                max_iterations as nat,
                            ));
                        }
                        return Err(e);
                    },
                }
                state = state + 1;
            }
            proof {
                assert(self.value_function@ == run_values(cfg, v0, (iterations + 1) as nat));
                assert(self.policy@ == run_policy(cfg, v0, pol0, (iterations + 1) as nat));
                assert(delta == run_delta(cfg, v0, (iterations + 1) as nat));
                if delta < epsilon {
                    assert(run_fits(cfg, vstart, epsilon as int, (max_iterations - iterations) as nat));
                } else {
                    assert(run_fits(cfg, vstart, epsilon as int, (max_iterations - iterations) as nat)
                        <==> run_fits(
                        cfg,
                        run_values(cfg, v0, (iterations + 1) as nat),
                        epsilon as int,
                        (max_iterations - (iterations + 1)) as nat,
                    ));
                }
            }
            delta_history.push(delta);
            iterations = iterations + 1;
            final_delta = delta;
            if delta < epsilon {
                converged = true;
            }
        }
        Ok(
            ConvergenceInfo {
                converged,
                iterations,
                final_delta,
                delta_history,
            },
        )
    }
}

/// A vector of `n` zero values.
fn zero_i64_vec(n: usize) -> (v: Vec<i64>)
    ensures
        v@.len() == n,
        forall|i: int| 0 <= i < n ==> #[trigger] v@[i] == 0,
{
    let mut v: Vec<i64> = Vec::new();
    let mut i: usize = 0;
    while i < n
        invariant
            v@.len() == i,
            i <= n,
            forall|j: int| 0 <= j < i ==> #[trigger] v@[j] == 0,
        decreases n - i,
    {
        v.push(0);
        i = i + 1;
    }
    v
}

/// A vector of `n` zero indices.
fn zero_usize_vec(n: usize) -> (v: Vec<usize>)
    ensures
        v@.len() == n,
        forall|i: int| 0 <= i < n ==> #[trigger] v@[i] == 0,
{
    let mut v: Vec<usize> = Vec::new();
    let mut i: usize = 0;
    while i < n
        invariant
            v@.len() == i,
            i <= n,
            forall|j: int| 0 <= j < i ==> #[trigger] v@[j] == 0,
        decreases n - i,
    {
        v.push(0);
        i = i + 1;
    }
    v
}

} // verus!
