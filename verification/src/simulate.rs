//! Monte-Carlo rollout of a computed policy, and the transport catalog the
//! simulator consults for shipping surcharges.
//!
//! The demand draws are injected as a plain sequence of nonnegative
//! integers, so that a caller can supply samples from any (seedable) source
//! and every run is reproducible; the rollout itself is specified exactly
//! for every such sequence.

use vstd::prelude::*;
use crate::config::{MDPConfig, MdpError, PARAM_LIMIT, DEMAND_LIMIT};
use crate::fixed::{tdiv, div_pos_i128};
use crate::models::{reward_spec, next_state_spec, immediate_reward, next_state};
use crate::engine::MDPOptimizer;

verus! {

/// Magnitude bound on one trajectory entry's reward: a single-period
/// reward plus the largest admissible transport surcharge.
pub const STEP_REWARD_BOUND: i128 = 300_000_100_000_000_000;

/// A shipping option: a display name, a flat surcharge applied whenever an
/// order is placed, and a lead time (informational).
#[derive(Clone, Debug)]
pub struct TransportMode {
    /// Catalog key, e.g. `"truck"`.
    pub name: String,
    /// Flat fixed-point surcharge per order.
    pub cost: i64,
    /// Lead time in periods.
    pub time: usize,
}

/// One period of a rollout: the period index, the state observed, the
/// action taken, the demand that materialized, the realized reward
/// (surcharge included) and the resulting state.
#[derive(Clone, Copy, Debug, PartialEq, Eq, Structural)]
pub struct SimulationStep {
    /// Period index, starting at zero.
    pub step: usize,
    /// Inventory level at period start.
    pub state: usize,
    /// Order quantity prescribed by the policy.
    pub action: usize,
    /// Demand drawn for the period.
    pub demand: i64,
    /// Realized fixed-point reward of the period.
    pub reward: i64,
    /// Inventory level after the period.
    pub next_state: usize,
}

/// A full rollout: the per-period records in order, the summed reward and
/// the per-period average (truncated toward zero).
#[derive(Clone, Debug)]
pub struct SimulationResult {
    /// One record per simulated period.
    pub trajectory: Vec<SimulationStep>,
    /// Sum of the per-period rewards.
    pub total_reward: i128,
    /// `total_reward` divided by the number of periods.
    pub average_reward: i128,
}

/// Flat cost of the first catalog entry at or after position `i` whose name
/// matches, or zero when none does (an unknown mode costs nothing).
pub open spec fn transport_cost_from(modes: Seq<TransportMode>, name: Seq<char>, i: nat) -> int
    decreases modes.len() - i,
{
    if i >= modes.len() {
        0
    } else if modes[i as int].name@ == name {
        modes[i as int].cost as int
    } else {
        transport_cost_from(modes, name, i + 1)
    }
}

/// Flat cost of the first catalog entry whose name matches, or zero.
pub open spec fn transport_cost_spec(modes: Seq<TransportMode>, name: Seq<char>) -> int {
    transport_cost_from(modes, name, 0)
}

/// Sum of the rewards recorded along a trajectory.
pub open spec fn total_reward_spec(t: Seq<SimulationStep>) -> int
    decreases t.len(),
{
    if t.len() == 0 {
        0
    } else {
        total_reward_spec(t.drop_last()) + t.last().reward
    }
}

/// What one trajectory entry must record: the period index, a state within
/// capacity, the policy's action there, the injected demand, the reward
/// (less the surcharge when an order was placed) and the model's successor
/// state.
pub open spec fn step_ok(
    cfg: MDPConfig,
    pol: Seq<usize>,
    st: SimulationStep,
    i: int,
    demand: i64,
    surcharge: int,
) -> bool {
    &&& st.step == i
    &&& st.state <= cfg.max_inventory
    &&& st.action == pol[st.state as int]
    &&& st.demand == demand
    &&& st.reward == reward_spec(cfg, st.state as int, st.action as int, demand as int) - (
    if st.action > 0 {
        surcharge
    } else {
        0
    })
    &&& st.next_state == next_state_spec(cfg, st.state as int, st.action as int, demand as int)
}

/// Looks up a mode name in the catalog: the cost of the first match, zero
/// when the name is unknown.
fn resolve_transport_cost(modes: &Vec<TransportMode>, name: &String) -> (r: i64)
    ensures
        r == transport_cost_spec(modes@, name@),
{
    let n: usize = modes.len();
    let mut i: usize = 0;
    while i < n
        invariant
            n == modes@.len(),
            i <= n,
            transport_cost_spec(modes@, name@) == transport_cost_from(modes@, name@, i as nat),
        decreases n - i,
    {
        let m = &modes[i];
        if m.name == *name {
            return m.cost;
        }
        i = i + 1;
    }
    0
}

impl MDPOptimizer {
    /// Rolls the current policy out for `steps` periods from
    /// `initial_state`, against the injected demand sequence, applying the
    /// named transport mode's flat surcharge whenever an order is placed
    /// (an unknown name resolves to zero surcharge).
    ///
    /// Fails exactly when `steps` is zero (the per-period average would be
    /// undefined).  On success the trajectory holds one exact record per
    /// period, consecutive records chain through their states, and the
    /// totals sum the recorded rewards.
    pub fn simulate_episode(
        &self,
        initial_state: usize,
        steps: usize,
        transport_mode: &String,
        demands: &Vec<i64>,
    ) -> (r: Result<SimulationResult, MdpError>)
        requires
            self.wf(),
            initial_state <= self.config.max_inventory,
            demands@.len() == steps,
            forall|i: int| 0 <= i < steps ==> 0 <= #[trigger] demands@[i] <= DEMAND_LIMIT,
        ensures
            r is Ok <==> steps > 0,
            r matches Err(e) ==> e == MdpError::InvalidArgument,
            r matches Ok(res) ==> {
                &&& res.trajectory@.len() == steps
                &&& res.trajectory@[0].state == initial_state
                &&& forall|i: int|
                    0 <= i < steps ==> step_ok(
                        self.config,
                        self.policy@,
                        #[trigger] res.trajectory@[i],
                        i,
                        demands@[i],
                        transport_cost_spec(self.transport_modes@, transport_mode@),
                    )
                &&& forall|i: int|
                    0 <= i < steps - 1 ==> (#[trigger] res.trajectory@[i + 1]).state
                        == res.trajectory@[i].next_state
                &&& res.total_reward == total_reward_spec(res.trajectory@)
                &&& res.average_reward == tdiv(res.total_reward as int, steps as int)
            },
    {
        if steps == 0 {
            return Err(MdpError::InvalidArgument);
        }
        let surcharge: i64 = resolve_transport_cost(&self.transport_modes, transport_mode);
        proof {
            lemma_transport_cost_bounded(self.transport_modes@, transport_mode@, 0);
        }
        let ghost sc = surcharge as int;
        let mut trajectory: Vec<SimulationStep> = Vec::new();
        let mut state: usize = initial_state;
        let mut total: i128 = 0;
        let mut step: usize = 0;
        while step < steps
            invariant
                self.wf(),
                initial_state <= self.config.max_inventory,
                demands@.len() == steps,
                forall|i: int| 0 <= i < steps ==> 0 <= #[trigger] demands@[i] <= DEMAND_LIMIT,
                step <= steps,
                trajectory@.len() == step,
                state <= self.config.max_inventory,
                0 <= surcharge <= PARAM_LIMIT,
                sc == transport_cost_spec(self.transport_modes@, transport_mode@),
                surcharge == sc,
                step > 0 ==> trajectory@[0].state == initial_state,
                step == 0 ==> state == initial_state,
                step > 0 ==> trajectory@[step - 1].next_state == state,
                forall|i: int|
                    0 <= i < step ==> step_ok(
                        self.config,
                        self.policy@,
                        #[trigger] trajectory@[i],
                        i,
                        demands@[i],
                        sc,
                    ),
                forall|i: int|
                    0 <= i < step - 1 ==> (#[trigger] trajectory@[i + 1]).state
                        == trajectory@[i].next_state,
                total == total_reward_spec(trajectory@),
                -(step as i128) * STEP_REWARD_BOUND <= total <= (step as i128) * STEP_REWARD_BOUND,
            decreases steps - step,
        {
            let action: usize = self.policy[state];
            let demand: i64 = demands[step];
            let base_reward: i64 = immediate_reward(&self.config, state, action, demand);
            let reward: i64 = if action > 0 {
                base_reward - surcharge
            } else {
                base_reward
            };
            let ns: usize = next_state(&self.config, state, action, demand);
            let entry = SimulationStep { step, state, action, demand, reward, next_state: ns };
            let ghost before = trajectory@;
            trajectory.push(entry);
            proof {
                assert(trajectory@.drop_last() =~= before);
                assert(trajectory@.last() == entry);
                assert(total_reward_spec(trajectory@) == total_reward_spec(before)
                    + entry.reward);
            }
            total = total + (reward as i128);
            state = ns;
            step = step + 1;
        }
        let average: i128 = div_pos_i128(total, steps as u64);
        Ok(SimulationResult { trajectory, total_reward: total, average_reward: average })
    }
}

/// Every catalog cost within the parameter range bounds the lookup result.
proof fn lemma_transport_cost_bounded(modes: Seq<TransportMode>, name: Seq<char>, i: nat)
    requires
        forall|j: int| 0 <= j < modes.len() ==> 0 <= (#[trigger] modes[j]).cost <= PARAM_LIMIT,
        i <= modes.len(),
    ensures
        0 <= transport_cost_from(modes, name, i) <= PARAM_LIMIT,
    decreases modes.len() - i,
{
    if i < modes.len() && !(modes[i as int].name@ == name) {
        lemma_transport_cost_bounded(modes, name, i + 1);
    }
}

} // verus!
