use inventory_mdp::config::{MDPConfig, MdpError, SCALE};
use inventory_mdp::engine::MDPOptimizer;
use inventory_mdp::models::{demand_probability, immediate_reward, next_state};

fn default_config() -> MDPConfig {
    MDPConfig::default()
}

fn small_config() -> MDPConfig {
    MDPConfig {
        max_inventory: 5,
        order_cost: 10 * SCALE,
        holding_cost: SCALE,
        stockout_cost: 5 * SCALE,
        selling_price: 12 * SCALE,
        demand_mean: 2 * SCALE,
        demand_std: SCALE,
        gamma: 900_000,
    }
}

#[test]
fn default_configuration_converges() {
    let mut opt = MDPOptimizer::new(default_config()).unwrap();
    // epsilon 0.01 in fixed point, budget 1000 sweeps
    let trace = opt.value_iteration(10_000, 1000).unwrap();
    assert!(trace.converged);
    assert!(trace.final_delta < 10_000);
    assert!(trace.iterations <= 1000);
}

#[test]
fn trace_history_matches_iterations() {
    let mut opt = MDPOptimizer::new(small_config()).unwrap();
    let trace = opt.value_iteration(10_000, 1000).unwrap();
    assert_eq!(trace.delta_history.len(), trace.iterations);
    assert_eq!(trace.final_delta, *trace.delta_history.last().unwrap());
    // every sweep before the last was still at or above the tolerance
    for j in 0..trace.delta_history.len() - 1 {
        assert!(trace.delta_history[j] >= 10_000);
    }
}

#[test]
fn policy_actions_stay_feasible() {
    let mut opt = MDPOptimizer::new(default_config()).unwrap();
    opt.value_iteration(10_000, 200).unwrap();
    for state in 0..=opt.config.max_inventory {
        assert!(opt.policy[state] <= opt.config.max_inventory - state);
    }
}

#[test]
fn empty_stock_orders_when_stockouts_hurt() {
    // with the margin above the per-unit order cost, state 0 always incurs
    // stockout cost, so ordering is strictly favorable there
    let mut opt = MDPOptimizer::new(small_config()).unwrap();
    let trace = opt.value_iteration(10_000, 1000).unwrap();
    assert!(trace.converged);
    assert!(opt.policy[0] > 0);
}

#[test]
fn degenerate_single_state_converges_immediately() {
    // zero capacity and no stockout penalty: the lone state's backup stays
    // at zero, so the very first sweep is already below the tolerance
    let cfg = MDPConfig {
        max_inventory: 0,
        stockout_cost: 0,
        ..default_config()
    };
    let mut opt = MDPOptimizer::new(cfg).unwrap();
    let trace = opt.value_iteration(10_000, 1000).unwrap();
    assert!(trace.converged);
    assert_eq!(trace.iterations, 1);
    assert_eq!(opt.policy[0], 0);
}

#[test]
fn zero_iteration_budget_returns_empty_trace() {
    let mut opt = MDPOptimizer::new(small_config()).unwrap();
    let trace = opt.value_iteration(10_000, 0).unwrap();
    assert!(!trace.converged);
    assert_eq!(trace.iterations, 0);
    assert_eq!(trace.final_delta, 0);
    assert!(trace.delta_history.is_empty());
}

#[test]
fn new_engine_starts_at_zero() {
    let opt = MDPOptimizer::new(small_config()).unwrap();
    assert_eq!(opt.value_function, vec![0i64; 6]);
    assert_eq!(opt.policy, vec![0usize; 6]);
    assert_eq!(opt.q_values.len(), 6);
    assert_eq!(opt.transport_modes.len(), 4);
    assert_eq!(opt.transport_modes[0].name, "truck");
    assert_eq!(opt.transport_modes[0].cost, 100_000_000);
    assert_eq!(opt.transport_modes[3].name, "air");
    assert_eq!(opt.transport_modes[3].time, 0);
}

#[test]
fn bellman_update_matches_model_recomputation() {
    let mut opt = MDPOptimizer::new(small_config()).unwrap();
    let state = 2usize;
    let (best_value, best_action) = opt.bellman_update(state).unwrap();
    // recompute every feasible backup from the public models over the
    // truncated demand range (mean 2, std 1: demands 0..=6), all values
    // starting at zero
    let cfg = opt.config;
    let dmax = (cfg.demand_mean + 4 * cfg.demand_std) / SCALE;
    let mut expected: Vec<i64> = Vec::new();
    for action in 0..=(cfg.max_inventory - state) {
        let mut acc: i128 = 0;
        for d in 0..=dmax {
            let w = demand_probability(&cfg, d) as i128;
            let r = immediate_reward(&cfg, state, action, d) as i128;
            let ns = next_state(&cfg, state, action, d);
            assert!(ns <= cfg.max_inventory);
            acc += w * r; // current values are all zero
        }
        expected.push((acc / SCALE as i128) as i64);
    }
    for action in 0..expected.len() {
        assert_eq!(opt.q_values[state][action], expected[action]);
    }
    let best = expected.iter().copied().max().unwrap();
    assert_eq!(best_value, best);
    assert_eq!(expected[best_action], best);
    // ties resolve toward the lower action index
    assert!(expected[..best_action].iter().all(|&q| q < best));
}

#[test]
fn invalid_configurations_fail_fast() {
    let zero_std = MDPConfig { demand_std: 0, ..default_config() };
    assert_eq!(MDPOptimizer::new(zero_std).unwrap_err(), MdpError::InvalidConfig);

    let negative_cost = MDPConfig { holding_cost: -1, ..default_config() };
    assert_eq!(MDPOptimizer::new(negative_cost).unwrap_err(), MdpError::InvalidConfig);

    let undiscounted = MDPConfig { gamma: SCALE, ..default_config() };
    assert_eq!(MDPOptimizer::new(undiscounted).unwrap_err(), MdpError::InvalidConfig);

    assert!(default_config().validate().is_ok());
}
