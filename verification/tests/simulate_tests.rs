use inventory_mdp::config::{MDPConfig, MdpError, SCALE};
use inventory_mdp::engine::MDPOptimizer;

fn solved_small() -> MDPOptimizer {
    let cfg = MDPConfig {
        max_inventory: 5,
        order_cost: 10 * SCALE,
        holding_cost: SCALE,
        stockout_cost: 5 * SCALE,
        selling_price: 12 * SCALE,
        demand_mean: 2 * SCALE,
        demand_std: SCALE,
        gamma: 900_000,
    };
    let mut opt = MDPOptimizer::new(cfg).unwrap();
    opt.value_iteration(10_000, 1000).unwrap();
    opt
}

#[test]
fn trajectory_has_one_entry_per_step_and_chains() {
    let opt = solved_small();
    let demands = vec![1i64, 3, 0, 2, 4, 1, 0];
    let mode = "ship".to_string();
    let res = opt.simulate_episode(3, 7, &mode, &demands).unwrap();
    assert_eq!(res.trajectory.len(), 7);
    assert_eq!(res.trajectory[0].state, 3);
    for i in 0..res.trajectory.len() {
        let st = &res.trajectory[i];
        assert_eq!(st.step, i);
        assert_eq!(st.demand, demands[i]);
        assert_eq!(st.action, opt.policy[st.state]);
        assert!(st.next_state <= opt.config.max_inventory);
        if i + 1 < res.trajectory.len() {
            assert_eq!(res.trajectory[i + 1].state, st.next_state);
        }
    }
}

#[test]
fn totals_sum_the_recorded_rewards() {
    let opt = solved_small();
    let demands = vec![2i64, 2, 2, 5];
    let mode = "truck".to_string();
    let res = opt.simulate_episode(0, 4, &mode, &demands).unwrap();
    let sum: i128 = res.trajectory.iter().map(|s| s.reward as i128).sum();
    assert_eq!(res.total_reward, sum);
    assert_eq!(res.average_reward, sum / 4);
}

#[test]
fn known_transport_mode_is_surcharged() {
    let opt = solved_small();
    // the solved policy orders at state 0, so the first step pays the fee
    assert!(opt.policy[0] > 0);
    let demands = vec![2i64];
    let truck = "truck".to_string();
    let unknown = "wagon".to_string();
    let with_truck = opt.simulate_episode(0, 1, &truck, &demands).unwrap();
    let with_unknown = opt.simulate_episode(0, 1, &unknown, &demands).unwrap();
    // truck carries a flat cost of 100; an unresolved name costs nothing
    assert_eq!(
        with_unknown.trajectory[0].reward - with_truck.trajectory[0].reward,
        100 * SCALE
    );
}

#[test]
fn zero_steps_is_rejected() {
    let opt = solved_small();
    let demands: Vec<i64> = Vec::new();
    let mode = "truck".to_string();
    let err = opt.simulate_episode(2, 0, &mode, &demands).unwrap_err();
    assert_eq!(err, MdpError::InvalidArgument);
}

#[test]
fn average_reward_truncates_toward_zero() {
    let opt = solved_small();
    // three steps of zero demand from an overstocked start: pure holding
    // and ordering costs, a negative total
    let demands = vec![0i64, 0, 0];
    let mode = "rail".to_string();
    let res = opt.simulate_episode(5, 3, &mode, &demands).unwrap();
    assert!(res.total_reward < 0);
    assert_eq!(res.average_reward, res.total_reward / 3);
}
