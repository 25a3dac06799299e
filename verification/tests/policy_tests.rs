use inventory_mdp::config::MDPConfig;
use inventory_mdp::engine::MDPOptimizer;

fn engine_with_capacity(max_inventory: usize) -> MDPOptimizer {
    let cfg = MDPConfig { max_inventory, ..MDPConfig::default() };
    MDPOptimizer::new(cfg).unwrap()
}

#[test]
fn no_ordering_state_falls_back_to_thirds() {
    // a fresh engine's policy never orders
    let opt = engine_with_capacity(9);
    let (s, big_s) = opt.compute_s_s_policy();
    assert_eq!(s, 3);
    assert_eq!(big_s, 6);
}

#[test]
fn summary_uses_max_reorder_point_and_mean_order_up_to() {
    let mut opt = engine_with_capacity(10);
    // states 2, 4 and 6 order up to 8; the rest do nothing
    opt.policy[2] = 6;
    opt.policy[4] = 4;
    opt.policy[6] = 2;
    let (s, big_s) = opt.compute_s_s_policy();
    assert_eq!(s, 6);
    assert_eq!(big_s, 8);
}

#[test]
fn mean_order_up_to_truncates() {
    let mut opt = engine_with_capacity(10);
    // order-up-to samples 9 and 10: the mean truncates to 9
    opt.policy[1] = 8;
    opt.policy[3] = 7;
    let (s, big_s) = opt.compute_s_s_policy();
    assert_eq!(s, 3);
    assert_eq!(big_s, 9);
}

#[test]
fn converged_reference_policy_summarizes_within_capacity() {
    let mut opt = engine_with_capacity(30);
    opt.value_iteration(10_000, 500).unwrap();
    let (s, big_s) = opt.compute_s_s_policy();
    assert!(s <= 30);
    assert!(big_s <= 30);
}
