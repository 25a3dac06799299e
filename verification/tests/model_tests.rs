use inventory_mdp::config::{MDPConfig, SCALE};
use inventory_mdp::models::{demand_probability, immediate_reward, next_state};

fn cfg() -> MDPConfig {
    MDPConfig::default()
}

#[test]
fn negative_demand_has_zero_probability() {
    let c = cfg();
    assert_eq!(demand_probability(&c, -1), 0);
    assert_eq!(demand_probability(&c, -5), 0);
    assert_eq!(demand_probability(&c, -1_000_000), 0);
}

#[test]
fn peak_probability_is_normalizing_constant() {
    // at the (whole-number) mean the exponential factor is exactly one, so
    // the weight is exactly 1 / (std * sqrt(2 * pi)) in fixed point
    let c = cfg();
    let expected =
        (1_000_000_000_000_000_000u128 / (c.demand_std as u128 * 2_506_628u128)) as i64;
    assert_eq!(demand_probability(&c, 10), expected);
    // off-peak weights are strictly smaller
    assert!(demand_probability(&c, 9) < expected);
    assert!(demand_probability(&c, 11) < expected);
}

#[test]
fn far_tail_probability_vanishes() {
    let c = cfg();
    // forty standard deviations above the mean
    assert_eq!(demand_probability(&c, 130), 0);
}

#[test]
fn reward_accounts_for_all_terms() {
    let c = cfg();
    // sales 5 * 15, holding 5 * 2, ordering 50 + 2 * 5, stockout 2 * 20
    assert_eq!(immediate_reward(&c, 5, 2, 7), -35 * SCALE);
    // no order placed: no ordering cost at all
    assert_eq!(immediate_reward(&c, 5, 0, 3), (45 - 10) * SCALE);
    // zero demand: no sales, no stockout
    assert_eq!(immediate_reward(&c, 4, 0, 0), -8 * SCALE);
}

#[test]
fn next_state_stays_within_bounds() {
    let c = cfg();
    assert_eq!(next_state(&c, 5, 3, 0), 8);
    assert_eq!(next_state(&c, 5, 3, 2), 6);
    assert_eq!(next_state(&c, 5, 3, 8), 0);
    // demand far exceeding capacity clips at zero
    assert_eq!(next_state(&c, 100, 0, 1_000_000), 0);
    // zero demand at full capacity clips at the top
    assert_eq!(next_state(&c, 100, 0, 0), 100);
    for demand in [0i64, 1, 50, 1_000_000] {
        let ns = next_state(&c, 30, 20, demand);
        assert!(ns <= c.max_inventory);
    }
}
