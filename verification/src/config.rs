//! Problem configuration: the economic and distributional parameters of the
//! inventory system, held as fixed-point integers (`SCALE` units per whole
//! unit), together with the bounds that keep all engine arithmetic inside
//! `i64`/`i128` range.

use vstd::prelude::*;

verus! {

/// Number of fixed-point units per whole unit.  A quantity of `1.5` is held
/// as `1_500_000`.
pub const SCALE: i64 = 1_000_000;

/// Largest admissible inventory capacity (whole units).
pub const CAPACITY_LIMIT: usize = 100_000;

/// Largest admissible monetary or distributional parameter (fixed-point),
/// i.e. one hundred thousand whole units.
pub const PARAM_LIMIT: i64 = 100_000_000_000;

/// Largest demand value the reward and transition models accept
/// (whole units).
pub const DEMAND_LIMIT: i64 = 1_000_000;

/// Magnitude bound kept on every entry of the value function.  A Bellman
/// backup whose result would leave this range is reported as an internal
/// error, in the same spirit as a non-finite check.
pub const VALUE_BOUND: i64 = 1_000_000_000_000_000_000;

/// Magnitude bound on a single-period reward under a valid configuration.
pub const REWARD_BOUND: i64 = 300_000_000_000_000_000;

/// Upper bound on any demand likelihood weight under a valid configuration.
pub const WEIGHT_BOUND: i64 = 400_000_000_000;

/// Per-unit variable ordering cost (fixed-point), five whole units.
pub const UNIT_ORDER_COST: i64 = 5_000_000;

/// The ways a request to the solver can fail.
#[derive(Clone, Copy, Debug, PartialEq, Eq, Structural)]
pub enum MdpError {
    /// The configuration violates its validity bounds.
    InvalidConfig,
    /// An argument of a run request is unusable (e.g. zero episode steps).
    InvalidArgument,
    /// A computed value left the representable range during a sweep.
    InternalError,
}

/// Immutable economic and distributional parameters of the problem.
/// Monetary fields, the demand moments and the discount factor are
/// fixed-point (`SCALE` units per whole unit).
#[derive(Clone, Copy, Debug, PartialEq, Eq, Structural)]
pub struct MDPConfig {
    /// Warehouse capacity: states range over `[0, max_inventory]`.
    pub max_inventory: usize,
    /// Fixed cost charged once per order placed.
    pub order_cost: i64,
    /// Holding cost per unit held, per period.
    pub holding_cost: i64,
    /// Penalty per unit of unmet demand.
    pub stockout_cost: i64,
    /// Revenue per unit sold.
    pub selling_price: i64,
    /// Mean of the normal demand model.
    pub demand_mean: i64,
    /// Standard deviation of the normal demand model; strictly positive.
    pub demand_std: i64,
    /// Discount factor, in `[0, 1)`.
    pub gamma: i64,
}

impl MDPConfig {
    /// A configuration is valid when the distribution is proper
    /// (`demand_std > 0`, `0 <= gamma < 1`), no cost is negative, and every
    /// parameter fits the fixed-point ranges the engine's arithmetic needs.
    pub open spec fn valid(self) -> bool {
        &&& self.max_inventory <= CAPACITY_LIMIT
        &&& 0 <= self.order_cost <= PARAM_LIMIT
        &&& 0 <= self.holding_cost <= PARAM_LIMIT
        &&& 0 <= self.stockout_cost <= PARAM_LIMIT
        &&& 0 <= self.selling_price <= PARAM_LIMIT
        &&& 0 <= self.demand_mean <= PARAM_LIMIT
        &&& 1 <= self.demand_std <= PARAM_LIMIT
        &&& 0 <= self.gamma < SCALE
    }

    /// Fail-fast validation gate: accepts exactly the valid configurations,
    /// so that no iteration ever runs on a broken one.
    pub fn validate(&self) -> (r: Result<(), MdpError>)
        ensures
            r is Ok <==> self.valid(),
            r is Err ==> r == Err::<(), MdpError>(MdpError::InvalidConfig),
    {
        if self.max_inventory <= CAPACITY_LIMIT
            && 0 <= self.order_cost && self.order_cost <= PARAM_LIMIT
            && 0 <= self.holding_cost && self.holding_cost <= PARAM_LIMIT
            && 0 <= self.stockout_cost && self.stockout_cost <= PARAM_LIMIT
            && 0 <= self.selling_price && self.selling_price <= PARAM_LIMIT
            && 0 <= self.demand_mean && self.demand_mean <= PARAM_LIMIT
            && 1 <= self.demand_std && self.demand_std <= PARAM_LIMIT
            && 0 <= self.gamma && self.gamma < SCALE
        {
            Ok(())
        } else {
            Err(MdpError::InvalidConfig)
        }
    }
}

impl Default for MDPConfig {
    /// Reference configuration: capacity 100, order cost 50, holding cost 2,
    /// stockout cost 20, selling price 15, demand mean 10, demand std 3,
    /// discount factor 0.95.
    fn default() -> (r: Self)
        ensures
            r == (MDPConfig {
                max_inventory: 100,
                order_cost: 50_000_000,
                holding_cost: 2_000_000,
                stockout_cost: 20_000_000,
                selling_price: 15_000_000,
                demand_mean: 10_000_000,
                demand_std: 3_000_000,
                gamma: 950_000,
            }),
            r.valid(),
    {
        MDPConfig {
            max_inventory: 100,
            order_cost: 50_000_000,
            holding_cost: 2_000_000,
            stockout_cost: 20_000_000,
            selling_price: 15_000_000,
            demand_mean: 10_000_000,
            demand_std: 3_000_000,
            gamma: 950_000,
        }
    }
}

} // verus!
