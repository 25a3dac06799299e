//! Policy summarizer: condenses the per-state action table into an
//! approximate reorder-point / order-up-to pair.
//!
//! Every state with a strictly positive action is a reorder-point sample,
//! and `state + action` is its order-up-to sample; the summary takes the
//! largest reorder point and the mean order-up-to level, with fallbacks of
//! one third and two thirds of capacity when no state orders.  This is a
//! heuristic summary of the policy's base-stock shape, not an exact
//! recovery.

use vstd::prelude::*;
use crate::engine::MDPOptimizer;

verus! {

/// Largest state below `n` whose action is strictly positive, or `-1` when
/// no such state exists.
pub open spec fn last_reorder(pol: Seq<usize>, n: nat) -> int
    decreases n,
{
    if n == 0 {
        -1
    } else if pol[n - 1] > 0 {
        n - 1
    } else {
        last_reorder(pol, (n - 1) as nat)
    }
}

/// Sum of `state + action` over the ordering states below `n`.
pub open spec fn order_up_sum(pol: Seq<usize>, n: nat) -> int
    decreases n,
{
    if n == 0 {
        0
    } else {
        order_up_sum(pol, (n - 1) as nat) + if pol[n - 1] > 0 {
            n - 1 + pol[n - 1]
        } else {
            0
        }
    }
}

/// Number of ordering states below `n`.
pub open spec fn order_count(pol: Seq<usize>, n: nat) -> int
    decreases n,
{
    if n == 0 {
        0
    } else {
        order_count(pol, (n - 1) as nat) + if pol[n - 1] > 0 {
            1int
        } else {
            0int
        }
    }
}

impl MDPOptimizer {
    /// The summarized reorder point `s`: the largest ordering state, or one
    /// third of capacity when no state orders.
    pub open spec fn reorder_point_spec(self) -> int {
        let n = (self.config.max_inventory + 1) as nat;
        if last_reorder(self.policy@, n) >= 0 {
            last_reorder(self.policy@, n)
        } else {
            (self.config.max_inventory as int) / 3
        }
    }

    /// The summarized order-up-to level `S`: the mean of `state + action`
    /// over ordering states, or two thirds of capacity when no state
    /// orders.
    pub open spec fn order_up_to_spec(self) -> int {
        let n = (self.config.max_inventory + 1) as nat;
        if order_count(self.policy@, n) > 0 {
            order_up_sum(self.policy@, n) / order_count(self.policy@, n)
        } else {
            (2 * (self.config.max_inventory as int)) / 3
        }
    }

    /// Computes the `(s, S)` summary of the current policy exactly as
    /// specified by `reorder_point_spec` and `order_up_to_spec`; both
    /// components stay within capacity.
    pub fn compute_s_s_policy(&self) -> (r: (usize, usize))
        requires
            self.wf(),
        ensures
            r.0 == self.reorder_point_spec(),
            r.1 == self.order_up_to_spec(),
            r.0 <= self.config.max_inventory,
            r.1 <= self.config.max_inventory,
    {
        let m: usize = self.config.max_inventory;
        let mut have_reorder = false;
        let mut last: usize = 0;
        let mut sum: u64 = 0;
        let mut count: u64 = 0;
        let mut state: usize = 0;
        while state <= m
            invariant
                self.wf(),
                m == self.config.max_inventory,
                state <= m + 1,
                have_reorder <==> last_reorder(self.policy@, state as nat) >= 0,
                have_reorder ==> last == last_reorder(self.policy@, state as nat),
                last <= m,
                sum == order_up_sum(self.policy@, state as nat),
                count == order_count(self.policy@, state as nat),
                count <= state,
                sum <= count * (m as u64),
            decreases m + 1 - state,
        {
            let action: usize = self.policy[state];
            if action > 0 {
                have_reorder = true;
                last = state;
                proof {
                    assert((count + 1) * (m as int) == count * (m as int) + (m as int))
                        by (nonlinear_arith);
                    assert(state + action <= m);
                    assert(count * (m as int) <= 10_000_000_000int) by (nonlinear_arith)
                        requires
                            0 <= count <= 100_000,
                            0 <= m <= 100_000;
                }
                sum = sum + ((state + action) as u64);
                count = count + 1;
            }
            state = state + 1;
        }
        let s: usize = if have_reorder {
            last
        } else {
            m / 3
        };
        let big_s: usize = if count > 0 {
            proof {
                vstd::arithmetic::div_mod::lemma_div_pos_is_pos(sum as int, count as int);
                vstd::arithmetic::div_mod::lemma_div_is_ordered(
                    sum as int,
                    (count as int) * (m as int),
                    count as int,
                );
                vstd::arithmetic::div_mod::lemma_div_multiples_vanish(m as int, count as int);
                assert((count as int) * (m as int) == (m as int) * (count as int))
                    by (nonlinear_arith);
            }
            (sum / count) as usize
        } else {
            2 * m / 3
        };
        (s, big_s)
    }
}

} // verus!
