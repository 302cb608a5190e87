//! The next block's base fee, adjusted from the parent block's gas usage.
use vstd::prelude::*;

use crate::uint::{word_modulus, U256};

verus! {

/// Ratio of the gas limit to the gas target.
pub const ELASTICITY_MULTIPLIER: u64 = 2;

/// Bounds the change of the base fee from one block to the next to 1/8.
pub const BASE_FEE_MAX_CHANGE_DENOMINATOR: u64 = 8;

/// The header fields of a parent block that the next block's setup reads.
#[derive(Clone, Copy, Debug, PartialEq, Eq)]
pub struct Header {
    pub number: U256,
    pub gas_limit: U256,
    pub gas_used: U256,
    pub base_fee_per_gas: Option<U256>,
}

/// Half the gas limit, rounded down.
pub open spec fn gas_target(gas_limit: nat) -> nat {
    gas_limit / (ELASTICITY_MULTIPLIER as nat)
}

/// `base_fee * gas_delta / target / 8`, dividing in that order.
pub open spec fn fee_delta(base_fee: nat, gas_delta: nat, target: nat) -> nat {
    base_fee * gas_delta / target / (BASE_FEE_MAX_CHANGE_DENOMINATOR as nat)
}

/// The next base fee: lowered when the parent used less than the target,
/// kept at the target, and raised by at least one above it.
pub open spec fn next_base_fee(base_fee: nat, gas_used: nat, gas_limit: nat) -> nat {
    let target = gas_target(gas_limit);
    if gas_used < target {
        let delta = fee_delta(base_fee, (target - gas_used) as nat, target);
        if delta <= base_fee {
            (base_fee - delta) as nat
        } else {
            0
        }
    } else if gas_used == target {
        base_fee
    } else {
        let delta = fee_delta(base_fee, (gas_used - target) as nat, target);
        base_fee + if delta < 1 {
            1
        } else {
            delta
        }
    }
}

/// The inputs on which the computation stays within 256 bits: a positive
/// target, a product `base_fee * gas_delta` below 2^256, and a result
/// below 2^256.
pub open spec fn next_base_fee_in_range(base_fee: nat, gas_used: nat, gas_limit: nat) -> bool {
    let target = gas_target(gas_limit);
    let gas_delta = if gas_used < target {
        (target - gas_used) as nat
    } else {
        (gas_used - target) as nat
    };
    &&& target > 0
    &&& base_fee * gas_delta < word_modulus()
    &&& next_base_fee(base_fee, gas_used, gas_limit) < word_modulus()
}

impl Header {
    /// The parent carries a base fee and its next base fee is computable.
    pub open spec fn supports_next_base_fee(self) -> bool {
        &&& self.base_fee_per_gas is Some
        &&& next_base_fee_in_range(
            self.base_fee_per_gas->Some_0.value(),
            self.gas_used.value(),
            self.gas_limit.value(),
        )
    }

    pub open spec fn next_base_fee_spec(self) -> nat {
        next_base_fee(
            self.base_fee_per_gas->Some_0.value(),
            self.gas_used.value(),
            self.gas_limit.value(),
        )
    }
}

/// Calculates the next base fee for a post-London block from its parent's
/// header.
pub fn calculate_next_base_fee(parent: &Header) -> (r: U256)
    requires
        parent.supports_next_base_fee(),
    ensures
        r.value() == parent.next_base_fee_spec(),
{
    let elasticity = U256::from_u64(ELASTICITY_MULTIPLIER);
    let denominator = U256::from_u64(BASE_FEE_MAX_CHANGE_DENOMINATOR);
    let parent_gas_target = parent.gas_limit.div(&elasticity);
    let parent_base_fee = match parent.base_fee_per_gas {
        Some(fee) => fee,
        None => U256::zero(),
    };
    match parent.gas_used.cmp(&parent_gas_target) {
        std::cmp::Ordering::Less => {
            let gas_used_delta = parent_gas_target.sub(&parent.gas_used);
            let delta = parent_base_fee.mul(&gas_used_delta).div(&parent_gas_target).div(
                &denominator,
            );
            parent_base_fee.saturating_sub(&delta)
        },
        std::cmp::Ordering::Equal => parent_base_fee,
        std::cmp::Ordering::Greater => {
            let gas_used_delta = parent.gas_used.sub(&parent_gas_target);
            let delta = parent_base_fee.mul(&gas_used_delta).div(&parent_gas_target).div(
                &denominator,
            );
            parent_base_fee.add(&delta.max(&U256::from_u64(1)))
        },
    }
}

/// The next base fee where the parent carries a base fee and the
/// computation stays within 256 bits; `None` otherwise.
pub fn checked_next_base_fee(parent: &Header) -> (r: Option<U256>)
    ensures
        r is Some <==> parent.supports_next_base_fee(),
        r matches Some(v) ==> v.value() == parent.next_base_fee_spec(),
{
    let parent_base_fee = match parent.base_fee_per_gas {
        Some(fee) => fee,
        None => {
            return None;
        },
    };
    let parent_gas_target = parent.gas_limit.div(&U256::from_u64(ELASTICITY_MULTIPLIER));
    if parent_gas_target.lt(&U256::from_u64(1)) {
        return None;
    }
    let used_above = parent_gas_target.lt(&parent.gas_used);
    let gas_used_delta = if used_above {
        parent.gas_used.sub(&parent_gas_target)
    } else {
        parent_gas_target.sub(&parent.gas_used)
    };
    let product = match parent_base_fee.checked_mul(&gas_used_delta) {
        Some(p) => p,
        None => {
            return None;
        },
    };
    if used_above {
        let delta = product.div(&parent_gas_target).div(
            &U256::from_u64(BASE_FEE_MAX_CHANGE_DENOMINATOR),
        );
        if parent_base_fee.checked_add(&delta.max(&U256::from_u64(1))).is_none() {
            return None;
        }
    } else {
        proof {
            let b = parent_base_fee.value();
            assert(b * gas_used_delta.value() / parent_gas_target.value() <= b) by {
                assert(b * gas_used_delta.value() <= b * parent_gas_target.value())
                    by (nonlinear_arith)
                    requires gas_used_delta.value() <= parent_gas_target.value();
                vstd::arithmetic::div_mod::lemma_div_is_ordered(
                    (b * gas_used_delta.value()) as int,
                    (b * parent_gas_target.value()) as int,
                    parent_gas_target.value() as int,
                );
                vstd::arithmetic::div_mod::lemma_div_by_multiple(
                    b as int,
                    parent_gas_target.value() as int,
                );
            }
            parent_base_fee.lemma_value_bound();
        }
    }
    Some(calculate_next_base_fee(parent))
}

/// The next base fee depends on the parent's base fee, gas used and gas
/// limit alone: headers that agree on them get the same next base fee.
pub proof fn lemma_next_base_fee_deterministic(a: Header, b: Header)
    requires
        a.base_fee_per_gas is Some,
        b.base_fee_per_gas is Some,
        a.base_fee_per_gas->Some_0.value() == b.base_fee_per_gas->Some_0.value(),
        a.gas_used.value() == b.gas_used.value(),
        a.gas_limit.value() == b.gas_limit.value(),
    ensures
        a.next_base_fee_spec() == b.next_base_fee_spec(),
{
}

/// A parent that used exactly its gas target passes its base fee on
/// unchanged.
pub proof fn lemma_target_usage_keeps_base_fee(base_fee: nat, gas_limit: nat)
    requires
        gas_target(gas_limit) > 0,
    ensures
        next_base_fee(base_fee, gas_target(gas_limit), gas_limit) == base_fee,
{
}

/// `fee_delta` grows with the gas delta.
proof fn lemma_fee_delta_monotonic(base_fee: nat, d1: nat, d2: nat, target: nat)
    requires
        d1 <= d2,
        target > 0,
    ensures
        fee_delta(base_fee, d1, target) <= fee_delta(base_fee, d2, target),
{
    assert(base_fee * d1 <= base_fee * d2) by (nonlinear_arith)
        requires d1 <= d2;
    vstd::arithmetic::div_mod::lemma_div_is_ordered(
        (base_fee * d1) as int,
        (base_fee * d2) as int,
        target as int,
    );
    vstd::arithmetic::div_mod::lemma_div_is_ordered(
        (base_fee * d1 / target) as int,
        (base_fee * d2 / target) as int,
        8,
    );
}

/// For a fixed base fee and gas limit, more gas used never gives a lower
/// next base fee.
pub proof fn lemma_next_base_fee_monotonic(
    base_fee: nat,
    gas_used_low: nat,
    gas_used_high: nat,
    gas_limit: nat,
)
    requires
        gas_target(gas_limit) > 0,
        gas_used_low <= gas_used_high,
    ensures
        next_base_fee(base_fee, gas_used_low, gas_limit) <= next_base_fee(
            base_fee,
            gas_used_high,
            gas_limit,
        ),
{
    let t = gas_target(gas_limit);
    if gas_used_high < t {
        lemma_fee_delta_monotonic(
            base_fee,
            (t - gas_used_high) as nat,
            (t - gas_used_low) as nat,
            t,
        );
    } else if gas_used_low > t {
        lemma_fee_delta_monotonic(
            base_fee,
            (gas_used_low - t) as nat,
            (gas_used_high - t) as nat,
            t,
        );
    }
}

} // verus!
