//! The order in which pending transactions are offered for inclusion.
use vstd::prelude::*;

use crate::uint::U256;

verus! {

/// The type of ordering to use when selecting transactions to mine.
#[derive(Clone, Copy, Debug, PartialEq, Eq, Structural)]
pub enum MineOrdering {
    /// Insertion order
    Fifo,
    /// Effective miner fee, highest first
    Priority,
}

/// A 20-byte account address, as three big-endian parts.
#[derive(Clone, Copy, Debug, PartialEq, Eq, Structural)]
pub struct Address {
    pub hi: u64,
    pub mid: u64,
    pub lo: u32,
}

/// The fields of a pending transaction that block assembly decides on.
#[derive(Clone, Copy, Debug, PartialEq, Eq)]
pub struct PendingTransaction {
    pub caller: Address,
    /// Position in the pool's insertion sequence.
    pub order_id: u64,
    /// The gas price, or the fee cap of a fee-market transaction.
    pub gas_price: U256,
    pub max_priority_fee_per_gas: Option<U256>,
}

pub open spec fn option_value(o: Option<U256>) -> Option<nat> {
    match o {
        Some(v) => Some(v.value()),
        None => None,
    }
}

pub open spec fn min_int(a: int, b: int) -> int {
    if a <= b {
        a
    } else {
        b
    }
}

pub open spec fn cmp_int(a: int, b: int) -> std::cmp::Ordering {
    if a < b {
        std::cmp::Ordering::Less
    } else if a == b {
        std::cmp::Ordering::Equal
    } else {
        std::cmp::Ordering::Greater
    }
}

impl PendingTransaction {
    /// The priority fee cap; the gas price where the transaction has none.
    pub open spec fn priority_fee_cap(self) -> nat {
        match self.max_priority_fee_per_gas {
            Some(p) => p.value(),
            None => self.gas_price.value(),
        }
    }

    /// What the transaction pays the block producer per gas: the gas price
    /// without a base fee, else `min(priority cap, fee cap - base fee)`,
    /// negative where the fee cap is below the base fee.
    pub open spec fn effective_miner_fee(self, base_fee: Option<nat>) -> int {
        match base_fee {
            None => self.gas_price.value() as int,
            Some(b) => min_int(self.priority_fee_cap() as int, self.gas_price.value() - b),
        }
    }
}

/// How `lhs` stands to `rhs` in the order of `ordering`: `Less` where `lhs`
/// is offered first.
pub open spec fn transaction_order(
    ordering: MineOrdering,
    lhs: PendingTransaction,
    rhs: PendingTransaction,
    base_fee: Option<nat>,
) -> std::cmp::Ordering {
    match ordering {
        MineOrdering::Fifo => cmp_int(lhs.order_id as int, rhs.order_id as int),
        MineOrdering::Priority => {
            let by_fee = cmp_int(
                rhs.effective_miner_fee(base_fee),
                lhs.effective_miner_fee(base_fee),
            );
            if by_fee == std::cmp::Ordering::Equal {
                cmp_int(lhs.order_id as int, rhs.order_id as int)
            } else {
                by_fee
            }
        },
    }
}

/// `a` is offered no later than `b`.
pub open spec fn offered_no_later(
    ordering: MineOrdering,
    a: PendingTransaction,
    b: PendingTransaction,
    base_fee: Option<nat>,
) -> bool {
    transaction_order(ordering, a, b, base_fee) != std::cmp::Ordering::Greater
}

/// The order is total and transitive.
pub proof fn lemma_transaction_order_total(
    ordering: MineOrdering,
    a: PendingTransaction,
    b: PendingTransaction,
    c: PendingTransaction,
    base_fee: Option<nat>,
)
    ensures
        offered_no_later(ordering, a, b, base_fee) || offered_no_later(ordering, b, a, base_fee),
        offered_no_later(ordering, a, b, base_fee) && offered_no_later(ordering, b, c, base_fee)
            ==> offered_no_later(ordering, a, c, base_fee),
        transaction_order(ordering, a, b, base_fee) == std::cmp::Ordering::Less
            <==> transaction_order(ordering, b, a, base_fee) == std::cmp::Ordering::Greater,
{
}

/// Insertion order is ascending insertion id.
pub proof fn lemma_fifo_is_insertion_order(
    a: PendingTransaction,
    b: PendingTransaction,
    base_fee: Option<nat>,
)
    ensures
        offered_no_later(MineOrdering::Fifo, a, b, base_fee) <==> a.order_id <= b.order_id,
{
}

/// Priority order is descending effective miner fee, and ascending
/// insertion id among equal fees.
pub proof fn lemma_priority_is_fee_order(
    a: PendingTransaction,
    b: PendingTransaction,
    base_fee: Option<nat>,
)
    ensures
        transaction_order(MineOrdering::Priority, a, b, base_fee) == std::cmp::Ordering::Less
            <==> (a.effective_miner_fee(base_fee) > b.effective_miner_fee(base_fee) || (
        a.effective_miner_fee(base_fee) == b.effective_miner_fee(base_fee) && a.order_id
            < b.order_id)),
{
}

/// The effective miner fee shifted up by the base fee:
/// `min(priority cap + base fee, fee cap)`, never negative.
fn miner_fee_key(tx: &PendingTransaction, base_fee: &Option<U256>) -> (r: U256)
    ensures
        r.value() == tx.effective_miner_fee(option_value(*base_fee)) + match base_fee {
            Some(b) => b.value() as int,
            None => 0int,
        },
{
    let max_fee_per_gas = tx.gas_price;
    let max_priority_fee_per_gas = match tx.max_priority_fee_per_gas {
        Some(p) => p,
        None => max_fee_per_gas,
    };
    match base_fee {
        None => max_fee_per_gas,
        Some(b) => match max_priority_fee_per_gas.checked_add(b) {
            Some(capped) => {
                if capped.lt(&max_fee_per_gas) {
                    capped
                } else {
                    max_fee_per_gas
                }
            },
            None => {
                proof {
                    max_fee_per_gas.lemma_value_bound();
                }
                max_fee_per_gas
            },
        },
    }
}

/// Compares two pending transactions under `ordering`, given the base fee
/// of the block being assembled.
pub fn compare_transactions(
    ordering: MineOrdering,
    lhs: &PendingTransaction,
    rhs: &PendingTransaction,
    base_fee: &Option<U256>,
) -> (r: std::cmp::Ordering)
    ensures
        r == transaction_order(ordering, *lhs, *rhs, option_value(*base_fee)),
{
    match ordering {
        MineOrdering::Fifo => compare_order_ids(lhs.order_id, rhs.order_id),
        MineOrdering::Priority => {
            // the reversed comparison puts the higher fee first
            let by_fee = miner_fee_key(rhs, base_fee).cmp(&miner_fee_key(lhs, base_fee));
            match by_fee {
                std::cmp::Ordering::Equal => compare_order_ids(lhs.order_id, rhs.order_id),
                _ => by_fee,
            }
        },
    }
}

fn compare_order_ids(a: u64, b: u64) -> (r: std::cmp::Ordering)
    ensures
        r == cmp_int(a as int, b as int),
{
    if a < b {
        std::cmp::Ordering::Less
    } else if a == b {
        std::cmp::Ordering::Equal
    } else {
        std::cmp::Ordering::Greater
    }
}

} // verus!
