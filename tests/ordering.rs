use std::cmp::Ordering;

use rethnet_miner::ordering::{compare_transactions, Address, MineOrdering, PendingTransaction};
use rethnet_miner::uint::U256;

fn tx(sender: u32, order_id: u64, gas_price: u64, priority: Option<u64>) -> PendingTransaction {
    PendingTransaction {
        caller: Address { hi: 0, mid: 0, lo: sender },
        order_id,
        gas_price: U256::from_u64(gas_price),
        max_priority_fee_per_gas: priority.map(U256::from_u64),
    }
}

#[test]
fn fifo_compares_insertion_ids() {
    let a = tx(1, 3, 100, None);
    let b = tx(2, 5, 900, None);
    let none: Option<U256> = None;
    assert_eq!(compare_transactions(MineOrdering::Fifo, &a, &b, &none), Ordering::Less);
    assert_eq!(compare_transactions(MineOrdering::Fifo, &b, &a, &none), Ordering::Greater);
    assert_eq!(compare_transactions(MineOrdering::Fifo, &a, &a, &none), Ordering::Equal);
}

#[test]
fn priority_puts_higher_fee_first() {
    let cheap = tx(1, 1, 100, None);
    let dear = tx(2, 2, 300, None);
    let none: Option<U256> = None;
    assert_eq!(
        compare_transactions(MineOrdering::Priority, &dear, &cheap, &none),
        Ordering::Less
    );
}

#[test]
fn priority_uses_effective_fee_under_base_fee() {
    // base fee 100: a pays min(50, 400 - 100) = 50, b pays min(80, 170 - 100) = 70
    let a = tx(1, 1, 400, Some(50));
    let b = tx(2, 2, 170, Some(80));
    let base_fee = Some(U256::from_u64(100));
    assert_eq!(
        compare_transactions(MineOrdering::Priority, &b, &a, &base_fee),
        Ordering::Less
    );
    // without a base fee the gas price decides
    let none: Option<U256> = None;
    assert_eq!(
        compare_transactions(MineOrdering::Priority, &a, &b, &none),
        Ordering::Less
    );
}

#[test]
fn priority_ties_go_to_earlier_insertion() {
    let base_fee = Some(U256::from_u64(10));
    let first = tx(1, 4, 60, Some(20));
    let second = tx(2, 9, 30, None);
    // both pay 20 per gas
    assert_eq!(
        compare_transactions(MineOrdering::Priority, &first, &second, &base_fee),
        Ordering::Less
    );
    assert_eq!(
        compare_transactions(MineOrdering::Priority, &second, &first, &base_fee),
        Ordering::Greater
    );
}

#[test]
fn fee_cap_below_base_fee_orders_last() {
    let base_fee = Some(U256::from_u64(100));
    let under = tx(1, 1, 90, Some(50));
    let zero = tx(2, 2, 100, Some(5));
    assert_eq!(
        compare_transactions(MineOrdering::Priority, &zero, &under, &base_fee),
        Ordering::Less
    );
}

#[test]
fn huge_priority_cap_is_bounded_by_fee_cap() {
    let max = U256 { l0: u64::MAX, l1: u64::MAX, l2: u64::MAX, l3: u64::MAX };
    let base_fee = Some(U256::from_u64(1));
    let a = PendingTransaction {
        caller: Address { hi: 0, mid: 0, lo: 1 },
        order_id: 1,
        gas_price: U256::from_u64(11),
        max_priority_fee_per_gas: Some(max),
    };
    let b = tx(2, 2, 12, Some(10));
    // a pays 11 - 1 = 10, b pays min(10, 11) = 10: the earlier insertion wins
    assert_eq!(
        compare_transactions(MineOrdering::Priority, &a, &b, &base_fee),
        Ordering::Less
    );
}
