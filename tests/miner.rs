use rethnet_miner::base_fee::Header;
use rethnet_miner::cursor::TransactionCursor;
use rethnet_miner::miner::{
    block_base_fee, block_options, block_rewards, BlockAssembly, ChainConfig, MineBlockError,
    TransactionOutcome, LEGACY_BLOCK_NONCE,
};
use rethnet_miner::ordering::{Address, MineOrdering, PendingTransaction};
use rethnet_miner::uint::U256;

type Assembly = BlockAssembly<u64, String>;
type Outcome = TransactionOutcome<u64, String, &'static str>;
type Error = MineBlockError<(), (), (), ()>;

fn sender(n: u32) -> Address {
    Address { hi: 0, mid: 0, lo: n }
}

fn tx(from: u32, order_id: u64, gas_price: u64) -> PendingTransaction {
    PendingTransaction {
        caller: sender(from),
        order_id,
        gas_price: U256::from_u64(gas_price),
        max_priority_fee_per_gas: None,
    }
}

fn parent() -> Header {
    Header {
        number: U256::from_u64(41),
        gas_limit: U256::from_u64(10000000),
        gas_used: U256::from_u64(10000000),
        base_fee_per_gas: Some(U256::from_u64(1000000000)),
    }
}

fn drain(cursor: &mut TransactionCursor) -> Vec<u64> {
    let mut ids = Vec::new();
    while let Some(t) = cursor.next() {
        ids.push(t.order_id);
    }
    ids
}

#[test]
fn fifo_cursor_yields_ascending_ids() {
    let txs = vec![tx(1, 4, 10), tx(2, 1, 50), tx(1, 6, 99), tx(3, 2, 1), tx(2, 3, 7)];
    let mut cursor = TransactionCursor::new(txs, MineOrdering::Fifo, None);
    assert_eq!(drain(&mut cursor), vec![1, 2, 3, 4, 6]);
}

#[test]
fn priority_cursor_keeps_sender_queues() {
    // sender 1's second transaction pays most, but waits for its first
    let txs = vec![tx(1, 1, 10), tx(2, 2, 50), tx(1, 3, 99), tx(3, 4, 50)];
    let mut cursor = TransactionCursor::new(txs, MineOrdering::Priority, None);
    assert_eq!(drain(&mut cursor), vec![2, 4, 1, 3]);
}

#[test]
fn evicted_sender_does_not_come_back() {
    let txs = vec![tx(1, 1, 10), tx(2, 2, 10), tx(1, 3, 10), tx(1, 4, 10)];
    let mut cursor = TransactionCursor::new(txs, MineOrdering::Fifo, None);
    assert_eq!(cursor.next().map(|t| t.order_id), Some(1));
    cursor.remove_caller(&sender(1));
    assert_eq!(drain(&mut cursor), vec![2]);
}

#[test]
fn empty_pool_mines_empty_block_with_reward() {
    let mut assembly = Assembly::new(Vec::new(), MineOrdering::Fifo, None, U256::zero());
    assert!(assembly.next_transaction().is_none());
    assert_eq!(assembly.included_count(), 0);
    let (results, traces) = assembly.finish();
    assert!(results.is_empty());
    assert!(traces.is_empty());
    let rewards = block_rewards(sender(9), U256::from_u64(2000));
    assert_eq!(rewards, vec![(sender(9), U256::from_u64(2000))]);
}

#[test]
fn oversized_first_transaction_excludes_its_sender() {
    let txs = vec![tx(1, 1, 10), tx(1, 2, 10)];
    let mut assembly = Assembly::new(txs, MineOrdering::Fifo, None, U256::zero());
    let first = assembly.next_transaction().unwrap();
    assert_eq!(first.order_id, 1);
    let outcome: Outcome = TransactionOutcome::ExceedsBlockGasLimit;
    assert_eq!(assembly.record_outcome(outcome), Ok(()));
    assert!(assembly.next_transaction().is_none());
    let (results, traces) = assembly.finish();
    assert!(results.is_empty() && traces.is_empty());
}

#[test]
fn below_base_fee_excludes_its_sender() {
    let txs = vec![tx(1, 1, 10), tx(2, 2, 10), tx(1, 3, 10)];
    let mut assembly = Assembly::new(txs, MineOrdering::Fifo, None, U256::zero());
    assembly.next_transaction().unwrap();
    let outcome: Outcome = TransactionOutcome::GasPriceLessThanBasefee;
    assert_eq!(assembly.record_outcome(outcome), Ok(()));
    assert_eq!(assembly.next_transaction().map(|t| t.order_id), Some(2));
    let outcome: Outcome = TransactionOutcome::Included(21000, "t2".to_string());
    assert_eq!(assembly.record_outcome(outcome), Ok(()));
    assert!(assembly.next_transaction().is_none());
    let (results, traces) = assembly.finish();
    assert_eq!(results, vec![21000]);
    assert_eq!(traces, vec!["t2".to_string()]);
}

#[test]
fn below_floor_sender_is_passed_over() {
    // sender 1 prices below the floor of 5; its later, well-priced
    // transaction goes with it
    let txs = vec![tx(1, 1, 4), tx(2, 2, 8), tx(1, 3, 100)];
    let mut assembly = Assembly::new(txs, MineOrdering::Fifo, None, U256::from_u64(5));
    let next = assembly.next_transaction().unwrap();
    assert_eq!(next.order_id, 2);
    let outcome: Outcome = TransactionOutcome::Included(1, "a".to_string());
    assert_eq!(assembly.record_outcome(outcome), Ok(()));
    assert!(assembly.next_transaction().is_none());
    let (results, traces) = assembly.finish();
    assert_eq!(results.len(), 1);
    assert_eq!(traces.len(), 1);
}

#[test]
fn results_and_traces_follow_inclusion_order() {
    let txs = vec![tx(1, 1, 10), tx(2, 2, 30), tx(3, 3, 20)];
    let mut assembly = Assembly::new(txs, MineOrdering::Priority, None, U256::zero());
    let mut k: u64 = 0;
    while let Some(t) = assembly.next_transaction() {
        k += 1;
        let outcome: Outcome = TransactionOutcome::Included(t.order_id, format!("trace{}", k));
        assert_eq!(assembly.record_outcome(outcome), Ok(()));
    }
    let (results, traces) = assembly.finish();
    assert_eq!(results, vec![2, 3, 1]);
    assert_eq!(traces, vec!["trace1", "trace2", "trace3"]);
}

#[test]
fn other_failure_ends_the_attempt() {
    let txs = vec![tx(1, 1, 10), tx(2, 2, 10)];
    let mut assembly = Assembly::new(txs, MineOrdering::Fifo, None, U256::zero());
    assembly.next_transaction().unwrap();
    let outcome: Outcome = TransactionOutcome::Failed("nonce too low");
    assert_eq!(assembly.record_outcome(outcome), Err("nonce too low"));
}

#[test]
fn block_options_after_merge() {
    let config = ChainConfig { fee_market_active: true, merge_active: true };
    let seed = [7u8; 32];
    let options = block_options::<(), (), (), ()>(
        &parent(),
        &config,
        U256::from_u64(30000000),
        U256::from_u64(1700000000),
        sender(5),
        None,
        Some(seed),
    )
    .unwrap();
    assert_eq!(options.number, U256::from_u64(42));
    assert_eq!(options.beneficiary, sender(5));
    assert_eq!(options.gas_limit, U256::from_u64(30000000));
    assert_eq!(options.timestamp, U256::from_u64(1700000000));
    assert_eq!(options.mix_hash, Some(seed));
    assert_eq!(options.nonce, 0);
    assert_eq!(options.base_fee, Some(U256::from_u64(1125000000)));
}

#[test]
fn block_options_before_merge_use_legacy_nonce() {
    let config = ChainConfig { fee_market_active: true, merge_active: false };
    let options = block_options::<(), (), (), ()>(
        &parent(),
        &config,
        U256::from_u64(30000000),
        U256::from_u64(1),
        sender(5),
        Some(U256::from_u64(77)),
        Some([1u8; 32]),
    )
    .unwrap();
    assert_eq!(options.mix_hash, None);
    assert_eq!(options.nonce, LEGACY_BLOCK_NONCE);
    assert_eq!(options.base_fee, Some(U256::from_u64(77)));
}

#[test]
fn missing_prevrandao_is_an_error() {
    let config = ChainConfig { fee_market_active: true, merge_active: true };
    let r: Result<_, Error> = block_options(
        &parent(),
        &config,
        U256::from_u64(30000000),
        U256::from_u64(1),
        sender(5),
        None,
        None,
    );
    assert!(matches!(r, Err(MineBlockError::MissingPrevrandao)));
}

#[test]
fn no_base_fee_before_london() {
    let config = ChainConfig { fee_market_active: false, merge_active: false };
    let mut header = parent();
    header.base_fee_per_gas = None;
    assert_eq!(block_base_fee(&header, &config, Some(U256::from_u64(3))), None);
}
