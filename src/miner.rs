//! Block assembly: the setup of a new block on its parent, and the
//! admission loop that decides, transaction by transaction, what enters
//! the block. Execution itself is the caller's: it runs each transaction
//! that `next_transaction` hands out and reports the outcome back.
use vstd::prelude::*;

use crate::base_fee::{calculate_next_base_fee, Header};
use crate::cursor::TransactionCursor;
use crate::ordering::{offered_no_later, option_value, Address, MineOrdering, PendingTransaction};
use crate::uint::{word_modulus, U256};

verus! {

/// The block nonce used before the merge.
pub const LEGACY_BLOCK_NONCE: u64 = 66;

/// The protocol upgrades active on the chain being mined.
#[derive(Clone, Copy, Debug, PartialEq, Eq, Structural)]
pub struct ChainConfig {
    /// London: blocks carry a base fee.
    pub fee_market_active: bool,
    /// The merge: blocks carry a randomness seed instead of a nonce.
    pub merge_active: bool,
}

/// The header fields a new block is built with.
#[derive(Clone, Copy, Debug, PartialEq, Eq)]
pub struct BlockOptions {
    pub beneficiary: Address,
    pub number: U256,
    pub gas_limit: U256,
    pub timestamp: U256,
    pub mix_hash: Option<[u8; 32]>,
    pub nonce: u64,
    pub base_fee: Option<U256>,
}

/// An error that occurred while mining a block.
#[derive(Debug)]
pub enum MineBlockError<BE, SE, CE, TE> {
    /// An error that occurred while aborting the block builder.
    BlockAbort(SE),
    /// An error that occurred while constructing a block builder.
    BlockBuilderCreation(CE),
    /// An error that occurred while executing a transaction.
    BlockTransaction(TE),
    /// An error that occurred while finalizing a block.
    BlockFinalize(SE),
    /// A blockchain error
    Blockchain(BE),
    /// An error that occurred while updating the mempool.
    MemPoolUpdate(SE),
    /// The block is expected to have a prevrandao, as the chain is past the merge.
    MissingPrevrandao,
}

/// The result of mining a block.
pub struct MineBlockResult<B, S, R, T> {
    /// Mined block
    pub block: B,
    /// State after mining the block
    pub state: S,
    /// Transaction results
    pub transaction_results: Vec<R>,
    /// Transaction traces
    pub transaction_traces: Vec<T>,
}

/// The base fee of the new block: none before London; else the given one,
/// or the one computed from the parent.
pub open spec fn block_base_fee_spec(
    parent: Header,
    config: ChainConfig,
    base_fee: Option<U256>,
) -> Option<nat> {
    if !config.fee_market_active {
        None
    } else {
        match base_fee {
            Some(b) => Some(b.value()),
            None => Some(parent.next_base_fee_spec()),
        }
    }
}

pub open spec fn block_base_fee_computable(
    parent: Header,
    config: ChainConfig,
    base_fee: Option<U256>,
) -> bool {
    config.fee_market_active && base_fee is None ==> parent.supports_next_base_fee()
}

/// The base fee of the block to mine on `parent`.
pub fn block_base_fee(parent: &Header, config: &ChainConfig, base_fee: Option<U256>) -> (r: Option<
    U256,
>)
    requires
        block_base_fee_computable(*parent, *config, base_fee),
    ensures
        option_value(r) == block_base_fee_spec(*parent, *config, base_fee),
{
    if config.fee_market_active {
        match base_fee {
            Some(b) => Some(b),
            None => Some(calculate_next_base_fee(parent)),
        }
    } else {
        None
    }
}

/// The header fields of the block to mine on `parent`, or
/// `MissingPrevrandao` where the chain is past the merge and no randomness
/// seed is given.
pub fn block_options<BE, SE, CE, TE>(
    parent: &Header,
    config: &ChainConfig,
    block_gas_limit: U256,
    timestamp: U256,
    beneficiary: Address,
    base_fee: Option<U256>,
    prevrandao: Option<[u8; 32]>,
) -> (r: Result<BlockOptions, MineBlockError<BE, SE, CE, TE>>)
    requires
        block_base_fee_computable(*parent, *config, base_fee),
        parent.number.value() + 1 < word_modulus(),
    ensures
        r is Err <==> config.merge_active && prevrandao is None,
        r is Err ==> r->Err_0 is MissingPrevrandao,
        r matches Ok(o) ==> {
            &&& o.beneficiary == beneficiary
            &&& o.number.value() == parent.number.value() + 1
            &&& o.gas_limit == block_gas_limit
            &&& o.timestamp == timestamp
            &&& o.mix_hash == if config.merge_active {
                prevrandao
            } else {
                None
            }
            &&& o.nonce == if config.merge_active {
                0
            } else {
                LEGACY_BLOCK_NONCE
            }
            &&& option_value(o.base_fee) == block_base_fee_spec(*parent, *config, base_fee)
        },
{
    let base_fee = block_base_fee(parent, config, base_fee);
    let mix_hash = if config.merge_active {
        match prevrandao {
            Some(h) => Some(h),
            None => {
                return Err(MineBlockError::MissingPrevrandao);
            },
        }
    } else {
        None
    };
    let nonce: u64 = if config.merge_active {
        0
    } else {
        LEGACY_BLOCK_NONCE
    };
    Ok(
        BlockOptions {
            beneficiary,
            number: parent.number.add(&U256::from_u64(1)),
            gas_limit: block_gas_limit,
            timestamp,
            mix_hash,
            nonce,
            base_fee,
        },
    )
}

/// The rewards credited when the block is finalized: the block reward, to
/// the beneficiary.
pub fn block_rewards(beneficiary: Address, reward: U256) -> (r: Vec<(Address, U256)>)
    ensures
        r@ == seq![(beneficiary, reward)],
{
    let mut rewards: Vec<(Address, U256)> = Vec::new();
    rewards.push((beneficiary, reward));
    rewards
}

/// What became of a transaction handed to the block builder.
pub enum TransactionOutcome<R, T, E> {
    /// It is in the block, with its execution result and trace.
    Included(R, T),
    /// It needs more gas than the block has left.
    ExceedsBlockGasLimit,
    /// Its fee cap is below the block's base fee.
    GasPriceLessThanBasefee,
    /// Any other failure, which ends the attempt.
    Failed(E),
}

/// The admission loop of one mining attempt.
pub struct BlockAssembly<R, T> {
    cursor: TransactionCursor,
    min_gas_price: U256,
    included: Vec<PendingTransaction>,
    results: Vec<R>,
    traces: Vec<T>,
    /// Handed out, its outcome not yet reported.
    in_flight: Option<PendingTransaction>,
    /// Senders evicted for a gas price below the floor.
    below_floor: Ghost<Set<Address>>,
}

impl<R, T> BlockAssembly<R, T> {
    pub closed spec fn cursor(&self) -> TransactionCursor {
        self.cursor
    }

    pub closed spec fn min_gas_price(&self) -> nat {
        self.min_gas_price.value()
    }

    /// The transactions in the block, in the order they entered it.
    pub closed spec fn included(&self) -> Seq<PendingTransaction> {
        self.included@
    }

    pub closed spec fn results(&self) -> Seq<R> {
        self.results@
    }

    pub closed spec fn traces(&self) -> Seq<T> {
        self.traces@
    }

    pub closed spec fn in_flight(&self) -> Option<PendingTransaction> {
        self.in_flight
    }

    pub closed spec fn below_floor(&self) -> Set<Address> {
        self.below_floor@
    }

    pub open spec fn wf(&self) -> bool {
        &&& self.cursor().wf()
        &&& self.results().len() == self.included().len()
        &&& self.traces().len() == self.included().len()
        &&& forall|k: int|
            0 <= k < self.included().len() ==> #[trigger] self.included()[k].gas_price.value()
                >= self.min_gas_price()
        &&& forall|a: Address| #[trigger]
            self.below_floor().contains(a) ==> self.cursor().caller_evicted(a)
        &&& forall|a: Address| #[trigger]
            self.below_floor().contains(a) ==> exists|i: int|
                0 <= i < self.cursor().transactions().len() && #[trigger] self.cursor().transactions()[i].caller
                    == a && self.cursor().transactions()[i].gas_price.value()
                    < self.min_gas_price()
        &&& self.in_flight() matches Some(tx) ==> {
            &&& tx.gas_price.value() >= self.min_gas_price()
            &&& !self.below_floor().contains(tx.caller)
        }
    }

    /// Starts an attempt over the pool's `transactions`, each sender's in
    /// its queue order.
    pub fn new(
        transactions: Vec<PendingTransaction>,
        ordering: MineOrdering,
        base_fee: Option<U256>,
        min_gas_price: U256,
    ) -> (r: BlockAssembly<R, T>)
        ensures
            r.wf(),
            r.cursor().transactions() == transactions@,
            r.cursor().ordering() == ordering,
            r.cursor().base_fee() == option_value(base_fee),
            forall|i: int| 0 <= i < transactions@.len() ==> r.cursor().is_open(i),
            r.min_gas_price() == min_gas_price.value(),
            r.included().len() == 0,
            r.in_flight() is None,
            r.below_floor().is_empty(),
    {
        BlockAssembly {
            cursor: TransactionCursor::new(transactions, ordering, base_fee),
            min_gas_price,
            included: Vec::new(),
            results: Vec::new(),
            traces: Vec::new(),
            in_flight: None,
            below_floor: Ghost(Set::empty()),
        }
    }

    /// The next transaction to execute. Transactions priced below the floor
    /// are passed over, and the rest of their sender's queue with them.
    pub fn next_transaction(&mut self) -> (r: Option<PendingTransaction>)
        requires
            old(self).wf(),
            old(self).in_flight() is None,
        ensures
            final(self).wf(),
            final(self).in_flight() == r,
            final(self).included() == old(self).included(),
            final(self).results() == old(self).results(),
            final(self).traces() == old(self).traces(),
            final(self).min_gas_price() == old(self).min_gas_price(),
            old(self).below_floor().subset_of(final(self).below_floor()),
            final(self).cursor().transactions() == old(self).cursor().transactions(),
            final(self).cursor().ordering() == old(self).cursor().ordering(),
            final(self).cursor().base_fee() == old(self).cursor().base_fee(),
            r is None ==> final(self).cursor().remaining().is_empty(),
            r is None ==> forall|j: int| #[trigger]
                old(self).cursor().is_open(j) ==> final(self).below_floor().contains(
                    old(self).cursor().transactions()[j].caller,
                ),
            r matches Some(tx) ==> {
                &&& tx.gas_price.value() >= final(self).min_gas_price()
                &&& !final(self).below_floor().contains(tx.caller)
                &&& exists|i: int|
                    {
                        &&& old(self).cursor().is_open(i)
                        &&& !final(self).cursor().is_open(i)
                        &&& old(self).cursor().transactions()[i] == tx
                        &&& forall|j: int| #![trigger old(self).cursor().is_open(j)]
                            old(self).cursor().is_open(j) && !final(self).cursor().is_open(j)
                                && j != i ==> final(self).below_floor().contains(
                                old(self).cursor().transactions()[j].caller,
                            )
                        &&& forall|j: int| #[trigger]
                            final(self).cursor().is_head(j)
                                && final(self).cursor().transactions()[j].caller != tx.caller
                                ==> offered_no_later(
                                final(self).cursor().ordering(),
                                tx,
                                final(self).cursor().transactions()[j],
                                final(self).cursor().base_fee(),
                            )
                    }
            },
            forall|a: Address| #[trigger]
                old(self).cursor().caller_evicted(a) ==> final(self).cursor().caller_evicted(a)
                    && (r is Some ==> r->Some_0.caller != a),
    {
        loop
            invariant
                self.wf(),
                self.in_flight() is None,
                self.included() == old(self).included(),
                self.results() == old(self).results(),
                self.traces() == old(self).traces(),
                self.min_gas_price() == old(self).min_gas_price(),
                old(self).below_floor().subset_of(self.below_floor()),
                forall|a: Address| #[trigger]
                    old(self).cursor().caller_evicted(a) ==> self.cursor().caller_evicted(a),
                self.cursor().transactions() == old(self).cursor().transactions(),
                self.cursor().ordering() == old(self).cursor().ordering(),
                self.cursor().base_fee() == old(self).cursor().base_fee(),
                forall|j: int| #![trigger old(self).cursor().is_open(j)]
                    old(self).cursor().is_open(j) && !self.cursor().is_open(j)
                        ==> self.below_floor().contains(old(self).cursor().transactions()[j].caller),
                forall|j: int| #[trigger]
                    self.cursor().is_open(j) ==> old(self).cursor().is_open(j),
            decreases self.cursor().remaining().len(),
        {
            proof {
                self.cursor.lemma_remaining_finite();
            }
            let ghost before = *self;
            match self.cursor.next() {
                None => {
                    proof {
                        assert forall|j: int| #[trigger]
                            old(self).cursor().is_open(j) implies self.below_floor().contains(
                            old(self).cursor().transactions()[j].caller,
                        ) by {
                            assert(!before.cursor().remaining().contains(j));
                        }
                    }
                    return None;
                },
                Some(tx) => {
                    let ghost i = choose|i: int|
                        {
                            &&& before.cursor().is_head(i)
                            &&& before.cursor().transactions()[i] == tx
                            &&& self.cursor().taken() == before.cursor().taken().update(i, true)
                            &&& self.cursor().remaining() == before.cursor().remaining().remove(i)
                            &&& forall|j: int| #[trigger]
                                before.cursor().is_head(j) ==> offered_no_later(
                                    before.cursor().ordering(),
                                    before.cursor().transactions()[i],
                                    before.cursor().transactions()[j],
                                    before.cursor().base_fee(),
                                )
                        };
                    if tx.gas_price.lt(&self.min_gas_price) {
                        self.cursor.remove_caller(&tx.caller);
                        proof {
                            self.below_floor@ = self.below_floor@.insert(tx.caller);
                            assert(before.cursor().transactions()[i].caller == tx.caller);
                            assert forall|j: int| #![trigger old(self).cursor().is_open(j)]
                                old(self).cursor().is_open(j) && !self.cursor().is_open(j)
                                    implies self.below_floor().contains(
                                old(self).cursor().transactions()[j].caller,
                            ) by {
                                if before.cursor().is_open(j) && j != i {
                                    assert(self.cursor().taken()[j]);
                                }
                            }
                            assert forall|j: int| #[trigger]
                                self.cursor().is_open(j) implies old(self).cursor().is_open(j) by {
                                assert(before.cursor().remaining().contains(j));
                            }
                        }
                    } else {
                        self.in_flight = Some(tx);
                        proof {
                            assert forall|j: int| #[trigger]
                                self.cursor().is_head(j) && self.cursor().transactions()[j].caller
                                    != tx.caller implies offered_no_later(
                                self.cursor().ordering(),
                                tx,
                                self.cursor().transactions()[j],
                                self.cursor().base_fee(),
                            ) by {
                                assert forall|k: int|
                                    0 <= k < j && #[trigger] before.cursor().transactions()[k].caller
                                        == before.cursor().transactions()[j].caller
                                        implies !before.cursor().is_open(k) by {
                                    assert(self.cursor().transactions()[k].caller
                                        == self.cursor().transactions()[j].caller);
                                }
                                assert(before.cursor().is_head(j));
                            }
                            assert(!self.cursor().is_open(i));
                            assert(old(self).cursor().is_open(i));
                            assert forall|j: int| #![trigger old(self).cursor().is_open(j)]
                                old(self).cursor().is_open(j) && !self.cursor().is_open(j) && j
                                    != i implies self.below_floor().contains(
                                old(self).cursor().transactions()[j].caller,
                            ) by {
                                if before.cursor().is_open(j) {
                                    assert(self.cursor().taken()[j] == before.cursor().taken()[j]);
                                }
                            }
                        }
                        return Some(tx);
                    }
                },
            }
        }
    }

    /// Takes the outcome of the transaction handed out last. An included
    /// transaction is recorded with its result and trace; one that does not
    /// fit the block's gas or base fee is passed over, and the rest of its
    /// sender's queue with it; any other failure is returned.
    pub fn record_outcome<E>(&mut self, outcome: TransactionOutcome<R, T, E>) -> (r: Result<
        (),
        E,
    >)
        requires
            old(self).wf(),
            old(self).in_flight() is Some,
        ensures
            final(self).wf(),
            final(self).in_flight() is None,
            final(self).min_gas_price() == old(self).min_gas_price(),
            final(self).below_floor() == old(self).below_floor(),
            ({
                let tx = old(self).in_flight()->Some_0;
                match outcome {
                    TransactionOutcome::Included(result, trace) => {
                        &&& r is Ok
                        &&& final(self).included() == old(self).included().push(tx)
                        &&& final(self).results() == old(self).results().push(result)
                        &&& final(self).traces() == old(self).traces().push(trace)
                        &&& final(self).cursor() == old(self).cursor()
                    },
                    TransactionOutcome::ExceedsBlockGasLimit
                    | TransactionOutcome::GasPriceLessThanBasefee => {
                        &&& r is Ok
                        &&& final(self).included() == old(self).included()
                        &&& final(self).results() == old(self).results()
                        &&& final(self).traces() == old(self).traces()
                        &&& final(self).cursor().caller_evicted(tx.caller)
                        &&& final(self).cursor().remaining().subset_of(
                            old(self).cursor().remaining(),
                        )
                    },
                    TransactionOutcome::Failed(e) => {
                        &&& r == Err::<(), E>(e)
                        &&& final(self).included() == old(self).included()
                        &&& final(self).results() == old(self).results()
                        &&& final(self).traces() == old(self).traces()
                        &&& final(self).cursor() == old(self).cursor()
                    },
                }
            }),
            forall|a: Address| #[trigger]
                old(self).cursor().caller_evicted(a) ==> final(self).cursor().caller_evicted(a),
    {
        let tx = match self.in_flight {
            Some(tx) => tx,
            None => {
                return Ok(());
            },
        };
        self.in_flight = None;
        match outcome {
            TransactionOutcome::Included(result, trace) => {
                self.included.push(tx);
                self.results.push(result);
                self.traces.push(trace);
                Ok(())
            },
            TransactionOutcome::ExceedsBlockGasLimit
            | TransactionOutcome::GasPriceLessThanBasefee => {
                self.cursor.remove_caller(&tx.caller);
                Ok(())
            },
            TransactionOutcome::Failed(e) => Err(e),
        }
    }

    /// The number of transactions in the block so far.
    pub fn included_count(&self) -> (r: usize)
        requires
            self.wf(),
        ensures
            r == self.included().len(),
    {
        self.included.len()
    }

    /// Ends the admission loop with the block's results and traces, one of
    /// each per included transaction, in inclusion order.
    pub fn finish(self) -> (r: (Vec<R>, Vec<T>))
        requires
            self.wf(),
        ensures
            r.0@ == self.results(),
            r.1@ == self.traces(),
            r.0@.len() == r.1@.len(),
            r.0@.len() == self.included().len(),
    {
        (self.results, self.traces)
    }
}

} // verus!
