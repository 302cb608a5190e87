//! A cursor over the pool's pending transactions: each sender's
//! transactions form a queue, in pool order, and the cursor offers the best
//! queue head next. Evicting a sender drops what is left of its queue.
use vstd::prelude::*;

use crate::ordering::{
    compare_transactions, lemma_transaction_order_total, offered_no_later, option_value,
    transaction_order, Address, MineOrdering, PendingTransaction,
};
use crate::uint::U256;

verus! {

pub struct TransactionCursor {
    transactions: Vec<PendingTransaction>,
    /// Yielded or evicted.
    taken: Vec<bool>,
    ordering: MineOrdering,
    base_fee: Option<U256>,
}

impl TransactionCursor {
    pub closed spec fn transactions(&self) -> Seq<PendingTransaction> {
        self.transactions@
    }

    pub closed spec fn taken(&self) -> Seq<bool> {
        self.taken@
    }

    pub closed spec fn ordering(&self) -> MineOrdering {
        self.ordering
    }

    pub closed spec fn base_fee(&self) -> Option<nat> {
        option_value(self.base_fee)
    }

    pub open spec fn wf(&self) -> bool {
        self.taken().len() == self.transactions().len()
    }

    /// Transaction `i` is still to be offered.
    pub open spec fn is_open(&self, i: int) -> bool {
        0 <= i < self.transactions().len() && !self.taken()[i]
    }

    /// Transaction `i` heads its sender's queue.
    pub open spec fn is_head(&self, i: int) -> bool {
        &&& self.is_open(i)
        &&& forall|j: int|
            0 <= j < i && #[trigger] self.transactions()[j].caller == self.transactions()[i].caller
                ==> !self.is_open(j)
    }

    /// Nothing of `caller` is left to offer.
    pub open spec fn caller_evicted(&self, caller: Address) -> bool {
        forall|i: int| #[trigger] self.is_open(i) ==> self.transactions()[i].caller != caller
    }

    pub open spec fn remaining(&self) -> Set<int> {
        Set::new(|i: int| self.is_open(i))
    }

    /// Each sender's queue runs in insertion order.
    pub open spec fn queues_in_insertion_order(&self) -> bool {
        forall|i: int, j: int|
            0 <= i < j < self.transactions().len() && self.transactions()[i].caller
                == self.transactions()[j].caller ==> #[trigger] self.transactions()[i].order_id
                < #[trigger] self.transactions()[j].order_id
    }

    pub proof fn lemma_remaining_finite(&self)
        ensures
            self.remaining().finite(),
            self.remaining().len() <= self.transactions().len(),
    {
        let range = vstd::set_lib::set_int_range(0, self.transactions().len() as int);
        vstd::set_lib::lemma_int_range(0, self.transactions().len() as int);
        vstd::set_lib::lemma_len_subset(self.remaining(), range);
    }

    /// Every open transaction has an open head of its sender's queue at or
    /// before it, which in insertion-ordered queues has no later id.
    proof fn lemma_head_before(&self, j: int) -> (h: int)
        requires
            self.is_open(j),
        ensures
            0 <= h <= j,
            self.is_head(h),
            self.transactions()[h].caller == self.transactions()[j].caller,
            self.queues_in_insertion_order() ==> self.transactions()[h].order_id
                <= self.transactions()[j].order_id,
        decreases j,
    {
        if self.is_head(j) {
            j
        } else {
            let k = choose|k: int|
                0 <= k < j && #[trigger] self.transactions()[k].caller
                    == self.transactions()[j].caller && self.is_open(k);
            self.lemma_head_before(k)
        }
    }

    /// Offers `transactions`, each sender's in the order given, under
    /// `ordering` for the block's `base_fee`.
    pub fn new(
        transactions: Vec<PendingTransaction>,
        ordering: MineOrdering,
        base_fee: Option<U256>,
    ) -> (r: TransactionCursor)
        ensures
            r.wf(),
            r.transactions() == transactions@,
            r.ordering() == ordering,
            r.base_fee() == option_value(base_fee),
            forall|i: int| 0 <= i < transactions@.len() ==> r.is_open(i),
    {
        let n = transactions.len();
        let mut taken: Vec<bool> = Vec::new();
        let mut i: usize = 0;
        while i < n
            invariant
                i <= n,
                taken@.len() == i,
                forall|j: int| 0 <= j < i ==> !taken@[j],
            decreases n - i,
        {
            taken.push(false);
            i = i + 1;
        }
        TransactionCursor { transactions, taken, ordering, base_fee }
    }

    fn is_head_exec(&self, i: usize) -> (r: bool)
        requires
            self.wf(),
            self.is_open(i as int),
        ensures
            r == self.is_head(i as int),
    {
        let caller = self.transactions[i].caller;
        let mut j: usize = 0;
        while j < i
            invariant
                self.wf(),
                i < self.transactions().len(),
                caller == self.transactions()[i as int].caller,
                j <= i,
                forall|k: int|
                    0 <= k < j && #[trigger] self.transactions()[k].caller == caller
                        ==> !self.is_open(k),
            decreases i - j,
        {
            if !self.taken[j] && self.transactions[j].caller == caller {
                return false;
            }
            j = j + 1;
        }
        true
    }

    /// The next transaction: the best head among the senders' queues.
    pub fn next(&mut self) -> (r: Option<PendingTransaction>)
        requires
            old(self).wf(),
        ensures
            final(self).wf(),
            final(self).transactions() == old(self).transactions(),
            final(self).ordering() == old(self).ordering(),
            final(self).base_fee() == old(self).base_fee(),
            r is None <==> old(self).remaining().is_empty(),
            r is None ==> final(self).taken() == old(self).taken(),
            r is Some ==> exists|i: int|
                {
                    &&& old(self).is_head(i)
                    &&& old(self).transactions()[i] == r->Some_0
                    &&& final(self).taken() == old(self).taken().update(i, true)
                    &&& final(self).remaining() == old(self).remaining().remove(i)
                    &&& forall|j: int| #[trigger]
                        old(self).is_head(j) ==> offered_no_later(
                            old(self).ordering(),
                            old(self).transactions()[i],
                            old(self).transactions()[j],
                            old(self).base_fee(),
                        )
                },
            r is Some ==> final(self).remaining().len() < old(self).remaining().len(),
            forall|a: Address| #[trigger]
                old(self).caller_evicted(a) ==> final(self).caller_evicted(a) && (r is Some
                    ==> r->Some_0.caller != a),
            r is Some && old(self).ordering() == MineOrdering::Fifo
                && old(self).queues_in_insertion_order() ==> forall|j: int| #[trigger]
                old(self).is_open(j) ==> r->Some_0.order_id <= old(self).transactions()[j].order_id,
    {
        let n = self.transactions.len();
        let mut best: Option<usize> = None;
        let mut i: usize = 0;
        while i < n
            invariant
                self.wf(),
                *self == *old(self),
                n == self.transactions().len(),
                i <= n,
                match best {
                    Some(b) => {
                        &&& b < i
                        &&& self.is_head(b as int)
                        &&& forall|j: int|
                            0 <= j < i && #[trigger] self.is_head(j) ==> offered_no_later(
                                self.ordering(),
                                self.transactions()[b as int],
                                self.transactions()[j],
                                self.base_fee(),
                            )
                    },
                    None => forall|j: int| 0 <= j < i ==> !#[trigger] self.is_head(j),
                },
            decreases n - i,
        {
            if !self.taken[i] && self.is_head_exec(i) {
                match best {
                    None => {
                        best = Some(i);
                    },
                    Some(b) => {
                        let c = compare_transactions(
                            self.ordering,
                            &self.transactions[i],
                            &self.transactions[b],
                            &self.base_fee,
                        );
                        proof {
                            let ti = self.transactions()[i as int];
                            let tb = self.transactions()[b as int];
                            assert forall|j: int|
                                0 <= j <= i && #[trigger] self.is_head(j) implies offered_no_later(
                                self.ordering(),
                                if c == std::cmp::Ordering::Less {
                                    ti
                                } else {
                                    tb
                                },
                                self.transactions()[j],
                                self.base_fee(),
                            ) by {
                                lemma_transaction_order_total(
                                    self.ordering(),
                                    ti,
                                    tb,
                                    self.transactions()[j],
                                    self.base_fee(),
                                );
                                lemma_transaction_order_total(
                                    self.ordering(),
                                    tb,
                                    ti,
                                    self.transactions()[j],
                                    self.base_fee(),
                                );
                            }
                        }
                        if let std::cmp::Ordering::Less = c {
                            best = Some(i);
                        }
                    },
                }
            }
            i = i + 1;
        }
        match best {
            None => {
                proof {
                    if !self.remaining().is_empty() {
                        let j = self.remaining().choose();
                        assert(self.remaining().contains(j));
                        let h = self.lemma_head_before(j);
                    }
                    assert(*self == *old(self));
                }
                None
            },
            Some(b) => {
                let ghost pre = *self;
                proof {
                    pre.lemma_remaining_finite();
                    assert(pre.remaining().contains(b as int));
                }
                self.taken.set(b, true);
                proof {
                    assert(self.remaining() =~= pre.remaining().remove(b as int));
                    if pre.ordering() == MineOrdering::Fifo && pre.queues_in_insertion_order() {
                        assert forall|j: int| #[trigger]
                            pre.is_open(j) implies pre.transactions()[b as int].order_id
                            <= pre.transactions()[j].order_id by {
                            let h = pre.lemma_head_before(j);
                        }
                    }
                    assert(pre.is_head(b as int));
                    assert forall|a: Address| #[trigger] pre.caller_evicted(a) implies self.caller_evicted(
                        a,
                    ) && pre.transactions()[b as int].caller != a by {
                        assert(pre.is_open(b as int));
                        assert forall|k: int| #[trigger] self.is_open(k) implies self.transactions()[k].caller
                            != a by {
                            assert(pre.is_open(k));
                        }
                    }
                }
                Some(self.transactions[b])
            },
        }
    }

    /// Drops every transaction of `caller` that is still to be offered.
    pub fn remove_caller(&mut self, caller: &Address)
        requires
            old(self).wf(),
        ensures
            final(self).wf(),
            final(self).transactions() == old(self).transactions(),
            final(self).ordering() == old(self).ordering(),
            final(self).base_fee() == old(self).base_fee(),
            forall|i: int|
                0 <= i < old(self).transactions().len() ==> #[trigger] final(self).taken()[i] == (
                old(self).taken()[i] || old(self).transactions()[i].caller == *caller),
            final(self).caller_evicted(*caller),
            final(self).remaining().subset_of(old(self).remaining()),
            final(self).remaining().len() <= old(self).remaining().len(),
            forall|a: Address| #[trigger]
                old(self).caller_evicted(a) ==> final(self).caller_evicted(a),
    {
        let ghost pre = *self;
        let n = self.transactions.len();
        let mut i: usize = 0;
        while i < n
            invariant
                self.wf(),
                n == self.transactions().len(),
                self.transactions() == pre.transactions(),
                self.ordering() == pre.ordering(),
                self.base_fee() == pre.base_fee(),
                pre.wf(),
                i <= n,
                forall|k: int|
                    0 <= k < n ==> #[trigger] self.taken()[k] == if k < i {
                        pre.taken()[k] || pre.transactions()[k].caller == *caller
                    } else {
                        pre.taken()[k]
                    },
            decreases n - i,
        {
            if self.transactions[i].caller == *caller {
                self.taken.set(i, true);
            }
            i = i + 1;
        }
        proof {
            pre.lemma_remaining_finite();
            vstd::set_lib::lemma_len_subset(self.remaining(), pre.remaining());
            assert forall|a: Address| #[trigger] pre.caller_evicted(a) implies self.caller_evicted(
                a,
            ) by {
                assert forall|i: int| #[trigger] self.is_open(i) implies self.transactions()[i].caller
                    != a by {
                    assert(pre.is_open(i));
                }
            }
        }
    }
}

} // verus!
