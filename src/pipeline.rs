//! The commit pipeline: what becomes of each committed round. The work that
//! happens elsewhere (reading batches, running the virtual machine) is handed
//! in as values; the decisions and the writes are made here.
use crate::block::{
    as_stored_receipt, block_receipts, build_block, built_block, make_receipts, produces_block,
    should_produce_block,
};
use crate::bytes::be8;
use crate::codec::Codec;
use crate::felt::Felt;
use crate::store::{
    be8_bytes, decoded_entry, felt_key, height_index_key, height_key, stored_height, Index, Store,
    StoreEngine, StoreError, Tables,
};
use crate::types::{
    BlockModel, InvokeReceiptModel, InvokeTransactionReceipt, MaybePendingBlockModel,
    MaybePendingBlockWithTxs, MaybePendingReceiptModel, MaybePendingTransactionReceipt, Transaction,
    TransactionModel,
};
use vstd::prelude::*;

verus! {

/// The hash of the block stored at height `h`: zero for the first block, and
/// zero where nothing or a pending block is stored there; `None` where the
/// stored bytes do not decode.
pub open spec fn parent_hash_at(t: Tables, h: u64) -> Option<Felt> {
    if h == 0 {
        Some(Felt::spec_zero())
    } else {
        match decoded_entry::<MaybePendingBlockWithTxs>(t.blocks_by_height, height_index_key(h)) {
            Some(Some(MaybePendingBlockModel::Block(b))) => Some(b.block_hash),
            Some(_) => Some(Felt::spec_zero()),
            None => None,
        }
    }
}

/// The block that a store with tables `t` gets next for these transactions.
pub open spec fn next_block(t: Tables, transactions: Seq<TransactionModel>, timestamp: u64) -> Option<
    BlockModel,
> {
    match stored_height(t) {
        Some(h) => if h < u64::MAX {
            match parent_hash_at(t, h) {
                Some(p) => Some(built_block((h + 1) as u64, p, transactions, timestamp)),
                None => None,
            }
        } else {
            None
        },
        None => None,
    }
}

/// The tables after the receipts `rs` are written in order.
pub open spec fn put_receipts(t: Tables, rs: Seq<InvokeReceiptModel>) -> Tables
    decreases rs.len(),
{
    if rs.len() == 0 {
        t
    } else {
        let last = rs.last();
        put_receipts(t, rs.drop_last()).put(
            Index::TransactionReceipts,
            felt_key(last.transaction_hash),
            MaybePendingTransactionReceipt::enc(MaybePendingReceiptModel::Receipt(last)),
        )
    }
}

/// The tables after block `b` is stored: the block under its hash and its
/// height, the counter at its height, then its receipts.
pub open spec fn tables_after_block(t: Tables, b: BlockModel) -> Tables {
    let bytes = MaybePendingBlockWithTxs::enc(MaybePendingBlockModel::Block(b));
    put_receipts(
        t.put(Index::BlocksByHash, felt_key(b.block_hash), bytes).put(
            Index::BlocksByHeight,
            height_index_key(b.block_number),
            bytes,
        ).put(Index::Values, height_key(), be8(b.block_number)),
        block_receipts(b),
    )
}

/// The pipeline's state: the store, the round of the last block, and the
/// transactions of the round under way.
pub struct Sequencer<E: StoreEngine> {
    pub store: Store<E>,
    pub last_committed_round: u64,
    pub transactions: Vec<Transaction>,
}

impl<E: StoreEngine> Sequencer<E> {
    pub fn new(store: Store<E>) -> (r: Sequencer<E>)
        ensures
            r.store == store,
            r.last_committed_round == 0,
            r.transactions@.len() == 0,
    {
        Sequencer { store, last_committed_round: 0, transactions: Vec::new() }
    }

    /// Records a decoded transaction of the round under way. An invocation
    /// counts only where it executed: it is then stored and joins the round.
    /// Another kind is not executed; it joins the round and is not stored.
    pub fn record_transaction(&mut self, transaction: Transaction, executed: bool) -> (r: Result<
        (),
        StoreError,
    >)
        ensures
            final(self).last_committed_round == old(self).last_committed_round,
            final(self).store.engine.reliable() == old(self).store.engine.reliable(),
            final(self).store.engine.writable() == old(self).store.engine.writable(),
            match transaction.model() {
                TransactionModel::Invoke(m) => if executed {
                    &&& final(self).transactions.model() == old(self).transactions.model().push(
                        transaction.model(),
                    )
                    &&& r is Ok ==> final(self).store.tables() == old(self).store.tables().put(
                        Index::Transactions,
                        felt_key(m.transaction_hash),
                        Transaction::enc(transaction.model()),
                    )
                    &&& r is Err ==> final(self).store.tables() == old(self).store.tables()
                    &&& old(self).store.engine.writable() ==> r is Ok
                } else {
                    &&& final(self).transactions.model() == old(self).transactions.model()
                    &&& final(self).store.tables() == old(self).store.tables()
                    &&& r is Ok
                },
                _ => {
                    &&& final(self).transactions.model() == old(self).transactions.model().push(
                        transaction.model(),
                    )
                    &&& final(self).store.tables() == old(self).store.tables()
                    &&& r is Ok
                },
            },
    {
        let ghost before = self.transactions.model();
        match &transaction {
            Transaction::Invoke(_) => {
                if executed {
                    let r = self.store.put_transaction(&transaction);
                    self.transactions.push(transaction);
                    assert(self.transactions.model() =~= before.push(transaction.model()));
                    r
                } else {
                    Ok(())
                }
            },
            _ => {
                self.transactions.push(transaction);
                assert(self.transactions.model() =~= before.push(transaction.model()));
                Ok(())
            },
        }
    }

    /// The hash of the block at `height`, zero where there is none; an error
    /// where the engine cannot read.
    fn parent_hash_for(&self, height: u64) -> (r: Result<Felt, StoreError>)
        ensures
            r matches Ok(h) ==> parent_hash_at(self.store.tables(), height) == Some(h),
            self.store.engine.reliable() ==> (r is Ok <==> parent_hash_at(
                self.store.tables(),
                height,
            ) is Some),
    {
        if height == 0 {
            return Ok(Felt::zero());
        }
        let found = self.store.get_decoded::<MaybePendingBlockWithTxs>(
            Index::BlocksByHeight,
            be8_bytes(height),
        );
        match found {
            Ok(o) => match o {
                Some(block) => match block {
                    MaybePendingBlockWithTxs::Block(parent) => Ok(parent.block_hash),
                    MaybePendingBlockWithTxs::PendingBlock(_) => Ok(Felt::zero()),
                },
                None => Ok(Felt::zero()),
            },
            Err(e) => Err(e),
        }
    }

    /// Stores the receipts in order; gives the last error where a write
    /// failed.
    fn store_receipts(&mut self, receipts: Vec<InvokeTransactionReceipt>) -> (r: Option<StoreError>)
        ensures
            r is None ==> final(self).store.tables() == put_receipts(
                old(self).store.tables(),
                receipts.model(),
            ),
            old(self).store.engine.writable() ==> r is None,
            final(self).store.engine.reliable() == old(self).store.engine.reliable(),
            final(self).store.engine.writable() == old(self).store.engine.writable(),
            final(self).last_committed_round == old(self).last_committed_round,
            final(self).transactions == old(self).transactions,
    {
        let ghost rs = receipts.model();
        let ghost t2 = self.store.tables();
        let mut first_error: Option<StoreError> = None;
        let mut rest = receipts;
        let ghost mut done: int = 0;
        proof {
            assert(rs.take(0) =~= Seq::<InvokeReceiptModel>::empty());
            assert(rs.skip(0) =~= rs);
        }
        while rest.len() > 0
            invariant
                0 <= done <= rs.len(),
                rest.model() == rs.skip(done),
                t2 == old(self).store.tables(),
                first_error is None ==> self.store.tables() == put_receipts(t2, rs.take(done)),
                old(self).store.engine.writable() ==> first_error is None,
                self.store.engine.reliable() == old(self).store.engine.reliable(),
                self.store.engine.writable() == old(self).store.engine.writable(),
                self.last_committed_round == old(self).last_committed_round,
                self.transactions == old(self).transactions,
            decreases rest.len(),
        {
            let ghost before = rest@;
            let ghost bm = rest.model();
            let next = rest.remove(0);
            let ghost m = rs[done];
            proof {
                assert(bm.len() == before.len());
                assert(bm[0] == before[0].model());
                assert(rs.skip(done)[0] == m);
                assert forall|j: int| 0 <= j < rest.model().len() implies #[trigger] rest.model()[j]
                    == rs.skip(done + 1)[j] by {
                    assert(rest@[j] == before[j + 1]);
                    assert(bm[j + 1] == before[j + 1].model());
                }
                assert(rest.model() =~= rs.skip(done + 1));
                assert(rs.take(done + 1).drop_last() =~= rs.take(done));
                assert(rs.take(done + 1).last() == m);
            }
            let receipt = as_stored_receipt(next);
            if let Err(e) = self.store.add_transaction_receipt(receipt) {
                first_error = Some(e);
            }
            proof {
                done = done + 1;
            }
        }
        proof {
            assert(rs.take(done) =~= rs);
        }
        first_error
    }

    /// Builds the next block from `transactions` and stores it with the new
    /// height and its receipts; gives its height and hash. Every write is
    /// tried; the result is the first error where one failed.
    pub fn create_and_store_new_block(&mut self, transactions: Vec<Transaction>, timestamp: u64) -> (r:
        Result<(u64, Felt), StoreError>)
        ensures
            r matches Ok((n, h)) ==> next_block(
                old(self).store.tables(),
                transactions.model(),
                timestamp,
            ) matches Some(b) && n == b.block_number && h == b.block_hash && final(self).store.tables()
                == tables_after_block(old(self).store.tables(), b),
            old(self).store.engine.reliable() && old(self).store.engine.writable() ==> (r is Ok
                <==> next_block(old(self).store.tables(), transactions.model(), timestamp) is Some),
            final(self).store.engine.reliable() == old(self).store.engine.reliable(),
            final(self).store.engine.writable() == old(self).store.engine.writable(),
            final(self).last_committed_round == old(self).last_committed_round,
            final(self).transactions == old(self).transactions,
    {
        let ghost t0 = self.store.tables();
        let height = match self.store.get_height() {
            Some(h) => h,
            None => {
                return Err(StoreError::Corrupt);
            },
        };
        if height == u64::MAX {
            return Err(StoreError::Corrupt);
        }
        let parent_hash = match self.parent_hash_for(height) {
            Ok(h) => h,
            Err(e) => {
                return Err(e);
            },
        };
        assert(parent_hash_at(t0, height) == Some(parent_hash));
        let block_number = height + 1;
        let block = build_block(block_number, parent_hash, transactions, timestamp);
        let ghost b = block.model();
        let block_hash = block.block_hash;
        let receipts = make_receipts(&block);
        let mut first_error: Option<StoreError> = None;
        let ghost t1 = t0.put(
            Index::BlocksByHash,
            felt_key(b.block_hash),
            MaybePendingBlockWithTxs::enc(MaybePendingBlockModel::Block(b)),
        ).put(
            Index::BlocksByHeight,
            height_index_key(b.block_number),
            MaybePendingBlockWithTxs::enc(MaybePendingBlockModel::Block(b)),
        );
        let stored = MaybePendingBlockWithTxs::Block(block);
        assert(stored.model() == MaybePendingBlockModel::Block(b));
        if let Err(e) = self.store.add_block(stored) {
            first_error = Some(e);
        }
        if let Err(e) = self.store.set_height(block_number) {
            first_error = Some(e);
        }
        let ghost t2 = t1.put(Index::Values, height_key(), be8(block_number));
        assert(first_error is None ==> self.store.tables() == t2);
        if let Some(e) = self.store_receipts(receipts) {
            first_error = Some(e);
        }
        match first_error {
            Some(e) => Err(e),
            None => Ok((block_number, block_hash)),
        }
    }

    /// Closes the round `round`: where the round yields a block, it is built
    /// from the round's transactions and stored, and the round is recorded as
    /// the last one with a block. The round's transactions are cleared.
    pub fn finish_round(&mut self, round: u64, timestamp: u64) -> (r: Option<
        Result<(u64, Felt), StoreError>,
    >)
        ensures
            final(self).transactions@.len() == 0,
            produces_block(
                old(self).transactions@.len(),
                round,
                old(self).last_committed_round,
            ) ==> {
                &&& final(self).last_committed_round == round
                &&& r matches Some(res) && (res matches Ok((n, h)) ==> next_block(
                    old(self).store.tables(),
                    old(self).transactions.model(),
                    timestamp,
                ) matches Some(b) && n == b.block_number && h == b.block_hash
                    && final(self).store.tables() == tables_after_block(
                    old(self).store.tables(),
                    b,
                )) && (old(self).store.engine.reliable() && old(self).store.engine.writable() ==> (
                res is Ok <==> next_block(
                    old(self).store.tables(),
                    old(self).transactions.model(),
                    timestamp,
                ) is Some))
            },
            !produces_block(old(self).transactions@.len(), round, old(self).last_committed_round)
                ==> r is None && final(self).last_committed_round == old(
                self,
            ).last_committed_round && final(self).store.tables() == old(self).store.tables(),
            final(self).store.engine.reliable() == old(self).store.engine.reliable(),
            final(self).store.engine.writable() == old(self).store.engine.writable(),
    {
        let mut transactions: Vec<Transaction> = Vec::new();
        std::mem::swap(&mut transactions, &mut self.transactions);
        if should_produce_block(transactions.len(), round, self.last_committed_round) {
            self.last_committed_round = round;
            Some(self.create_and_store_new_block(transactions, timestamp))
        } else {
            None
        }
    }
}

} // verus!
