//! Laws of the library: what holds across its functions.
use crate::block::{block_receipts, receipt_model, receipts_of};
use crate::bytes::{be8, lemma_be8_round_trip};
use crate::codec::{all_wf, decode_all, lemma_decode_encoded, Codec};
use crate::felt::Felt;
use crate::pipeline::{next_block, parent_hash_at, put_receipts, tables_after_block};
use crate::store::{
    decoded_entry, entry, felt_key, height_index_key, height_key, stored_height, Index, Tables,
};
use crate::types::{
    BlockModel, BlockWithTxs, InvokeReceiptModel, InvokeTransactionReceipt, InvokeTransactionV1,
    InvokeV1Model, MaybePendingBlockModel, MaybePendingBlockWithTxs, MaybePendingReceiptModel,
    MaybePendingTransactionReceipt, Transaction, TransactionModel,
};
use vstd::prelude::*;

verus! {

/// Decoding the bytes of a transaction gives the transaction back.
pub proof fn lemma_transaction_round_trip(t: TransactionModel)
    requires
        Transaction::wf(t),
    ensures
        decode_all::<Transaction>(Transaction::enc(t)) == Some(t),
{
    lemma_decode_encoded::<Transaction>(t);
}

/// Decoding the bytes of a block gives the block back.
pub proof fn lemma_block_round_trip(b: BlockModel)
    requires
        BlockWithTxs::wf(b),
    ensures
        decode_all::<MaybePendingBlockWithTxs>(
            MaybePendingBlockWithTxs::enc(MaybePendingBlockModel::Block(b)),
        ) == Some(MaybePendingBlockModel::Block(b)),
{
    lemma_decode_encoded::<MaybePendingBlockWithTxs>(MaybePendingBlockModel::Block(b));
}

/// On every engine, once a transaction is stored (the write that
/// `Store::add_transaction` makes when it succeeds), reading its hash gives it
/// back.
pub proof fn lemma_stored_transaction_is_read_back(t: Tables, m: InvokeV1Model)
    requires
        InvokeTransactionV1::wf(m),
    ensures
        decoded_entry::<Transaction>(
            t.put(
                Index::Transactions,
                felt_key(m.transaction_hash),
                Transaction::enc(TransactionModel::Invoke(m)),
            ).transactions,
            felt_key(m.transaction_hash),
        ) == Some(Some(TransactionModel::Invoke(m))),
{
    lemma_decode_encoded::<Transaction>(TransactionModel::Invoke(m));
}

/// Writing receipts touches only the receipts.
pub proof fn lemma_put_receipts_frame(t: Tables, rs: Seq<InvokeReceiptModel>)
    ensures
        put_receipts(t, rs).transactions == t.transactions,
        put_receipts(t, rs).blocks_by_hash == t.blocks_by_hash,
        put_receipts(t, rs).blocks_by_height == t.blocks_by_height,
        put_receipts(t, rs).values == t.values,
    decreases rs.len(),
{
    if rs.len() > 0 {
        lemma_put_receipts_frame(t, rs.drop_last());
    }
}

/// After a block is stored, the height counter holds its height.
pub proof fn lemma_height_after_block(t: Tables, b: BlockModel)
    ensures
        stored_height(tables_after_block(t, b)) == Some(b.block_number),
{
    let bytes = MaybePendingBlockWithTxs::enc(MaybePendingBlockModel::Block(b));
    let t3 = t.put(Index::BlocksByHash, felt_key(b.block_hash), bytes).put(
        Index::BlocksByHeight,
        be8(b.block_number),
        bytes,
    ).put(Index::Values, height_key(), be8(b.block_number));
    lemma_put_receipts_frame(t3, crate::block::block_receipts(b));
    lemma_be8_round_trip(b.block_number);
}

/// The receipt that stored bytes hold, if they decode to one.
#[verifier::opaque]
pub open spec fn receipt_of_bytes(e: Option<Seq<u8>>) -> Option<InvokeReceiptModel> {
    match e {
        Some(bytes) => match decode_all::<MaybePendingTransactionReceipt>(bytes) {
            Some(MaybePendingReceiptModel::Receipt(r)) => Some(r),
            _ => None,
        },
        None => None,
    }
}

/// The receipt stored under a transaction hash, if one decodes there.
pub open spec fn receipt_at(t: Tables, hash: Felt) -> Option<InvokeReceiptModel> {
    receipt_of_bytes(entry(t.receipts, felt_key(hash)))
}

proof fn lemma_receipt_of_encoded(r: InvokeReceiptModel)
    requires
        InvokeTransactionReceipt::wf(r),
    ensures
        receipt_of_bytes(
            Some(MaybePendingTransactionReceipt::enc(MaybePendingReceiptModel::Receipt(r))),
        ) == Some(r),
{
    reveal(receipt_of_bytes);
    lemma_decode_encoded::<MaybePendingTransactionReceipt>(MaybePendingReceiptModel::Receipt(r));
}

/// The invocation at position `i` of block `b` has a receipt in `t` that
/// names the block.
pub open spec fn receipted(t: Tables, b: BlockModel, i: int) -> bool {
    match b.transactions[i] {
        TransactionModel::Invoke(m) => (receipt_at(t, m.transaction_hash) matches Some(r)
            && r.block_hash == b.block_hash && r.block_number == b.block_number),
        _ => true,
    }
}

/// Where no receipt is written under `k`, what is there stays; where some are,
/// one of them is there.
pub proof fn lemma_put_receipts_entry(t: Tables, rs: Seq<InvokeReceiptModel>, k: Seq<u8>)
    ensures
        (forall|j: int| 0 <= j < rs.len() ==> felt_key(#[trigger] rs[j].transaction_hash) != k)
            ==> entry(put_receipts(t, rs).receipts, k) == entry(t.receipts, k),
        (exists|j: int| 0 <= j < rs.len() && felt_key(#[trigger] rs[j].transaction_hash) == k)
            ==> exists|j: int|
            0 <= j < rs.len() && felt_key(#[trigger] rs[j].transaction_hash) == k && entry(
                put_receipts(t, rs).receipts,
                k,
            ) == Some(MaybePendingTransactionReceipt::enc(MaybePendingReceiptModel::Receipt(rs[j]))),
    decreases rs.len(),
{
    if rs.len() > 0 {
        let init = rs.drop_last();
        lemma_put_receipts_entry(t, init, k);
        let last = rs.last();
        if felt_key(last.transaction_hash) == k {
            assert(rs[rs.len() - 1] == last);
        } else {
            assert forall|j: int| 0 <= j < init.len() implies init[j] == rs[j] by {}
            if exists|j: int| 0 <= j < rs.len() && felt_key(#[trigger] rs[j].transaction_hash) == k {
                let j0 = choose|j: int| 0 <= j < rs.len() && felt_key(#[trigger] rs[j].transaction_hash) == k;
                assert(j0 < init.len());
                assert(init[j0] == rs[j0]);
                let j1 = choose|j: int|
                    0 <= j < init.len() && felt_key(#[trigger] init[j].transaction_hash) == k && entry(
                        put_receipts(t, init).receipts,
                        k,
                    ) == Some(MaybePendingTransactionReceipt::enc(MaybePendingReceiptModel::Receipt(init[j])));
                assert(rs[j1] == init[j1]);
            }
        }
    }
}

/// The receipts of a block name it, decode, and cover its invocations.
pub proof fn lemma_receipts_of(txs: Seq<TransactionModel>, bh: Felt, bn: u64)
    requires
        all_wf::<Transaction>(txs),
        bh.valid(),
    ensures
        forall|j: int| 0 <= j < receipts_of(txs, bh, bn).len() ==> {
            let r = #[trigger] receipts_of(txs, bh, bn)[j];
            &&& r.block_hash == bh
            &&& r.block_number == bn
            &&& InvokeTransactionReceipt::wf(r)
        },
        forall|i: int| 0 <= i < txs.len() ==> match #[trigger] txs[i] {
            TransactionModel::Invoke(m) => exists|j: int|
                0 <= j < receipts_of(txs, bh, bn).len() && (#[trigger] receipts_of(
                    txs,
                    bh,
                    bn,
                )[j]).transaction_hash == m.transaction_hash,
            _ => true,
        },
    decreases txs.len(),
{
    if txs.len() > 0 {
        let init = txs.drop_last();
        assert(all_wf::<Transaction>(init)) by {
            assert forall|i: int| 0 <= i < init.len() implies Transaction::wf(#[trigger] init[i]) by {
                assert(init[i] == txs[i]);
            }
        }
        lemma_receipts_of(init, bh, bn);
        let before = receipts_of(init, bh, bn);
        let all = receipts_of(txs, bh, bn);
        assert(Transaction::wf(txs[txs.len() - 1]));
        match txs.last() {
            TransactionModel::Invoke(m) => {
                let r = receipt_model(m.transaction_hash, m.max_fee, bh, bn);
                assert(all == before.push(r));
                assert(r.messages_sent =~= Seq::empty());
                assert(<Vec<crate::types::MsgToL1> as Codec>::wf(r.messages_sent));
                assert(<Vec<crate::types::Event> as Codec>::wf(r.events));
                assert(InvokeTransactionReceipt::wf(r));
                assert forall|i: int| 0 <= i < txs.len() implies match #[trigger] txs[i] {
                    TransactionModel::Invoke(m2) => exists|j: int|
                        0 <= j < all.len() && (#[trigger] all[j]).transaction_hash == m2.transaction_hash,
                    _ => true,
                } by {
                    if i < init.len() {
                        assert(init[i] == txs[i]);
                        if let TransactionModel::Invoke(m2) = txs[i] {
                            let j = choose|j: int|
                                0 <= j < before.len() && (#[trigger] before[j]).transaction_hash
                                    == m2.transaction_hash;
                            assert(all[j] == before[j]);
                        }
                    } else {
                        assert(all[before.len() as int] == r);
                    }
                }
                assert forall|j: int| 0 <= j < all.len() implies {
                    let x = #[trigger] all[j];
                    &&& x.block_hash == bh
                    &&& x.block_number == bn
                    &&& InvokeTransactionReceipt::wf(x)
                } by {
                    if j < before.len() {
                        assert(all[j] == before[j]);
                    }
                }
            },
            _ => {
                assert(all == before);
                assert forall|i: int| 0 <= i < txs.len() implies match #[trigger] txs[i] {
                    TransactionModel::Invoke(m2) => exists|j: int|
                        0 <= j < all.len() && (#[trigger] all[j]).transaction_hash == m2.transaction_hash,
                    _ => true,
                } by {
                    if i < init.len() {
                        assert(init[i] == txs[i]);
                    }
                }
            },
        }
    }
}

/// After a block is stored, it is found under its hash and under its height,
/// as the same bytes.
pub proof fn lemma_block_indexed_after_store(t: Tables, b: BlockModel)
    ensures
        entry(tables_after_block(t, b).blocks_by_hash, felt_key(b.block_hash)) == Some(
            MaybePendingBlockWithTxs::enc(MaybePendingBlockModel::Block(b)),
        ),
        entry(tables_after_block(t, b).blocks_by_height, height_index_key(b.block_number))
            == entry(tables_after_block(t, b).blocks_by_hash, felt_key(b.block_hash)),
{
    let bytes = MaybePendingBlockWithTxs::enc(MaybePendingBlockModel::Block(b));
    let t3 = t.put(Index::BlocksByHash, felt_key(b.block_hash), bytes).put(
        Index::BlocksByHeight,
        be8(b.block_number),
        bytes,
    ).put(Index::Values, height_key(), be8(b.block_number));
    lemma_put_receipts_frame(t3, crate::block::block_receipts(b));
}

/// The next block sits one above the counter and names as parent the block
/// at the counter's height (zero on an empty chain).
pub proof fn lemma_next_block_links(t: Tables, transactions: Seq<TransactionModel>, timestamp: u64)
    ensures
        next_block(t, transactions, timestamp) matches Some(b) ==> {
            &&& stored_height(t) matches Some(h) && b.block_number == h + 1
            &&& b.parent_hash == parent_hash_at(t, (b.block_number - 1) as u64).unwrap()
            &&& b.block_number == 1 ==> b.parent_hash == Felt::spec_zero()
            &&& b.transactions == transactions
        },
{
}

/// After a block is stored, each of its invocations has a receipt that
/// names the block.
pub proof fn lemma_receipts_after_store(t: Tables, b: BlockModel)
    requires
        BlockWithTxs::wf(b),
    ensures
        forall|i: int| 0 <= i < b.transactions.len() ==> #[trigger] receipted(
            tables_after_block(t, b),
            b,
            i,
        ),
{
    let bytes = MaybePendingBlockWithTxs::enc(MaybePendingBlockModel::Block(b));
    let t3 = t.put(Index::BlocksByHash, felt_key(b.block_hash), bytes).put(
        Index::BlocksByHeight,
        be8(b.block_number),
        bytes,
    ).put(Index::Values, height_key(), be8(b.block_number));
    let rs = block_receipts(b);
    let t4 = tables_after_block(t, b);
    assert(t4 == put_receipts(t3, rs));
    assert(all_wf::<Transaction>(b.transactions));
    lemma_receipts_of(b.transactions, b.block_hash, b.block_number);
    assert forall|i: int| 0 <= i < b.transactions.len() implies #[trigger] receipted(t4, b, i) by {
        if let TransactionModel::Invoke(m) = b.transactions[i] {
            let k = felt_key(m.transaction_hash);
            lemma_put_receipts_entry(t3, rs, k);
            let j = choose|j: int|
                0 <= j < rs.len() && (#[trigger] rs[j]).transaction_hash == m.transaction_hash;
            assert(felt_key(rs[j].transaction_hash) == k);
            let j1 = choose|j1: int|
                0 <= j1 < rs.len() && felt_key(#[trigger] rs[j1].transaction_hash) == k && entry(
                    put_receipts(t3, rs).receipts,
                    k,
                ) == Some(MaybePendingTransactionReceipt::enc(MaybePendingReceiptModel::Receipt(rs[j1])));
            lemma_receipt_of_encoded(rs[j1]);
        }
    }
}

} // verus!
