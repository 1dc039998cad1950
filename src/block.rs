//! Block assembly: the header digest, the new block and its receipts, and the
//! rule that decides whether a round yields a block.
use crate::codec::Codec;
use crate::felt::Felt;
use crate::types::{
    BlockModel, BlockStatus, BlockWithTxs, InvokeReceiptModel, InvokeTransaction,
    InvokeTransactionReceipt, MaybePendingTransactionReceipt, Transaction, TransactionModel,
    TransactionReceipt, TransactionStatus,
};
use vstd::prelude::*;

verus! {

/// The state root recorded in every block.
pub const NEW_ROOT: u64 = 938938281;

/// The sequencer address recorded in every block.
pub const SEQUENCER_ADDRESS: u64 = 12039102;

/// A round without transactions yields a block only when more rounds than
/// this have passed since the last block.
pub const ROUND_TIMEOUT_FOR_EMPTY_BLOCKS: u64 = 1500;

/// Whether a committed round yields a block: it carried transactions, or the
/// rounds since the last block exceed the timeout.
pub open spec fn produces_block(tx_count: nat, round: u64, last_round: u64) -> bool {
    tx_count > 0 || round - last_round > ROUND_TIMEOUT_FOR_EMPTY_BLOCKS
}

/// Decides whether a committed round yields a block.
pub fn should_produce_block(tx_count: usize, round: u64, last_round: u64) -> (r: bool)
    ensures
        r == produces_block(tx_count as nat, round, last_round),
{
    tx_count > 0 || (round > last_round && round - last_round > ROUND_TIMEOUT_FOR_EMPTY_BLOCKS)
}

/// The digest that std's default hasher gives for a byte string.
pub uninterp spec fn default_hash_of(bytes: Seq<u8>) -> u64;

/// Relies on `std::collections::hash_map::DefaultHasher`: every hasher that
/// `DefaultHasher::new` makes starts in the same state, so `finish` after
/// `write` depends on the bytes alone.
#[verifier::external_body]
fn default_hash(bytes: &Vec<u8>) -> (r: u64)
    ensures
        r == default_hash_of(bytes@),
{
    let mut hasher = std::collections::hash_map::DefaultHasher::new();
    std::hash::Hasher::write(&mut hasher, bytes.as_slice());
    std::hash::Hasher::finish(&hasher)
}

/// The bytes that a block's hash digests: its status, parent, height, state
/// root, sequencer address and transactions.
pub open spec fn header_preimage(parent_hash: Felt, block_number: u64, transactions: Seq<
    TransactionModel,
>) -> Seq<u8> {
    BlockStatus::enc(BlockStatus::AcceptedOnL2) + parent_hash.be_bytes() + u64::enc(block_number)
        + Felt::spec_from_u64(NEW_ROOT).be_bytes() + Felt::spec_from_u64(SEQUENCER_ADDRESS).be_bytes()
        + Vec::<Transaction>::enc(transactions)
}

/// The hash of a block with this parent, height and transactions.
pub open spec fn block_hash_of(parent_hash: Felt, block_number: u64, transactions: Seq<
    TransactionModel,
>) -> Felt {
    Felt::spec_from_u64(default_hash_of(header_preimage(parent_hash, block_number, transactions)))
}

/// The block that the builder makes.
pub open spec fn built_block(
    block_number: u64,
    parent_hash: Felt,
    transactions: Seq<TransactionModel>,
    timestamp: u64,
) -> BlockModel {
    BlockModel {
        status: BlockStatus::AcceptedOnL2,
        block_hash: block_hash_of(parent_hash, block_number, transactions),
        parent_hash,
        block_number,
        new_root: Felt::spec_from_u64(NEW_ROOT),
        timestamp,
        sequencer_address: Felt::spec_from_u64(SEQUENCER_ADDRESS),
        transactions,
    }
}

/// Computes the hash of a block with this parent, height and transactions.
pub fn compute_block_hash(parent_hash: Felt, block_number: u64, transactions: &Vec<Transaction>) -> (r:
    Felt)
    ensures
        r == block_hash_of(parent_hash, block_number, transactions.model()),
{
    let mut preimage: Vec<u8> = Vec::new();
    BlockStatus::AcceptedOnL2.write(&mut preimage);
    parent_hash.write(&mut preimage);
    block_number.write(&mut preimage);
    Felt::new(NEW_ROOT).write(&mut preimage);
    Felt::new(SEQUENCER_ADDRESS).write(&mut preimage);
    transactions.write(&mut preimage);
    assert(preimage@ =~= header_preimage(parent_hash, block_number, transactions.model()));
    Felt::new(default_hash(&preimage))
}

/// Assembles the block at `block_number` on top of the block whose hash is
/// `parent_hash`.
pub fn build_block(
    block_number: u64,
    parent_hash: Felt,
    transactions: Vec<Transaction>,
    timestamp: u64,
) -> (r: BlockWithTxs)
    ensures
        r.model() == built_block(block_number, parent_hash, transactions.model(), timestamp),
{
    let block_hash = compute_block_hash(parent_hash, block_number, &transactions);
    BlockWithTxs {
        status: BlockStatus::AcceptedOnL2,
        block_hash,
        parent_hash,
        block_number,
        new_root: Felt::new(NEW_ROOT),
        timestamp,
        sequencer_address: Felt::new(SEQUENCER_ADDRESS),
        transactions,
    }
}

/// The receipt of an invocation in a block.
pub open spec fn receipt_model(
    transaction_hash: Felt,
    max_fee: Felt,
    block_hash: Felt,
    block_number: u64,
) -> InvokeReceiptModel {
    InvokeReceiptModel {
        transaction_hash,
        actual_fee: max_fee,
        status: TransactionStatus::AcceptedOnL2,
        block_hash,
        block_number,
        messages_sent: Seq::empty(),
        events: Seq::empty(),
    }
}

/// One receipt for each invocation among `transactions`, in order.
pub open spec fn receipts_of(
    transactions: Seq<TransactionModel>,
    block_hash: Felt,
    block_number: u64,
) -> Seq<InvokeReceiptModel>
    decreases transactions.len(),
{
    if transactions.len() == 0 {
        Seq::empty()
    } else {
        let before = receipts_of(transactions.drop_last(), block_hash, block_number);
        match transactions.last() {
            TransactionModel::Invoke(t) => before.push(
                receipt_model(t.transaction_hash, t.max_fee, block_hash, block_number),
            ),
            _ => before,
        }
    }
}

/// The receipts of a block.
pub open spec fn block_receipts(b: BlockModel) -> Seq<InvokeReceiptModel> {
    receipts_of(b.transactions, b.block_hash, b.block_number)
}

/// Makes one receipt for each invocation in the block, in order.
pub fn make_receipts(block: &BlockWithTxs) -> (r: Vec<InvokeTransactionReceipt>)
    ensures
        r.model() == block_receipts(block.model()),
{
    let mut receipts: Vec<InvokeTransactionReceipt> = Vec::new();
    let mut i: usize = 0;
    while i < block.transactions.len()
        invariant
            i <= block.transactions.len(),
            receipts.model() == receipts_of(
                block.transactions.model().take(i as int),
                block.block_hash,
                block.block_number,
            ),
        decreases block.transactions.len() - i,
    {
        let ghost before = receipts.model();
        proof {
            let txs = block.transactions.model();
            assert(txs.take(i + 1).drop_last() =~= txs.take(i as int));
            assert(txs.take(i + 1).last() == txs[i as int]);
            assert(txs[i as int] == block.transactions@[i as int].model());
        }
        match &block.transactions[i] {
            Transaction::Invoke(InvokeTransaction::V1(t)) => {
                receipts.push(
                    InvokeTransactionReceipt {
                        transaction_hash: t.transaction_hash,
                        actual_fee: t.max_fee,
                        status: TransactionStatus::AcceptedOnL2,
                        block_hash: block.block_hash,
                        block_number: block.block_number,
                        messages_sent: Vec::new(),
                        events: Vec::new(),
                    },
                );
                proof {
                    let last = receipts@[receipts@.len() - 1];
                    assert(last.messages_sent.model() =~= Seq::empty());
                    assert(last.events.model() =~= Seq::empty());
                    assert(receipts.model() =~= before.push(
                        receipt_model(t.transaction_hash, t.max_fee, block.block_hash, block.block_number),
                    ));
                }
            },
            _ => {},
        }
        i = i + 1;
    }
    proof {
        assert(block.transactions.model().take(block.transactions.len() as int)
            =~= block.transactions.model());
    }
    receipts
}

/// Wraps a receipt for the store.
pub fn as_stored_receipt(receipt: InvokeTransactionReceipt) -> (r: MaybePendingTransactionReceipt)
    ensures
        r.model() == crate::types::MaybePendingReceiptModel::Receipt(receipt.model()),
{
    MaybePendingTransactionReceipt::Receipt(TransactionReceipt::Invoke(receipt))
}

} // verus!
