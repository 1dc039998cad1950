use sequencer::block::{build_block, should_produce_block, make_receipts};
use sequencer::execution::{ContractRegistry, ExecutionError};
use sequencer::felt::Felt;
use sequencer::mempool::{decode_batch, frame_to_transaction, transactions_of_batch};
use sequencer::pipeline::Sequencer;
use sequencer::serializable_types::FeltHex;
use sequencer::store::{InMemoryStore, Store};
use sequencer::types::{
    BlockStatus, DeclareTransaction, InvokeTransaction, MaybePendingBlockWithTxs,
    MaybePendingTransactionReceipt, Transaction, TransactionReceipt, TransactionStatus,
};

fn selector(hex: &str) -> Felt {
    FeltHex::deserialize_as(hex).unwrap()
}

fn invoke(hash: u64, calldata: Vec<Felt>) -> Transaction {
    Transaction::new_invoke(Felt::new(hash), Felt::new(1000), vec![], Felt::new(0), Felt::new(1), calldata)
}

fn fib_tx() -> Transaction {
    invoke(
        1,
        vec![
            Felt::new(0),
            selector("0x112e35f48499939272000bd72eb840e502ca4c3aefa8800992e8defb746e0c9"),
            Felt::new(10),
        ],
    )
}

fn fact_tx() -> Transaction {
    invoke(
        2,
        vec![
            Felt::new(1),
            selector("0x213cda0181d4bd6d07f2e467ddf45a1d971e14ca1bcd4c83949a6d830a15b7f"),
            Felt::new(10),
        ],
    )
}

fn block_of(seq: &Sequencer<InMemoryStore>, height: u64) -> sequencer::types::BlockWithTxs {
    match seq.store.get_block_by_height(height).unwrap().unwrap() {
        MaybePendingBlockWithTxs::Block(b) => b,
        _ => panic!("expected a block"),
    }
}

fn frame(flag: u8, counter: u64, tx: &Transaction) -> Vec<u8> {
    let mut f = vec![flag];
    f.extend_from_slice(&counter.to_be_bytes());
    f.extend(tx.as_bytes());
    f
}

fn batch_message(frames: &[Vec<u8>]) -> Vec<u8> {
    let mut m = 0u32.to_le_bytes().to_vec();
    m.extend_from_slice(&(frames.len() as u64).to_le_bytes());
    for f in frames {
        m.extend_from_slice(&(f.len() as u64).to_le_bytes());
        m.extend_from_slice(f);
    }
    m
}

#[test]
fn empty_block_policy_threshold() {
    assert!(!should_produce_block(0, 1500, 0));
    assert!(should_produce_block(0, 1501, 0));
    assert!(should_produce_block(1, 1, 0));
    assert!(!should_produce_block(0, 2000, 600));
    assert!(should_produce_block(0, 2101, 600));
    assert!(!should_produce_block(0, 3, 10));
}

#[test]
fn height_becomes_one_after_first_block() {
    let mut seq = Sequencer::new(Store::new(InMemoryStore::new()));
    assert_eq!(seq.store.get_height(), Some(0));
    assert_eq!(seq.record_transaction(fib_tx(), true), Ok(()));
    let stored = seq.finish_round(1, 1_700_000_000).unwrap().unwrap();
    assert_eq!(stored.0, 1);
    assert_eq!(seq.store.get_height(), Some(1));
    let first = block_of(&seq, 1);
    assert_eq!(first.block_number, 1);
    assert_eq!(first.parent_hash, Felt::new(0));
    assert_eq!(first.block_hash, stored.1);
    assert_eq!(first.status, BlockStatus::AcceptedOnL2);
    assert_eq!(first.new_root, Felt::new(938938281));
    assert_eq!(first.sequencer_address, Felt::new(12039102));
    assert_eq!(first.transactions, vec![fib_tx()]);
    assert_eq!(seq.store.get_transaction(Felt::new(1)), Ok(Some(fib_tx())));
}

#[test]
fn chain_extension_links_parents() {
    let mut seq = Sequencer::new(Store::new(InMemoryStore::new()));
    seq.record_transaction(fib_tx(), true).unwrap();
    seq.finish_round(1, 100).unwrap().unwrap();
    seq.record_transaction(fact_tx(), true).unwrap();
    seq.finish_round(2, 200).unwrap().unwrap();
    let first = block_of(&seq, 1);
    let second = block_of(&seq, 2);
    assert_eq!(second.parent_hash, first.block_hash);
    assert_eq!(seq.store.get_height(), Some(2));
    let by_hash = seq.store.get_block_by_hash(second.block_hash).unwrap().unwrap();
    assert_eq!(by_hash, MaybePendingBlockWithTxs::Block(second.clone()));
    match seq.store.get_transaction_receipt(Felt::new(2)).unwrap().unwrap() {
        MaybePendingTransactionReceipt::Receipt(TransactionReceipt::Invoke(r)) => {
            assert_eq!(r.block_hash, second.block_hash);
            assert_eq!(r.block_number, 2);
            assert_eq!(r.actual_fee, Felt::new(1000));
            assert_eq!(r.status, TransactionStatus::AcceptedOnL2);
        }
        _ => panic!("expected an invoke receipt"),
    }
}

#[test]
fn idle_rounds_produce_an_empty_block() {
    let mut seq = Sequencer::new(Store::new(InMemoryStore::new()));
    assert_eq!(seq.finish_round(1500, 10), None);
    assert_eq!(seq.store.get_height(), Some(0));
    let stored = seq.finish_round(1501, 20).unwrap().unwrap();
    assert_eq!(stored.0, 1);
    assert_eq!(seq.last_committed_round, 1501);
    let block = block_of(&seq, 1);
    assert!(block.transactions.is_empty());
    assert_eq!(block.parent_hash, Felt::new(0));
    assert_eq!(seq.store.get_block_by_hash(block.block_hash).unwrap().unwrap(), MaybePendingBlockWithTxs::Block(block));
    assert_eq!(seq.finish_round(1502, 30), None);
}

#[test]
fn failed_execution_is_neither_stored_nor_receipted() {
    let registry = ContractRegistry::new_for_tests();
    let unknown = invoke(
        3,
        vec![
            Felt::new(9999),
            selector("0x213cda0181d4bd6d07f2e467ddf45a1d971e14ca1bcd4c83949a6d830a15b7f"),
            Felt::new(2000),
        ],
    );
    let request = registry.request_for(&unknown);
    assert!(matches!(request, Err(ExecutionError::ContractNotDeployed)));
    let mut seq = Sequencer::new(Store::new(InMemoryStore::new()));
    assert_eq!(seq.record_transaction(unknown, request.is_ok()), Ok(()));
    assert!(seq.transactions.is_empty());
    assert_eq!(seq.store.get_transaction(Felt::new(3)), Ok(None));
    seq.record_transaction(fib_tx(), true).unwrap();
    seq.finish_round(1, 5).unwrap().unwrap();
    assert_eq!(seq.store.get_transaction_receipt(Felt::new(3)), Ok(None));
    assert!(seq.store.get_transaction_receipt(Felt::new(1)).unwrap().is_some());
}

#[test]
fn unsupported_transactions_join_the_block_without_receipt() {
    let declare = Transaction::Declare(DeclareTransaction {
        transaction_hash: Felt::new(50),
        class_hash: Felt::new(51),
        sender_address: Felt::new(52),
        max_fee: Felt::new(53),
        signature: vec![],
        nonce: Felt::new(0),
    });
    let mut seq = Sequencer::new(Store::new(InMemoryStore::new()));
    seq.record_transaction(declare.clone(), false).unwrap();
    seq.finish_round(1, 5).unwrap().unwrap();
    assert_eq!(block_of(&seq, 1).transactions, vec![declare]);
    assert_eq!(seq.store.get_transaction_receipt(Felt::new(50)), Ok(None));
    assert_eq!(seq.store.get_transaction(Felt::new(50)), Ok(None));
}

#[test]
fn receipts_cover_the_invocations_of_a_block() {
    let declare = Transaction::Declare(DeclareTransaction {
        transaction_hash: Felt::new(50),
        class_hash: Felt::new(51),
        sender_address: Felt::new(52),
        max_fee: Felt::new(53),
        signature: vec![],
        nonce: Felt::new(0),
    });
    let block = build_block(4, Felt::new(77), vec![fib_tx(), declare, fact_tx()], 9);
    let receipts = make_receipts(&block);
    assert_eq!(receipts.len(), 2);
    assert_eq!(receipts[0].transaction_hash, Felt::new(1));
    assert_eq!(receipts[1].transaction_hash, Felt::new(2));
    assert!(receipts.iter().all(|r| r.block_hash == block.block_hash && r.block_number == 4));
}

#[test]
fn block_hash_depends_on_the_header() {
    let a = build_block(1, Felt::new(0), vec![fib_tx()], 1);
    let b = build_block(1, Felt::new(0), vec![fib_tx()], 2);
    let c = build_block(2, Felt::new(0), vec![fib_tx()], 1);
    let d = build_block(1, Felt::new(0), vec![fact_tx()], 1);
    assert_eq!(a.block_hash, b.block_hash);
    assert_ne!(a.block_hash, c.block_hash);
    assert_ne!(a.block_hash, d.block_hash);
    assert_eq!(a.block_hash.to_u64().is_some(), true);
}

#[test]
fn batch_frames_are_decoded_in_order() {
    let message = batch_message(&[frame(0, 1, &fib_tx()), vec![1, 2], frame(1, 77, &fact_tx())]);
    assert_eq!(decode_batch(&message, true), vec![fib_tx(), fact_tx()]);
    assert_eq!(decode_batch(&message, false), vec![]);
}

#[test]
fn frames_without_header_decode_whole() {
    let message = batch_message(&[fib_tx().as_bytes()]);
    assert_eq!(decode_batch(&message, false), vec![fib_tx()]);
    assert_eq!(frame_to_transaction(&fib_tx().as_bytes(), false), Some(fib_tx()));
    assert_eq!(frame_to_transaction(&vec![0u8; 5], true), None);
}

#[test]
fn batch_requests_hold_no_transactions() {
    let mut request = 1u32.to_le_bytes().to_vec();
    request.extend_from_slice(&0u64.to_le_bytes());
    assert_eq!(decode_batch(&request, true), vec![]);
    assert_eq!(decode_batch(&vec![9, 9], true), vec![]);
}

#[test]
fn batch_list_is_filtered() {
    let frames = vec![frame(0, 0, &fib_tx()), vec![], frame(1, 1, &fib_tx())];
    assert_eq!(transactions_of_batch(&frames, true), vec![fib_tx(), fib_tx()]);
    assert!(matches!(transactions_of_batch(&frames, true)[0], Transaction::Invoke(InvokeTransaction::V1(_))));
}
