use sequencer::felt::Felt;
use sequencer::store::{InMemoryStore, Index, Store, StoreEngine, StoreError};
use sequencer::types::{
    BlockStatus, BlockWithTxs, InvokeTransaction, InvokeTransactionReceipt, InvokeTransactionV1,
    MaybePendingBlockWithTxs, MaybePendingTransactionReceipt, PendingBlockWithTxs,
    TransactionReceipt, TransactionStatus, Transaction, DeclareTransaction,
};

fn new_transaction(
    tx_hash: Felt,
    tx_fee: Felt,
    tx_signature: Vec<Felt>,
    tx_nonce: Felt,
    tx_sender_address: Felt,
    tx_calldata: Vec<Felt>,
) -> Transaction {
    let invoke_tx_v1 = InvokeTransactionV1 {
        transaction_hash: tx_hash,
        max_fee: tx_fee,
        signature: tx_signature,
        nonce: tx_nonce,
        sender_address: tx_sender_address,
        calldata: tx_calldata,
    };
    Transaction::Invoke(InvokeTransaction::V1(invoke_tx_v1))
}

fn get_tx_data(tx: Transaction) -> (Felt, Felt, Vec<Felt>, Felt, Felt, Vec<Felt>) {
    match tx {
        Transaction::Invoke(InvokeTransaction::V1(invoke_tx_v1)) => (
            invoke_tx_v1.transaction_hash,
            invoke_tx_v1.max_fee,
            invoke_tx_v1.signature,
            invoke_tx_v1.nonce,
            invoke_tx_v1.sender_address,
            invoke_tx_v1.calldata,
        ),
        _ => panic!("expected a version-1 invocation"),
    }
}

fn test_store_tx(store: &mut Store<InMemoryStore>) {
    let tx_hash = Felt::new(123123);
    let tx_fee = Felt::new(89853483);
    let tx_signature = vec![Felt::new(183728913)];
    let tx_nonce = Felt::new(5);
    let tx_sender_address = Felt::new(91232018);
    let tx_calldata = vec![Felt::new(10), Felt::new(0)];

    let tx = new_transaction(
        tx_hash,
        tx_fee,
        tx_signature.clone(),
        tx_nonce,
        tx_sender_address,
        tx_calldata.clone(),
    );
    let _ = store.add_transaction(tx);

    let stored_tx = store.get_transaction(tx_hash).unwrap().unwrap();
    let (
        stored_tx_hash,
        stored_tx_fee,
        stored_tx_signature,
        stored_tx_nonce,
        stored_tx_sender_address,
        stored_tx_calldata,
    ) = get_tx_data(stored_tx);
    assert_eq!(tx_hash, stored_tx_hash);
    assert_eq!(tx_fee, stored_tx_fee);
    assert_eq!(tx_signature, stored_tx_signature);
    assert_eq!(tx_nonce, stored_tx_nonce);
    assert_eq!(tx_sender_address, stored_tx_sender_address);
    assert_eq!(tx_calldata, stored_tx_calldata);
}

fn test_store_height(store: &mut Store<InMemoryStore>) {
    // Test height starts in 0
    assert_eq!(Some(0u64), store.get_height());

    // Set height to an arbitrary number
    store.set_height(25u64).unwrap();

    // Test value has been persisted
    assert_eq!(Some(25u64), store.get_height());
}

#[test]
fn test_in_memory_store() {
    let mut store = Store::new(InMemoryStore::new());
    test_store_tx(&mut store);
    test_store_height(&mut store);
}

fn block_at(number: u64, hash: u64) -> BlockWithTxs {
    BlockWithTxs {
        status: BlockStatus::AcceptedOnL2,
        block_hash: Felt::new(hash),
        parent_hash: Felt::new(0),
        block_number: number,
        new_root: Felt::new(938938281),
        timestamp: 1700000000,
        sequencer_address: Felt::new(12039102),
        transactions: vec![new_transaction(
            Felt::new(7),
            Felt::new(1),
            vec![],
            Felt::new(0),
            Felt::new(1),
            vec![Felt::new(0), Felt::new(1), Felt::new(10)],
        )],
    }
}

#[test]
fn fresh_store_starts_at_height_zero() {
    let store = Store::new(InMemoryStore::new());
    assert_eq!(store.get_height(), Some(0));
    assert_eq!(store.get_latest_block(), Ok(None));
}

#[test]
fn opening_keeps_an_existing_height() {
    let mut engine = InMemoryStore::new();
    engine.put(Index::Values, b"height".to_vec(), 9u64.to_be_bytes().to_vec()).unwrap();
    let store = Store::new(engine);
    assert_eq!(store.get_height(), Some(9));
}

#[test]
fn block_is_found_by_hash_and_by_height() {
    let mut store = Store::new(InMemoryStore::new());
    let block = MaybePendingBlockWithTxs::Block(block_at(1, 4242));
    store.add_block(block.clone()).unwrap();
    assert_eq!(store.get_block_by_hash(Felt::new(4242)), Ok(Some(block.clone())));
    assert_eq!(store.get_block_by_height(1), Ok(Some(block)));
    assert_eq!(store.get_block_by_height(2), Ok(None));
    assert_eq!(store.get_block_by_hash(Felt::new(1)), Ok(None));
}

#[test]
fn height_zero_reads_the_first_block() {
    let mut store = Store::new(InMemoryStore::new());
    let first = MaybePendingBlockWithTxs::Block(block_at(1, 11));
    store.add_block(first.clone()).unwrap();
    assert_eq!(store.get_block_by_height(0), store.get_block_by_height(1));
    assert_eq!(store.get_block_by_height(0), Ok(Some(first)));
}

#[test]
fn latest_block_follows_the_counter() {
    let mut store = Store::new(InMemoryStore::new());
    let second = MaybePendingBlockWithTxs::Block(block_at(2, 22));
    store.add_block(MaybePendingBlockWithTxs::Block(block_at(1, 11))).unwrap();
    store.add_block(second.clone()).unwrap();
    store.set_height(2).unwrap();
    assert_eq!(store.get_latest_block(), Ok(Some(second)));
}

#[test]
fn pending_blocks_are_not_stored() {
    let mut store = Store::new(InMemoryStore::new());
    let pending = MaybePendingBlockWithTxs::PendingBlock(PendingBlockWithTxs {
        transactions: vec![],
        timestamp: 5,
        sequencer_address: Felt::new(1),
        parent_hash: Felt::new(2),
    });
    assert_eq!(store.add_block(pending), Err(StoreError::Unsupported));
}

#[test]
fn declarations_are_not_stored() {
    let mut store = Store::new(InMemoryStore::new());
    let declare = Transaction::Declare(DeclareTransaction {
        transaction_hash: Felt::new(3),
        class_hash: Felt::new(4),
        sender_address: Felt::new(5),
        max_fee: Felt::new(6),
        signature: vec![],
        nonce: Felt::new(0),
    });
    assert_eq!(store.add_transaction(declare), Err(StoreError::Unsupported));
    assert_eq!(store.get_transaction(Felt::new(3)), Ok(None));
}

#[test]
fn in_memory_store_overwrites_a_transaction() {
    let mut store = Store::new(InMemoryStore::new());
    let first = new_transaction(Felt::new(1), Felt::new(10), vec![], Felt::new(0), Felt::new(1), vec![]);
    let second = new_transaction(Felt::new(1), Felt::new(20), vec![], Felt::new(1), Felt::new(1), vec![]);
    assert_eq!(store.add_transaction(first), Ok(()));
    assert_eq!(store.add_transaction(second.clone()), Ok(()));
    assert_eq!(store.get_transaction(Felt::new(1)), Ok(Some(second)));
}

#[test]
fn receipts_are_read_back() {
    let mut store = Store::new(InMemoryStore::new());
    let receipt = MaybePendingTransactionReceipt::Receipt(TransactionReceipt::Invoke(
        InvokeTransactionReceipt {
            transaction_hash: Felt::new(77),
            actual_fee: Felt::new(3),
            status: TransactionStatus::AcceptedOnL2,
            block_hash: Felt::new(5),
            block_number: 1,
            messages_sent: vec![],
            events: vec![],
        },
    ));
    store.add_transaction_receipt(receipt.clone()).unwrap();
    assert_eq!(store.get_transaction_receipt(Felt::new(77)), Ok(Some(receipt)));
    assert_eq!(store.get_transaction_receipt(Felt::new(78)), Ok(None));
}

#[test]
fn corrupt_values_are_reported() {
    let mut engine = InMemoryStore::new();
    engine
        .put(Index::Transactions, Felt::new(9).to_be_bytes(), vec![1, 2, 3])
        .unwrap();
    let store = Store::new(engine);
    assert_eq!(store.get_transaction(Felt::new(9)), Err(StoreError::Corrupt));
}
