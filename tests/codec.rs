use sequencer::felt::Felt;
use sequencer::types::{
    BlockStatus, BlockWithTxs, DeployAccountTransaction, InvokeTransaction, InvokeTransactionV1,
    MaybePendingBlockWithTxs, Transaction,
};

#[test]
fn serializable_types_serialize_deserialize_tx() {
    let starknet_transaction = Transaction::Invoke(InvokeTransaction::V1(InvokeTransactionV1 {
        transaction_hash: Felt::new(2314),
        max_fee: Felt::new(1),
        signature: vec![Felt::new(423)],
        nonce: Felt::new(1),
        sender_address: Felt::new(1),
        calldata: vec![Felt::new(2)],
    }));

    let starknet_transaction_bytes = starknet_transaction.as_bytes();

    let deserialized_tx = Transaction::from_bytes(&starknet_transaction_bytes).unwrap();
    if let Transaction::Invoke(InvokeTransaction::V1(v)) = deserialized_tx {
        assert_eq!(Felt::new(2314), v.transaction_hash);
        assert_eq!(&Felt::new(423), v.signature.first().unwrap());
    } else {
        panic!()
    }
}

#[test]
fn serdeserialize_block_with_txs() {
    let block = MaybePendingBlockWithTxs::Block(BlockWithTxs::default());
    let serialized = block.as_bytes();
    let deserialized = MaybePendingBlockWithTxs::from_bytes(&serialized).unwrap();
    assert_eq!(deserialized, block);
}

#[test]
fn transaction_encoding_layout() {
    let tx = Transaction::new_invoke(
        Felt::new(1),
        Felt::new(2),
        vec![],
        Felt::new(3),
        Felt::new(4),
        vec![Felt::new(5)],
    );
    let bytes = tx.as_bytes();
    // tag, four scalars of 32 bytes, two list lengths of 8 bytes, one scalar
    assert_eq!(bytes.len(), 1 + 32 * 4 + 8 * 2 + 32);
    assert_eq!(bytes[0], 0);
    assert_eq!(bytes[32], 1);
    assert_eq!(bytes[64], 2);
    assert_eq!(&bytes[65..73], &[0u8; 8]);
}

#[test]
fn every_transaction_kind_round_trips() {
    let deploy = Transaction::DeployAccount(DeployAccountTransaction {
        transaction_hash: Felt::new(9),
        class_hash: Felt::new(8),
        contract_address_salt: Felt::new(7),
        constructor_calldata: vec![Felt::new(6), Felt::new(5)],
        max_fee: Felt::new(4),
        signature: vec![Felt::new(3)],
        nonce: Felt::new(2),
    });
    assert_eq!(Transaction::from_bytes(&deploy.as_bytes()), Some(deploy));
}

#[test]
fn block_with_transactions_round_trips() {
    let block = MaybePendingBlockWithTxs::Block(BlockWithTxs {
        status: BlockStatus::AcceptedOnL1,
        block_hash: Felt::new(99),
        parent_hash: Felt::new(98),
        block_number: 3,
        new_root: Felt::new(938938281),
        timestamp: 1_700_000_000,
        sequencer_address: Felt::new(12039102),
        transactions: vec![
            Transaction::new_invoke(Felt::new(1), Felt::new(2), vec![Felt::new(3)], Felt::new(4), Felt::new(5), vec![]),
            Transaction::new_invoke(Felt::new(6), Felt::new(7), vec![], Felt::new(8), Felt::new(9), vec![Felt::new(10)]),
        ],
    });
    assert_eq!(MaybePendingBlockWithTxs::from_bytes(&block.as_bytes()), Some(block));
}

#[test]
fn truncated_or_padded_bytes_do_not_decode() {
    let tx = Transaction::new_invoke(Felt::new(1), Felt::new(2), vec![], Felt::new(3), Felt::new(4), vec![]);
    let mut bytes = tx.as_bytes();
    bytes.push(0);
    assert_eq!(Transaction::from_bytes(&bytes), None);
    bytes.truncate(bytes.len() - 2);
    assert_eq!(Transaction::from_bytes(&bytes), None);
    assert_eq!(Transaction::from_bytes(&vec![7u8]), None);
    assert_eq!(Transaction::from_bytes(&vec![]), None);
}

#[test]
fn scalars_not_below_the_order_do_not_decode() {
    let tx = Transaction::new_invoke(Felt::new(1), Felt::new(2), vec![], Felt::new(3), Felt::new(4), vec![]);
    let mut bytes = tx.as_bytes();
    for b in bytes[1..33].iter_mut() {
        *b = 0xff;
    }
    assert_eq!(Transaction::from_bytes(&bytes), None);
}

#[test]
fn limbs_are_checked_against_the_order() {
    assert!(Felt::from_limbs(0, 0, 0, 0x0800_0000_0000_0011).is_some());
    assert!(Felt::from_limbs(1, 0, 0, 0x0800_0000_0000_0011).is_none());
    assert!(Felt::from_limbs(u64::MAX, u64::MAX, u64::MAX, 0x0800_0000_0000_0010).is_some());
    assert_eq!(Felt::new(5).to_u64(), Some(5));
    assert_eq!(Felt::from_limbs(5, 1, 0, 0).unwrap().to_u64(), None);
    assert_eq!(Felt::from_limbs(5, 1, 0, 0).unwrap().low_u64(), 5);
}

#[test]
fn test_serialize_transaction() {
    let burst = 12;
    let size = 1000;
    let counter = 0;
    let calldata = vec![
        Felt::new(0),
        sequencer::serializable_types::FeltHex::deserialize_as(
            "112e35f48499939272000bd72eb840e502ca4c3aefa8800992e8defb746e0c9",
        )
        .unwrap(),
        Felt::new(10),
    ];

    for x in 0..burst {
        let mut tx: Vec<u8> = Vec::with_capacity(size);
        if x == counter % burst {
            tx.push(0u8); // Sample txs start with 0.
        } else {
            tx.push(1u8); // Standard txs start with 1.
        };
        let starknet_tx = Transaction::new_invoke(
            Felt::new(762716321),
            Felt::new(0),
            vec![],
            Felt::new(0),
            Felt::new(0),
            calldata.clone(),
        );
        for b in starknet_tx.as_bytes() {
            tx.push(b);
        }
        tx.resize(size, 0u8);

        let ret = Transaction::from_bytes(&tx);
        // the flag byte and the padding are not part of the encoding
        assert_eq!(ret, None);
        assert_eq!(Transaction::from_bytes(&starknet_tx.as_bytes()), Some(starknet_tx));
    }
}
