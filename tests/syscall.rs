use sequencer::felt::Felt;
use sequencer::serializable_types::FeltHex;
use sequencer::syscall::SyscallHandler;

#[test]
fn block_hash_reply_is_the_text_as_an_integer() {
    let h = SyscallHandler.get_block_hash(7);
    assert_eq!(FeltHex::serialize_as(&h), "0x6765745f626c6f636b5f68617368206f6b");
}

#[test]
fn execution_info_is_fixed() {
    let info = SyscallHandler.get_execution_info();
    assert_eq!(info.block_info.block_number, 1234);
    assert_eq!(info.block_info.block_timestamp, 2345);
    assert_eq!(info.block_info.sequencer_address, Felt::new(3456));
    assert_eq!(info.tx_info.max_fee, 6789);
    assert_eq!(info.tx_info.signature, vec![Felt::new(1248), Felt::new(2486)]);
    assert_eq!(info.entry_point_selector, Felt::new(4321));
}

#[test]
fn deploy_adds() {
    let (address, result) = SyscallHandler.deploy(Felt::new(10), Felt::new(5), &vec![Felt::new(1), Felt::new(41)], false);
    assert_eq!(address, Felt::new(15));
    assert_eq!(result, vec![Felt::new(2), Felt::new(42)]);
}

#[test]
fn deploy_wraps_modulo_the_order() {
    let max = FeltHex::deserialize_as("0x800000000000011000000000000000000000000000000000000000000000000").unwrap();
    let (address, result) = SyscallHandler.deploy(max, Felt::new(3), &vec![max], false);
    assert_eq!(address, Felt::new(2));
    assert_eq!(result, vec![Felt::new(0)]);
}

#[test]
fn calls_triple_the_calldata() {
    let h = SyscallHandler;
    assert_eq!(h.library_call(Felt::new(1), Felt::new(2), &vec![Felt::new(4), Felt::new(5)]), vec![Felt::new(12), Felt::new(15)]);
    assert_eq!(h.call_contract(Felt::new(1), Felt::new(2), &vec![Felt::new(7)]), vec![Felt::new(21)]);
    assert_eq!(h.storage_read(0, Felt::new(33)), Felt::new(99));
}

#[test]
fn keccak_is_a_fixed_digest() {
    let d = SyscallHandler.keccak(&vec![1, 2, 3]);
    let mut expected = 1234567890u64.to_le_bytes().to_vec();
    expected.resize(32, 0);
    assert_eq!(d, expected);
}
