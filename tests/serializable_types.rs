use sequencer::felt::Felt;
use sequencer::serializable_types::{FeltHex, FeltHexOption, FeltPendingBlockHash};

#[test]
fn serializable_types_empty_string_deser() {
    let r = FeltHexOption::deserialize_as("");
    assert_eq!(r, None);
}

#[test]
fn hex_is_written_with_prefix_and_read_back() {
    let f = Felt::new(0x1234abcd);
    assert_eq!(FeltHex::serialize_as(&f), "0x1234abcd");
    assert_eq!(FeltHex::serialize_as(&Felt::new(0)), "0x0");
    assert_eq!(FeltHex::deserialize_as("0x1234abcd"), Some(f));
    assert_eq!(FeltHex::deserialize_as("1234ABCD"), Some(f));
    assert_eq!(FeltHex::deserialize_as("0xzz"), None);
}

#[test]
fn large_hex_values_reduce_modulo_the_order() {
    let p_plus_one = FeltHex::deserialize_as(
        "0x800000000000011000000000000000000000000000000000000000000000002",
    );
    assert_eq!(p_plus_one, Some(Felt::new(1)));
    let max = FeltHex::deserialize_as(
        "0x800000000000011000000000000000000000000000000000000000000000000",
    )
    .unwrap();
    assert_eq!(max.to_be_bytes()[0], 0x08);
    assert_eq!(
        FeltHex::serialize_as(&max),
        "0x800000000000011000000000000000000000000000000000000000000000000"
    );
}

#[test]
fn optional_hex_forms() {
    assert_eq!(FeltHexOption::serialize_as(&Some(Felt::new(255))), Some("ff".to_string()));
    assert_eq!(FeltHexOption::serialize_as(&None), None);
    // the bytes of the string are read as a big-endian integer
    assert_eq!(FeltHexOption::deserialize_as("A"), Some(Felt::new(65)));
    assert_eq!(FeltHexOption::deserialize_as("AB"), Some(Felt::new(65 * 256 + 66)));
}

#[test]
fn pending_block_hash_forms() {
    assert_eq!(FeltPendingBlockHash::deserialize_as(""), None);
    assert_eq!(FeltPendingBlockHash::deserialize_as("pending"), None);
    assert_eq!(FeltPendingBlockHash::deserialize_as("None"), None);
    assert_eq!(FeltPendingBlockHash::deserialize_as("a"), Some(Felt::new(97)));
    assert_eq!(FeltPendingBlockHash::serialize_as(&Some(Felt::new(16))), Some("10".to_string()));
    assert_eq!(FeltPendingBlockHash::serialize_as(&None), None);
}
