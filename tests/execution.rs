use sequencer::execution::{get_input_value_cairo_native, Contract, ContractRegistry, ExecutionError};
use sequencer::felt::Felt;
use sequencer::serializable_types::FeltHex;
use sequencer::types::{DeclareTransaction, Transaction};

fn felt_str(hex: &str) -> Felt {
    FeltHex::deserialize_as(hex).unwrap()
}

#[test]
fn get_input_value_cairo_native_should_be_10() {
    let input = get_input_value_cairo_native(10);
    assert_eq!(input, vec![10, 0, 0, 0, 0, 0, 0, 0]);
}

#[test]
fn input_value_spreads_over_two_digits() {
    assert_eq!(get_input_value_cairo_native(0), vec![0; 8]);
    assert_eq!(
        get_input_value_cairo_native(112500000000),
        vec![830850304, 26, 0, 0, 0, 0, 0, 0]
    );
}

#[test]
fn factorial_test() {
    let starknet_state = ContractRegistry::new_for_tests();

        // valid fact call
    let selector = felt_str("36fbc999025b89d36d31dc2f9c0a03b4377755e1f27e0e42a385aaba90f61a6");

    let request = starknet_state
        .invoke_request(&vec![Felt::new(1), selector, Felt::new(2000)])
        .unwrap();
    assert_eq!(request.contract, Contract::Factorial);
    assert_eq!(request.entry_point_selector, selector);
    assert_eq!(request.calldata, vec![Felt::new(2000)]);
}

#[test]
fn fibonacci_test() {
    let starknet_state = ContractRegistry::new_for_tests();
    // valid fib call
    let selector = felt_str("112e35f48499939272000bd72eb840e502ca4c3aefa8800992e8defb746e0c9");

    let request = starknet_state
        .invoke_request(&vec![
            Felt::new(0),
            selector,
            Felt::new(1),
            Felt::new(1),
            Felt::new(10000),
        ])
        .unwrap();
    assert_eq!(request.contract, Contract::Fibonacci);
    assert_eq!(request.contract_address, Felt::new(0));
    assert_eq!(request.calldata, vec![Felt::new(1), Felt::new(1), Felt::new(10000)]);
}

#[test]
fn test_erc20() {
    let starknet_state = ContractRegistry::new_for_tests();

    // valid erc20 call
    let selector = felt_str("83afd3f4caedc6eebf44246fe54e38c95e3179a5ec9ea81740eca5b482d12e");

    let _initial_supply = Felt::new((5000) + 1);
    let name = Felt::new(256);
    let token_symbol = Felt::new(512);
    let _decimals = Felt::new(10);
    let _contract_address_receiver = Felt::new(10);

    let request = starknet_state
        .invoke_request(&vec![Felt::new(2), selector, name, token_symbol])
        .unwrap();
    assert_eq!(request.contract, Contract::Erc20);
    assert_eq!(request.calldata, vec![name, token_symbol]);

    // should fail due to not deployed contract
    let selector = felt_str("213cda0181d4bd6d07f2e467ddf45a1d971e14ca1bcd4c83949a6d830a15b7f");
    assert!(starknet_state
        .invoke_request(&vec![Felt::new(9999), selector, Felt::new(2000)])
        .is_err());
}

#[test]
fn test_not_deployed_contract() {
    let starknet_state = ContractRegistry::new_for_tests();

    // should fail due to not deployed contract
    let selector = felt_str("213cda0181d4bd6d07f2e467ddf45a1d971e14ca1bcd4c83949a6d830a15b7f");

    assert!(matches!(
        starknet_state.invoke_request(&vec![Felt::new(9999), selector, Felt::new(2000)]),
        Err(ExecutionError::ContractNotDeployed)
    ));
}

#[test]
fn registry_classes_and_errors() {
    let registry = ContractRegistry::new_for_tests();
    let fib = registry.lookup(Felt::new(0)).unwrap();
    assert_eq!(fib.class_hash.to_be_bytes(), vec![1u8; 32]);
    assert_eq!(registry.lookup(Felt::new(1)).unwrap().class_hash.to_be_bytes(), vec![2u8; 32]);
    assert_eq!(registry.lookup(Felt::new(2)).unwrap().class_hash.to_be_bytes(), vec![3u8; 32]);
    assert!(registry.lookup(Felt::new(3)).is_none());
    assert!(matches!(registry.invoke_request(&vec![Felt::new(0)]), Err(ExecutionError::InvalidCalldata)));
    let declare = Transaction::Declare(DeclareTransaction {
        transaction_hash: Felt::new(1),
        class_hash: Felt::new(1),
        sender_address: Felt::new(1),
        max_fee: Felt::new(1),
        signature: vec![],
        nonce: Felt::new(0),
    });
    assert!(matches!(registry.request_for(&declare), Err(ExecutionError::Unsupported)));
}
