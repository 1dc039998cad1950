//! The system calls that compiled contracts make, answered with fixed values:
//! fixed block and transaction information, and calldata transformed in a
//! fixed way.
use crate::felt::{be_value, felt_add, felt_from_bytes_be, felt_mul, prime, Felt};
use vstd::prelude::*;

verus! {

/// The handler of a contract's system calls.
#[derive(Clone, Copy, Debug, PartialEq, Eq, Hash, Structural)]
pub struct SyscallHandler;

/// The block that a call sees.
#[derive(Clone, Copy, Debug, PartialEq, Eq, Hash, Structural)]
pub struct BlockInfo {
    pub block_number: u64,
    pub block_timestamp: u64,
    pub sequencer_address: Felt,
}

/// The transaction that a call sees.
#[derive(Clone, Debug, PartialEq, Eq)]
pub struct TxInfo {
    pub version: Felt,
    pub account_contract_address: Felt,
    pub max_fee: u128,
    pub signature: Vec<Felt>,
    pub transaction_hash: Felt,
    pub chain_id: Felt,
    pub nonce: Felt,
}

/// What a call learns of its context.
#[derive(Clone, Debug, PartialEq, Eq)]
pub struct ExecutionInfo {
    pub block_info: BlockInfo,
    pub tx_info: TxInfo,
    pub caller_address: Felt,
    pub contract_address: Felt,
    pub entry_point_selector: Felt,
}

/// The bytes of `get_block_hash ok`.
pub open spec fn block_hash_reply() -> Seq<u8> {
    seq![103u8, 101, 116, 95, 98, 108, 111, 99, 107, 95, 104, 97, 115, 104, 32, 111, 107]
}

/// Each value times `k`, modulo the field's order.
fn scale_all(values: &Vec<Felt>, k: u64) -> (r: Vec<Felt>)
    ensures
        r@.len() == values@.len(),
        forall|i: int| 0 <= i < r@.len() ==> (#[trigger] r@[i]).value() == (values@[i].value() * (k as nat))
            % prime(),
{
    let factor = Felt::new(k);
    let mut out: Vec<Felt> = Vec::new();
    let mut i: usize = 0;
    while i < values.len()
        invariant
            i <= values.len(),
            factor.value() == k,
            out@.len() == i,
            forall|j: int| 0 <= j < i ==> (#[trigger] out@[j]).value() == (values@[j].value() * (k as nat))
                % prime(),
        decreases values.len() - i,
    {
        out.push(felt_mul(values[i], factor));
        i = i + 1;
    }
    out
}

impl SyscallHandler {
    /// The hash of any block: the element whose big-endian bytes are
    /// `get_block_hash ok`.
    pub fn get_block_hash(&self, block_number: u64) -> (r: Felt)
        ensures
            r.value() == be_value(block_hash_reply()) % prime(),
    {
        let reply: Vec<u8> = vec![103u8, 101, 116, 95, 98, 108, 111, 99, 107, 95, 104, 97, 115, 104, 32, 111, 107];
        assert(reply@ =~= block_hash_reply());
        felt_from_bytes_be(reply.as_slice())
    }

    /// Fixed block and transaction information.
    pub fn get_execution_info(&self) -> (r: ExecutionInfo)
        ensures
            r.block_info == (BlockInfo {
                block_number: 1234,
                block_timestamp: 2345,
                sequencer_address: Felt::spec_from_u64(3456),
            }),
            r.tx_info.version == Felt::spec_from_u64(4567),
            r.tx_info.account_contract_address == Felt::spec_from_u64(5678),
            r.tx_info.max_fee == 6789,
            r.tx_info.signature@ == seq![Felt::spec_from_u64(1248), Felt::spec_from_u64(2486)],
            r.tx_info.transaction_hash == Felt::spec_from_u64(9876),
            r.tx_info.chain_id == Felt::spec_from_u64(8765),
            r.tx_info.nonce == Felt::spec_from_u64(7654),
            r.caller_address == Felt::spec_from_u64(6543),
            r.contract_address == Felt::spec_from_u64(5432),
            r.entry_point_selector == Felt::spec_from_u64(4321),
    {
        let mut signature: Vec<Felt> = Vec::new();
        signature.push(Felt::new(1248));
        signature.push(Felt::new(2486));
        assert(signature@ =~= seq![Felt::spec_from_u64(1248), Felt::spec_from_u64(2486)]);
        ExecutionInfo {
            block_info: BlockInfo {
                block_number: 1234,
                block_timestamp: 2345,
                sequencer_address: Felt::new(3456),
            },
            tx_info: TxInfo {
                version: Felt::new(4567),
                account_contract_address: Felt::new(5678),
                max_fee: 6789,
                signature,
                transaction_hash: Felt::new(9876),
                chain_id: Felt::new(8765),
                nonce: Felt::new(7654),
            },
            caller_address: Felt::new(6543),
            contract_address: Felt::new(5432),
            entry_point_selector: Felt::new(4321),
        }
    }

    /// Deploys nothing: the address is the class hash plus the salt, and the
    /// constructor's result is the calldata, each value plus one.
    pub fn deploy(
        &self,
        class_hash: Felt,
        contract_address_salt: Felt,
        calldata: &Vec<Felt>,
        deploy_from_zero: bool,
    ) -> (r: (Felt, Vec<Felt>))
        ensures
            r.0.value() == (class_hash.value() + contract_address_salt.value()) % prime(),
            r.1@.len() == calldata@.len(),
            forall|i: int| 0 <= i < r.1@.len() ==> (#[trigger] r.1@[i]).value() == (
            calldata@[i].value() + 1) % prime(),
    {
        let one = Felt::new(1);
        let mut out: Vec<Felt> = Vec::new();
        let mut i: usize = 0;
        while i < calldata.len()
            invariant
                i <= calldata.len(),
                one.value() == 1,
                out@.len() == i,
                forall|j: int| 0 <= j < i ==> (#[trigger] out@[j]).value() == (calldata@[j].value()
                    + 1) % prime(),
            decreases calldata.len() - i,
        {
            out.push(felt_add(calldata[i], one));
            i = i + 1;
        }
        (felt_add(class_hash, contract_address_salt), out)
    }

    /// Calls no library: the result is the calldata, each value times three.
    pub fn library_call(&self, class_hash: Felt, function_selector: Felt, calldata: &Vec<Felt>) -> (r:
        Vec<Felt>)
        ensures
            r@.len() == calldata@.len(),
            forall|i: int| 0 <= i < r@.len() ==> (#[trigger] r@[i]).value() == (calldata@[i].value()
                * 3) % prime(),
    {
        scale_all(calldata, 3)
    }

    /// Calls no contract: the result is the calldata, each value times three.
    pub fn call_contract(&self, address: Felt, entry_point_selector: Felt, calldata: &Vec<Felt>) -> (r:
        Vec<Felt>)
        ensures
            r@.len() == calldata@.len(),
            forall|i: int| 0 <= i < r@.len() ==> (#[trigger] r@[i]).value() == (calldata@[i].value()
                * 3) % prime(),
    {
        scale_all(calldata, 3)
    }

    /// Reads no storage: the value at an address is the address times three.
    pub fn storage_read(&self, address_domain: u32, address: Felt) -> (r: Felt)
        ensures
            r.value() == (address.value() * 3) % prime(),
    {
        felt_mul(address, Felt::new(3))
    }

    /// Hashes nothing: the digest is 1234567890 as 32 little-endian bytes.
    pub fn keccak(&self, input: &Vec<u64>) -> (r: Vec<u8>)
        ensures
            r@ == seq![0xd2u8, 0x02, 0x96, 0x49] + Seq::new(28, |_i: int| 0u8),
    {
        let mut out: Vec<u8> = vec![0xd2u8, 0x02, 0x96, 0x49];
        let mut i: usize = 0;
        assert(out@ =~= seq![0xd2u8, 0x02, 0x96, 0x49] + Seq::new(0, |_i: int| 0u8));
        while i < 28
            invariant
                i <= 28,
                out@ == seq![0xd2u8, 0x02, 0x96, 0x49] + Seq::new(i as nat, |_i: int| 0u8),
            decreases 28 - i,
        {
            out.push(0);
            i = i + 1;
            assert(out@ =~= seq![0xd2u8, 0x02, 0x96, 0x49] + Seq::new(i as nat, |_i: int| 0u8));
        }
        out
    }
}

} // verus!
