//! The execution engine's side that is decided here: which deployed contract
//! an invocation calls, with which selector and arguments, and how arguments
//! are laid out for the compiled entry points. The virtual machine that runs
//! the call is outside.
use crate::felt::Felt;
use crate::types::{InvokeTransaction, Transaction};
use vstd::prelude::*;

verus! {

/// Why an invocation could not be executed.
#[derive(Clone, Copy, Debug, PartialEq, Eq, Hash, Structural)]
pub enum ExecutionError {
    /// The calldata lacks the contract address or the selector.
    InvalidCalldata,
    /// No contract is deployed at the address.
    ContractNotDeployed,
    /// Only version-1 invocations are executed.
    Unsupported,
}

/// The programs that are deployed on the chain.
#[derive(Clone, Copy, Debug, PartialEq, Eq, Hash, Structural)]
pub enum Contract {
    Fibonacci,
    Factorial,
    Erc20,
}

/// A class hash whose 32 bytes are all `b`.
pub open spec fn repeated_byte_class(b: u8) -> Felt {
    let limb = (b as u64 * 0x0101_0101_0101_0101u64) as u64;
    Felt { d0: limb, d1: limb, d2: limb, d3: limb }
}

fn repeated_byte_felt(b: u8) -> (r: Felt)
    requires
        b <= 3,
    ensures
        r == repeated_byte_class(b),
        r.valid(),
{
    let limb: u64 = b as u64 * 0x0101_0101_0101_0101u64;
    let f = Felt { d0: limb, d1: limb, d2: limb, d3: limb };
    proof {
        crate::felt::lemma_valid_limbs(f);
    }
    f
}

/// A deployed contract: its address, class hash and nonce.
#[derive(Clone, Copy, Debug, PartialEq, Eq, Hash, Structural)]
pub struct Deployment {
    pub address: Felt,
    pub class_hash: Felt,
    pub nonce: Felt,
    pub contract: Contract,
}

/// The state that invocations run against: which contract is deployed where.
pub struct ContractRegistry {
    pub deployments: Vec<Deployment>,
}

/// The first deployment at `address`.
pub open spec fn deployment_at(ds: Seq<Deployment>, address: Felt) -> Option<Deployment>
    decreases ds.len(),
{
    if ds.len() == 0 {
        None
    } else if ds[0].address == address {
        Some(ds[0])
    } else {
        deployment_at(ds.drop_first(), address)
    }
}

/// What an invocation asks the virtual machine to run.
pub struct InvokeRequest {
    pub contract_address: Felt,
    pub class_hash: Felt,
    pub contract: Contract,
    pub entry_point_selector: Felt,
    pub calldata: Vec<Felt>,
}

impl ContractRegistry {
    /// The registry of the test chain: Fibonacci at address 0 with class hash
    /// `[1; 32]`, Factorial at 1 with `[2; 32]`, ERC-20 at 2 with `[3; 32]`,
    /// every nonce 0.
    pub fn new_for_tests() -> (r: ContractRegistry)
        ensures
            r.deployments@ == seq![
                Deployment {
                    address: Felt::spec_from_u64(0),
                    class_hash: repeated_byte_class(1),
                    nonce: Felt::spec_from_u64(0),
                    contract: Contract::Fibonacci,
                },
                Deployment {
                    address: Felt::spec_from_u64(1),
                    class_hash: repeated_byte_class(2),
                    nonce: Felt::spec_from_u64(0),
                    contract: Contract::Factorial,
                },
                Deployment {
                    address: Felt::spec_from_u64(2),
                    class_hash: repeated_byte_class(3),
                    nonce: Felt::spec_from_u64(0),
                    contract: Contract::Erc20,
                },
            ],
    {
        let mut deployments: Vec<Deployment> = Vec::new();
        deployments.push(
            Deployment {
                address: Felt::new(0),
                class_hash: repeated_byte_felt(1),
                nonce: Felt::new(0),
                contract: Contract::Fibonacci,
            },
        );
        deployments.push(
            Deployment {
                address: Felt::new(1),
                class_hash: repeated_byte_felt(2),
                nonce: Felt::new(0),
                contract: Contract::Factorial,
            },
        );
        deployments.push(
            Deployment {
                address: Felt::new(2),
                class_hash: repeated_byte_felt(3),
                nonce: Felt::new(0),
                contract: Contract::Erc20,
            },
        );
        let r = ContractRegistry { deployments };
        assert(r.deployments@ =~= seq![
            Deployment {
                address: Felt::spec_from_u64(0),
                class_hash: repeated_byte_class(1),
                nonce: Felt::spec_from_u64(0),
                contract: Contract::Fibonacci,
            },
            Deployment {
                address: Felt::spec_from_u64(1),
                class_hash: repeated_byte_class(2),
                nonce: Felt::spec_from_u64(0),
                contract: Contract::Factorial,
            },
            Deployment {
                address: Felt::spec_from_u64(2),
                class_hash: repeated_byte_class(3),
                nonce: Felt::spec_from_u64(0),
                contract: Contract::Erc20,
            },
        ]);
        r
    }

    /// The deployment at an address.
    pub fn lookup(&self, address: Felt) -> (r: Option<Deployment>)
        ensures
            r == deployment_at(self.deployments@, address),
    {
        let mut i: usize = 0;
        assert(self.deployments@.skip(0) =~= self.deployments@);
        while i < self.deployments.len()
            invariant
                i <= self.deployments.len(),
                deployment_at(self.deployments@, address) == deployment_at(
                    self.deployments@.skip(i as int),
                    address,
                ),
            decreases self.deployments.len() - i,
        {
            proof {
                assert(self.deployments@.skip(i as int).drop_first() =~= self.deployments@.skip(
                    i + 1,
                ));
            }
            if self.deployments[i].address == address {
                return Some(self.deployments[i]);
            }
            i = i + 1;
        }
        None
    }

    /// What an invocation with this calldata runs: the contract at
    /// `calldata[0]`, the entry point `calldata[1]`, the arguments after them.
    pub fn invoke_request(&self, calldata: &Vec<Felt>) -> (r: Result<InvokeRequest, ExecutionError>)
        ensures
            calldata@.len() < 2 ==> r == Err::<InvokeRequest, ExecutionError>(
                ExecutionError::InvalidCalldata,
            ),
            calldata@.len() >= 2 ==> match deployment_at(self.deployments@, calldata@[0]) {
                None => r == Err::<InvokeRequest, ExecutionError>(
                    ExecutionError::ContractNotDeployed,
                ),
                Some(d) => r matches Ok(q) && q.contract_address == calldata@[0] && q.class_hash
                    == d.class_hash && q.contract == d.contract && q.entry_point_selector
                    == calldata@[1] && q.calldata@ == calldata@.skip(2),
            },
    {
        if calldata.len() < 2 {
            return Err(ExecutionError::InvalidCalldata);
        }
        match self.lookup(calldata[0]) {
            None => Err(ExecutionError::ContractNotDeployed),
            Some(d) => {
                let mut args: Vec<Felt> = Vec::new();
                let mut i: usize = 2;
                while i < calldata.len()
                    invariant
                        2 <= i <= calldata.len(),
                        args@ == calldata@.subrange(2, i as int),
                    decreases calldata.len() - i,
                {
                    args.push(calldata[i]);
                    i = i + 1;
                    assert(args@ =~= calldata@.subrange(2, i as int));
                }
                assert(calldata@.subrange(2, calldata.len() as int) =~= calldata@.skip(2));
                Ok(
                    InvokeRequest {
                        contract_address: calldata[0],
                        class_hash: d.class_hash,
                        contract: d.contract,
                        entry_point_selector: calldata[1],
                        calldata: args,
                    },
                )
            },
        }
    }

    /// What a transaction asks to run: only version-1 invocations are
    /// executed.
    pub fn request_for(&self, transaction: &Transaction) -> (r: Result<InvokeRequest, ExecutionError>)
        ensures
            match transaction {
                Transaction::Invoke(InvokeTransaction::V1(t)) => match (
                    r,
                    self.invoke_request_spec(t.calldata@),
                ) {
                    (Ok(q), Ok((a, c, k, s, args))) => q.contract_address == a && q.class_hash == c
                        && q.contract == k && q.entry_point_selector == s && q.calldata@ == args,
                    (Err(e), Err(f)) => e == f,
                    _ => false,
                },
                _ => r == Err::<InvokeRequest, ExecutionError>(ExecutionError::Unsupported),
            },
    {
        match transaction {
            Transaction::Invoke(InvokeTransaction::V1(t)) => self.invoke_request(&t.calldata),
            _ => Err(ExecutionError::Unsupported),
        }
    }

    /// The request that [`ContractRegistry::invoke_request`] makes, as its
    /// parts: address, class hash, contract, selector and arguments.
    pub open spec fn invoke_request_spec(&self, calldata: Seq<Felt>) -> Result<
        (Felt, Felt, Contract, Felt, Seq<Felt>),
        ExecutionError,
    > {
        if calldata.len() < 2 {
            Err(ExecutionError::InvalidCalldata)
        } else {
            match deployment_at(self.deployments@, calldata[0]) {
                None => Err(ExecutionError::ContractNotDeployed),
                Some(d) => Ok((calldata[0], d.class_hash, d.contract, calldata[1], calldata.skip(2))),
            }
        }
    }
}

/// The little-endian 32-bit digits of `n`, without trailing zeros.
pub open spec fn u32_digits(n: nat) -> Seq<u32> {
    if n == 0 {
        seq![]
    } else if n < 0x1_0000_0000 {
        seq![n as u32]
    } else {
        seq![(n % 0x1_0000_0000) as u32, (n / 0x1_0000_0000) as u32]
    }
}

/// Relies on `num_bigint::BigUint::to_u32_digits`: the digits of the value,
/// least significant first, with no trailing zero (none at all for zero).
#[verifier::external_body]
fn to_u32_digits(n: usize) -> (r: Vec<u32>)
    ensures
        r@ == u32_digits(n as nat),
{
    num_bigint::BigUint::from(n).to_u32_digits()
}

/// The argument layout of a compiled entry point: the 32-bit digits of `n`,
/// least significant first, padded with zeros to eight.
pub fn get_input_value_cairo_native(n: usize) -> (r: Vec<u32>)
    ensures
        r@ == seq![
            (n as nat % 0x1_0000_0000) as u32,
            (n as nat / 0x1_0000_0000) as u32,
            0u32,
            0u32,
            0u32,
            0u32,
            0u32,
            0u32,
        ],
{
    let mut digits = to_u32_digits(n);
    while digits.len() < 8
        invariant
            digits@.len() <= 8,
            u32_digits(n as nat).len() <= digits@.len(),
            digits@.take(u32_digits(n as nat).len() as int) == u32_digits(n as nat),
            forall|j: int| u32_digits(n as nat).len() <= j < digits@.len() ==> digits@[j] == 0,
        decreases 8 - digits.len(),
    {
        digits.push(0);
    }
    proof {
        assert(n as nat / 0x1_0000_0000 < 0x1_0000_0000) by {
            assert(n <= usize::MAX);
        }
        let d = u32_digits(n as nat);
        assert(digits@[0] == (n as nat % 0x1_0000_0000) as u32) by {
            if d.len() > 0 {
                assert(digits@[0] == digits@.take(d.len() as int)[0]);
            }
        }
        assert(digits@[1] == (n as nat / 0x1_0000_0000) as u32) by {
            if d.len() > 1 {
                assert(digits@[1] == digits@.take(d.len() as int)[1]);
            }
        }
    }
    assert(digits@ =~= seq![
        (n as nat % 0x1_0000_0000) as u32,
        (n as nat / 0x1_0000_0000) as u32,
        0u32,
        0u32,
        0u32,
        0u32,
        0u32,
        0u32,
    ]);
    digits
}

} // verus!
