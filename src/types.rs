//! The chain's values: transactions, blocks and receipts, each with the
//! mathematical value that contracts speak of and its canonical encoding.
use crate::codec::{decode, decode_all, encode, lemma_felts_model, lemma_tag_at, lemma_tagged, opt_model, Codec};
use crate::felt::Felt;
use vstd::prelude::*;

verus! {

/// How far a block has come.
#[derive(Clone, Copy, Debug, PartialEq, Eq, Hash, Structural)]
pub enum BlockStatus {
    Pending,
    AcceptedOnL2,
    AcceptedOnL1,
    Rejected,
}

/// How far a transaction has come.
#[derive(Clone, Copy, Debug, PartialEq, Eq, Hash, Structural)]
pub enum TransactionStatus {
    Pending,
    AcceptedOnL2,
    AcceptedOnL1,
    Rejected,
}

/// An invocation, by version.
#[derive(Clone, Debug, PartialEq, Eq)]
pub enum InvokeTransaction {
    V1(InvokeTransactionV1),
}

/// A transaction of the chain.
#[derive(Clone, Debug, PartialEq, Eq)]
pub enum Transaction {
    Invoke(InvokeTransaction),
    Declare(DeclareTransaction),
    DeployAccount(DeployAccountTransaction),
}

/// The value of a [`Transaction`].
pub enum TransactionModel {
    Invoke(InvokeV1Model),
    Declare(DeclareModel),
    DeployAccount(DeployAccountModel),
}

/// A block, or a block still being assembled.
#[derive(Clone, Debug, PartialEq, Eq)]
pub enum MaybePendingBlockWithTxs {
    Block(BlockWithTxs),
    PendingBlock(PendingBlockWithTxs),
}

/// The value of a [`MaybePendingBlockWithTxs`].
pub enum MaybePendingBlockModel {
    Block(BlockModel),
    PendingBlock(PendingBlockModel),
}

/// A receipt, by kind of transaction.
#[derive(Clone, Debug, PartialEq, Eq)]
pub enum TransactionReceipt {
    Invoke(InvokeTransactionReceipt),
}

/// A receipt, or the receipt of a transaction in a pending block.
#[derive(Clone, Debug, PartialEq, Eq)]
pub enum MaybePendingTransactionReceipt {
    Receipt(TransactionReceipt),
    PendingReceipt(PendingInvokeTransactionReceipt),
}

/// The value of a [`MaybePendingTransactionReceipt`].
pub enum MaybePendingReceiptModel {
    Receipt(InvokeReceiptModel),
    PendingReceipt(PendingReceiptModel),
}

/// An invocation of a deployed contract, version 1.
#[derive(Clone, Debug, PartialEq, Eq)]
pub struct InvokeTransactionV1 {
    pub transaction_hash: Felt,
    pub max_fee: Felt,
    pub signature: Vec<Felt>,
    pub nonce: Felt,
    pub sender_address: Felt,
    pub calldata: Vec<Felt>,
}

/// The value of a [`InvokeTransactionV1`].
pub struct InvokeV1Model {
    pub transaction_hash: Felt,
    pub max_fee: Felt,
    pub signature: Seq<Felt>,
    pub nonce: Felt,
    pub sender_address: Felt,
    pub calldata: Seq<Felt>,
}

/// The fields of a [`InvokeTransactionV1`] in encoding order.
pub type InvokeTransactionV1Fields = (Felt, (Felt, (Vec<Felt>, (Felt, (Felt, Vec<Felt>)))));

impl InvokeV1Model {
    pub open spec fn fields(self) -> <InvokeTransactionV1Fields as Codec>::Model {
        (self.transaction_hash, (self.max_fee, (self.signature, (self.nonce, (self.sender_address, self.calldata)))))
    }

    pub open spec fn of_fields(t: <InvokeTransactionV1Fields as Codec>::Model) -> InvokeV1Model {
        InvokeV1Model { transaction_hash: t.0, max_fee: t.1.0, signature: t.1.1.0, nonce: t.1.1.1.0, sender_address: t.1.1.1.1.0, calldata: t.1.1.1.1.1 }
    }
}

impl Codec for InvokeTransactionV1 {
    type Model = InvokeV1Model;

    open spec fn model(&self) -> InvokeV1Model {
        InvokeV1Model { transaction_hash: self.transaction_hash, max_fee: self.max_fee, signature: self.signature@, nonce: self.nonce, sender_address: self.sender_address, calldata: self.calldata@ }
    }

    open spec fn wf(v: InvokeV1Model) -> bool {
        <InvokeTransactionV1Fields as Codec>::wf(v.fields())
    }

    open spec fn enc(v: InvokeV1Model) -> Seq<u8> {
        <InvokeTransactionV1Fields as Codec>::enc(v.fields())
    }

    open spec fn dec(s: Seq<u8>) -> Option<(InvokeV1Model, int)> {
        match <InvokeTransactionV1Fields as Codec>::dec(s) {
            Some((t, n)) => Some((InvokeV1Model::of_fields(t), n)),
            None => None,
        }
    }

    proof fn lemma_round_trip(v: InvokeV1Model, rest: Seq<u8>) {
        <InvokeTransactionV1Fields as Codec>::lemma_round_trip(v.fields(), rest);
    }

    proof fn lemma_dec_bounds(s: Seq<u8>) {
        <InvokeTransactionV1Fields as Codec>::lemma_dec_bounds(s);
    }

    fn write(&self, out: &mut Vec<u8>) {
        self.transaction_hash.write(out);
        self.max_fee.write(out);
        self.signature.write(out);
        self.nonce.write(out);
        self.sender_address.write(out);
        self.calldata.write(out);
        proof {
            lemma_felts_model(self.signature);
            lemma_felts_model(self.calldata);
            assert(Self::enc(self.model()) == (<Felt as Codec>::enc(self.transaction_hash.model()) + (<Felt as Codec>::enc(self.max_fee.model()) + (<Vec<Felt> as Codec>::enc(self.signature.model()) + (<Felt as Codec>::enc(self.nonce.model()) + (<Felt as Codec>::enc(self.sender_address.model()) + <Vec<Felt> as Codec>::enc(self.calldata.model())))))));
            assert(out@ =~= old(out)@ + (<Felt as Codec>::enc(self.transaction_hash.model()) + (<Felt as Codec>::enc(self.max_fee.model()) + (<Vec<Felt> as Codec>::enc(self.signature.model()) + (<Felt as Codec>::enc(self.nonce.model()) + (<Felt as Codec>::enc(self.sender_address.model()) + <Vec<Felt> as Codec>::enc(self.calldata.model())))))));
        }
    }

    fn read(b: &Vec<u8>, pos: usize) -> (r: Option<(InvokeTransactionV1, usize)>) {
        match <InvokeTransactionV1Fields as Codec>::read(b, pos) {
            Some(((transaction_hash, (max_fee, (signature, (nonce, (sender_address, calldata))))), p)) => {
                proof {
                    lemma_felts_model(signature);
                    lemma_felts_model(calldata);
                }
                Some((InvokeTransactionV1 { transaction_hash, max_fee, signature, nonce, sender_address, calldata }, p))
            },
            None => None,
        }
    }
}

/// A declaration of a contract class.
#[derive(Clone, Debug, PartialEq, Eq)]
pub struct DeclareTransaction {
    pub transaction_hash: Felt,
    pub class_hash: Felt,
    pub sender_address: Felt,
    pub max_fee: Felt,
    pub signature: Vec<Felt>,
    pub nonce: Felt,
}

/// The value of a [`DeclareTransaction`].
pub struct DeclareModel {
    pub transaction_hash: Felt,
    pub class_hash: Felt,
    pub sender_address: Felt,
    pub max_fee: Felt,
    pub signature: Seq<Felt>,
    pub nonce: Felt,
}

/// The fields of a [`DeclareTransaction`] in encoding order.
pub type DeclareTransactionFields = (Felt, (Felt, (Felt, (Felt, (Vec<Felt>, Felt)))));

impl DeclareModel {
    pub open spec fn fields(self) -> <DeclareTransactionFields as Codec>::Model {
        (self.transaction_hash, (self.class_hash, (self.sender_address, (self.max_fee, (self.signature, self.nonce)))))
    }

    pub open spec fn of_fields(t: <DeclareTransactionFields as Codec>::Model) -> DeclareModel {
        DeclareModel { transaction_hash: t.0, class_hash: t.1.0, sender_address: t.1.1.0, max_fee: t.1.1.1.0, signature: t.1.1.1.1.0, nonce: t.1.1.1.1.1 }
    }
}

impl Codec for DeclareTransaction {
    type Model = DeclareModel;

    open spec fn model(&self) -> DeclareModel {
        DeclareModel { transaction_hash: self.transaction_hash, class_hash: self.class_hash, sender_address: self.sender_address, max_fee: self.max_fee, signature: self.signature@, nonce: self.nonce }
    }

    open spec fn wf(v: DeclareModel) -> bool {
        <DeclareTransactionFields as Codec>::wf(v.fields())
    }

    open spec fn enc(v: DeclareModel) -> Seq<u8> {
        <DeclareTransactionFields as Codec>::enc(v.fields())
    }

    open spec fn dec(s: Seq<u8>) -> Option<(DeclareModel, int)> {
        match <DeclareTransactionFields as Codec>::dec(s) {
            Some((t, n)) => Some((DeclareModel::of_fields(t), n)),
            None => None,
        }
    }

    proof fn lemma_round_trip(v: DeclareModel, rest: Seq<u8>) {
        <DeclareTransactionFields as Codec>::lemma_round_trip(v.fields(), rest);
    }

    proof fn lemma_dec_bounds(s: Seq<u8>) {
        <DeclareTransactionFields as Codec>::lemma_dec_bounds(s);
    }

    fn write(&self, out: &mut Vec<u8>) {
        self.transaction_hash.write(out);
        self.class_hash.write(out);
        self.sender_address.write(out);
        self.max_fee.write(out);
        self.signature.write(out);
        self.nonce.write(out);
        proof {
            lemma_felts_model(self.signature);
            assert(Self::enc(self.model()) == (<Felt as Codec>::enc(self.transaction_hash.model()) + (<Felt as Codec>::enc(self.class_hash.model()) + (<Felt as Codec>::enc(self.sender_address.model()) + (<Felt as Codec>::enc(self.max_fee.model()) + (<Vec<Felt> as Codec>::enc(self.signature.model()) + <Felt as Codec>::enc(self.nonce.model())))))));
            assert(out@ =~= old(out)@ + (<Felt as Codec>::enc(self.transaction_hash.model()) + (<Felt as Codec>::enc(self.class_hash.model()) + (<Felt as Codec>::enc(self.sender_address.model()) + (<Felt as Codec>::enc(self.max_fee.model()) + (<Vec<Felt> as Codec>::enc(self.signature.model()) + <Felt as Codec>::enc(self.nonce.model())))))));
        }
    }

    fn read(b: &Vec<u8>, pos: usize) -> (r: Option<(DeclareTransaction, usize)>) {
        match <DeclareTransactionFields as Codec>::read(b, pos) {
            Some(((transaction_hash, (class_hash, (sender_address, (max_fee, (signature, nonce))))), p)) => {
                proof {
                    lemma_felts_model(signature);
                }
                Some((DeclareTransaction { transaction_hash, class_hash, sender_address, max_fee, signature, nonce }, p))
            },
            None => None,
        }
    }
}

/// The deployment of an account contract.
#[derive(Clone, Debug, PartialEq, Eq)]
pub struct DeployAccountTransaction {
    pub transaction_hash: Felt,
    pub class_hash: Felt,
    pub contract_address_salt: Felt,
    pub constructor_calldata: Vec<Felt>,
    pub max_fee: Felt,
    pub signature: Vec<Felt>,
    pub nonce: Felt,
}

/// The value of a [`DeployAccountTransaction`].
pub struct DeployAccountModel {
    pub transaction_hash: Felt,
    pub class_hash: Felt,
    pub contract_address_salt: Felt,
    pub constructor_calldata: Seq<Felt>,
    pub max_fee: Felt,
    pub signature: Seq<Felt>,
    pub nonce: Felt,
}

/// The fields of a [`DeployAccountTransaction`] in encoding order.
pub type DeployAccountTransactionFields = (Felt, (Felt, (Felt, (Vec<Felt>, (Felt, (Vec<Felt>, Felt))))));

impl DeployAccountModel {
    pub open spec fn fields(self) -> <DeployAccountTransactionFields as Codec>::Model {
        (self.transaction_hash, (self.class_hash, (self.contract_address_salt, (self.constructor_calldata, (self.max_fee, (self.signature, self.nonce))))))
    }

    pub open spec fn of_fields(t: <DeployAccountTransactionFields as Codec>::Model) -> DeployAccountModel {
        DeployAccountModel { transaction_hash: t.0, class_hash: t.1.0, contract_address_salt: t.1.1.0, constructor_calldata: t.1.1.1.0, max_fee: t.1.1.1.1.0, signature: t.1.1.1.1.1.0, nonce: t.1.1.1.1.1.1 }
    }
}

impl Codec for DeployAccountTransaction {
    type Model = DeployAccountModel;

    open spec fn model(&self) -> DeployAccountModel {
        DeployAccountModel { transaction_hash: self.transaction_hash, class_hash: self.class_hash, contract_address_salt: self.contract_address_salt, constructor_calldata: self.constructor_calldata@, max_fee: self.max_fee, signature: self.signature@, nonce: self.nonce }
    }

    open spec fn wf(v: DeployAccountModel) -> bool {
        <DeployAccountTransactionFields as Codec>::wf(v.fields())
    }

    open spec fn enc(v: DeployAccountModel) -> Seq<u8> {
        <DeployAccountTransactionFields as Codec>::enc(v.fields())
    }

    open spec fn dec(s: Seq<u8>) -> Option<(DeployAccountModel, int)> {
        match <DeployAccountTransactionFields as Codec>::dec(s) {
            Some((t, n)) => Some((DeployAccountModel::of_fields(t), n)),
            None => None,
        }
    }

    proof fn lemma_round_trip(v: DeployAccountModel, rest: Seq<u8>) {
        <DeployAccountTransactionFields as Codec>::lemma_round_trip(v.fields(), rest);
    }

    proof fn lemma_dec_bounds(s: Seq<u8>) {
        <DeployAccountTransactionFields as Codec>::lemma_dec_bounds(s);
    }

    fn write(&self, out: &mut Vec<u8>) {
        self.transaction_hash.write(out);
        self.class_hash.write(out);
        self.contract_address_salt.write(out);
        self.constructor_calldata.write(out);
        self.max_fee.write(out);
        self.signature.write(out);
        self.nonce.write(out);
        proof {
            lemma_felts_model(self.constructor_calldata);
            lemma_felts_model(self.signature);
            assert(Self::enc(self.model()) == (<Felt as Codec>::enc(self.transaction_hash.model()) + (<Felt as Codec>::enc(self.class_hash.model()) + (<Felt as Codec>::enc(self.contract_address_salt.model()) + (<Vec<Felt> as Codec>::enc(self.constructor_calldata.model()) + (<Felt as Codec>::enc(self.max_fee.model()) + (<Vec<Felt> as Codec>::enc(self.signature.model()) + <Felt as Codec>::enc(self.nonce.model()))))))));
            assert(out@ =~= old(out)@ + (<Felt as Codec>::enc(self.transaction_hash.model()) + (<Felt as Codec>::enc(self.class_hash.model()) + (<Felt as Codec>::enc(self.contract_address_salt.model()) + (<Vec<Felt> as Codec>::enc(self.constructor_calldata.model()) + (<Felt as Codec>::enc(self.max_fee.model()) + (<Vec<Felt> as Codec>::enc(self.signature.model()) + <Felt as Codec>::enc(self.nonce.model()))))))));
        }
    }

    fn read(b: &Vec<u8>, pos: usize) -> (r: Option<(DeployAccountTransaction, usize)>) {
        match <DeployAccountTransactionFields as Codec>::read(b, pos) {
            Some(((transaction_hash, (class_hash, (contract_address_salt, (constructor_calldata, (max_fee, (signature, nonce)))))), p)) => {
                proof {
                    lemma_felts_model(constructor_calldata);
                    lemma_felts_model(signature);
                }
                Some((DeployAccountTransaction { transaction_hash, class_hash, contract_address_salt, constructor_calldata, max_fee, signature, nonce }, p))
            },
            None => None,
        }
    }
}

/// A block of the chain with its full transactions.
#[derive(Clone, Debug, PartialEq, Eq)]
pub struct BlockWithTxs {
    pub status: BlockStatus,
    pub block_hash: Felt,
    pub parent_hash: Felt,
    pub block_number: u64,
    pub new_root: Felt,
    pub timestamp: u64,
    pub sequencer_address: Felt,
    pub transactions: Vec<Transaction>,
}

/// The value of a [`BlockWithTxs`].
pub struct BlockModel {
    pub status: BlockStatus,
    pub block_hash: Felt,
    pub parent_hash: Felt,
    pub block_number: u64,
    pub new_root: Felt,
    pub timestamp: u64,
    pub sequencer_address: Felt,
    pub transactions: Seq<TransactionModel>,
}

/// The fields of a [`BlockWithTxs`] in encoding order.
pub type BlockWithTxsFields = (BlockStatus, (Felt, (Felt, (u64, (Felt, (u64, (Felt, Vec<Transaction>)))))));

impl BlockModel {
    pub open spec fn fields(self) -> <BlockWithTxsFields as Codec>::Model {
        (self.status, (self.block_hash, (self.parent_hash, (self.block_number, (self.new_root, (self.timestamp, (self.sequencer_address, self.transactions)))))))
    }

    pub open spec fn of_fields(t: <BlockWithTxsFields as Codec>::Model) -> BlockModel {
        BlockModel { status: t.0, block_hash: t.1.0, parent_hash: t.1.1.0, block_number: t.1.1.1.0, new_root: t.1.1.1.1.0, timestamp: t.1.1.1.1.1.0, sequencer_address: t.1.1.1.1.1.1.0, transactions: t.1.1.1.1.1.1.1 }
    }
}

impl Codec for BlockWithTxs {
    type Model = BlockModel;

    open spec fn model(&self) -> BlockModel {
        BlockModel { status: self.status, block_hash: self.block_hash, parent_hash: self.parent_hash, block_number: self.block_number, new_root: self.new_root, timestamp: self.timestamp, sequencer_address: self.sequencer_address, transactions: self.transactions.model() }
    }

    open spec fn wf(v: BlockModel) -> bool {
        <BlockWithTxsFields as Codec>::wf(v.fields())
    }

    open spec fn enc(v: BlockModel) -> Seq<u8> {
        <BlockWithTxsFields as Codec>::enc(v.fields())
    }

    open spec fn dec(s: Seq<u8>) -> Option<(BlockModel, int)> {
        match <BlockWithTxsFields as Codec>::dec(s) {
            Some((t, n)) => Some((BlockModel::of_fields(t), n)),
            None => None,
        }
    }

    proof fn lemma_round_trip(v: BlockModel, rest: Seq<u8>) {
        <BlockWithTxsFields as Codec>::lemma_round_trip(v.fields(), rest);
    }

    proof fn lemma_dec_bounds(s: Seq<u8>) {
        <BlockWithTxsFields as Codec>::lemma_dec_bounds(s);
    }

    fn write(&self, out: &mut Vec<u8>) {
        self.status.write(out);
        self.block_hash.write(out);
        self.parent_hash.write(out);
        self.block_number.write(out);
        self.new_root.write(out);
        self.timestamp.write(out);
        self.sequencer_address.write(out);
        self.transactions.write(out);
        proof {
            assert(Self::enc(self.model()) == (<BlockStatus as Codec>::enc(self.status.model()) + (<Felt as Codec>::enc(self.block_hash.model()) + (<Felt as Codec>::enc(self.parent_hash.model()) + (<u64 as Codec>::enc(self.block_number.model()) + (<Felt as Codec>::enc(self.new_root.model()) + (<u64 as Codec>::enc(self.timestamp.model()) + (<Felt as Codec>::enc(self.sequencer_address.model()) + <Vec<Transaction> as Codec>::enc(self.transactions.model())))))))));
            assert(out@ =~= old(out)@ + (<BlockStatus as Codec>::enc(self.status.model()) + (<Felt as Codec>::enc(self.block_hash.model()) + (<Felt as Codec>::enc(self.parent_hash.model()) + (<u64 as Codec>::enc(self.block_number.model()) + (<Felt as Codec>::enc(self.new_root.model()) + (<u64 as Codec>::enc(self.timestamp.model()) + (<Felt as Codec>::enc(self.sequencer_address.model()) + <Vec<Transaction> as Codec>::enc(self.transactions.model())))))))));
        }
    }

    fn read(b: &Vec<u8>, pos: usize) -> (r: Option<(BlockWithTxs, usize)>) {
        match <BlockWithTxsFields as Codec>::read(b, pos) {
            Some(((status, (block_hash, (parent_hash, (block_number, (new_root, (timestamp, (sequencer_address, transactions))))))), p)) => {
                proof {
                }
                Some((BlockWithTxs { status, block_hash, parent_hash, block_number, new_root, timestamp, sequencer_address, transactions }, p))
            },
            None => None,
        }
    }
}

/// A block that is still being assembled.
#[derive(Clone, Debug, PartialEq, Eq)]
pub struct PendingBlockWithTxs {
    pub transactions: Vec<Transaction>,
    pub timestamp: u64,
    pub sequencer_address: Felt,
    pub parent_hash: Felt,
}

/// The value of a [`PendingBlockWithTxs`].
pub struct PendingBlockModel {
    pub transactions: Seq<TransactionModel>,
    pub timestamp: u64,
    pub sequencer_address: Felt,
    pub parent_hash: Felt,
}

/// The fields of a [`PendingBlockWithTxs`] in encoding order.
pub type PendingBlockWithTxsFields = (Vec<Transaction>, (u64, (Felt, Felt)));

impl PendingBlockModel {
    pub open spec fn fields(self) -> <PendingBlockWithTxsFields as Codec>::Model {
        (self.transactions, (self.timestamp, (self.sequencer_address, self.parent_hash)))
    }

    pub open spec fn of_fields(t: <PendingBlockWithTxsFields as Codec>::Model) -> PendingBlockModel {
        PendingBlockModel { transactions: t.0, timestamp: t.1.0, sequencer_address: t.1.1.0, parent_hash: t.1.1.1 }
    }
}

impl Codec for PendingBlockWithTxs {
    type Model = PendingBlockModel;

    open spec fn model(&self) -> PendingBlockModel {
        PendingBlockModel { transactions: self.transactions.model(), timestamp: self.timestamp, sequencer_address: self.sequencer_address, parent_hash: self.parent_hash }
    }

    open spec fn wf(v: PendingBlockModel) -> bool {
        <PendingBlockWithTxsFields as Codec>::wf(v.fields())
    }

    open spec fn enc(v: PendingBlockModel) -> Seq<u8> {
        <PendingBlockWithTxsFields as Codec>::enc(v.fields())
    }

    open spec fn dec(s: Seq<u8>) -> Option<(PendingBlockModel, int)> {
        match <PendingBlockWithTxsFields as Codec>::dec(s) {
            Some((t, n)) => Some((PendingBlockModel::of_fields(t), n)),
            None => None,
        }
    }

    proof fn lemma_round_trip(v: PendingBlockModel, rest: Seq<u8>) {
        <PendingBlockWithTxsFields as Codec>::lemma_round_trip(v.fields(), rest);
    }

    proof fn lemma_dec_bounds(s: Seq<u8>) {
        <PendingBlockWithTxsFields as Codec>::lemma_dec_bounds(s);
    }

    fn write(&self, out: &mut Vec<u8>) {
        self.transactions.write(out);
        self.timestamp.write(out);
        self.sequencer_address.write(out);
        self.parent_hash.write(out);
        proof {
            assert(Self::enc(self.model()) == (<Vec<Transaction> as Codec>::enc(self.transactions.model()) + (<u64 as Codec>::enc(self.timestamp.model()) + (<Felt as Codec>::enc(self.sequencer_address.model()) + <Felt as Codec>::enc(self.parent_hash.model())))));
            assert(out@ =~= old(out)@ + (<Vec<Transaction> as Codec>::enc(self.transactions.model()) + (<u64 as Codec>::enc(self.timestamp.model()) + (<Felt as Codec>::enc(self.sequencer_address.model()) + <Felt as Codec>::enc(self.parent_hash.model())))));
        }
    }

    fn read(b: &Vec<u8>, pos: usize) -> (r: Option<(PendingBlockWithTxs, usize)>) {
        match <PendingBlockWithTxsFields as Codec>::read(b, pos) {
            Some(((transactions, (timestamp, (sequencer_address, parent_hash))), p)) => {
                proof {
                }
                Some((PendingBlockWithTxs { transactions, timestamp, sequencer_address, parent_hash }, p))
            },
            None => None,
        }
    }
}

/// A message sent to the settlement layer.
#[derive(Clone, Debug, PartialEq, Eq)]
pub struct MsgToL1 {
    pub to_address: Felt,
    pub payload: Vec<Felt>,
}

/// The value of a [`MsgToL1`].
pub struct MsgToL1Model {
    pub to_address: Felt,
    pub payload: Seq<Felt>,
}

/// The fields of a [`MsgToL1`] in encoding order.
pub type MsgToL1Fields = (Felt, Vec<Felt>);

impl MsgToL1Model {
    pub open spec fn fields(self) -> <MsgToL1Fields as Codec>::Model {
        (self.to_address, self.payload)
    }

    pub open spec fn of_fields(t: <MsgToL1Fields as Codec>::Model) -> MsgToL1Model {
        MsgToL1Model { to_address: t.0, payload: t.1 }
    }
}

impl Codec for MsgToL1 {
    type Model = MsgToL1Model;

    open spec fn model(&self) -> MsgToL1Model {
        MsgToL1Model { to_address: self.to_address, payload: self.payload@ }
    }

    open spec fn wf(v: MsgToL1Model) -> bool {
        <MsgToL1Fields as Codec>::wf(v.fields())
    }

    open spec fn enc(v: MsgToL1Model) -> Seq<u8> {
        <MsgToL1Fields as Codec>::enc(v.fields())
    }

    open spec fn dec(s: Seq<u8>) -> Option<(MsgToL1Model, int)> {
        match <MsgToL1Fields as Codec>::dec(s) {
            Some((t, n)) => Some((MsgToL1Model::of_fields(t), n)),
            None => None,
        }
    }

    proof fn lemma_round_trip(v: MsgToL1Model, rest: Seq<u8>) {
        <MsgToL1Fields as Codec>::lemma_round_trip(v.fields(), rest);
    }

    proof fn lemma_dec_bounds(s: Seq<u8>) {
        <MsgToL1Fields as Codec>::lemma_dec_bounds(s);
    }

    fn write(&self, out: &mut Vec<u8>) {
        self.to_address.write(out);
        self.payload.write(out);
        proof {
            lemma_felts_model(self.payload);
            assert(Self::enc(self.model()) == (<Felt as Codec>::enc(self.to_address.model()) + <Vec<Felt> as Codec>::enc(self.payload.model())));
            assert(out@ =~= old(out)@ + (<Felt as Codec>::enc(self.to_address.model()) + <Vec<Felt> as Codec>::enc(self.payload.model())));
        }
    }

    fn read(b: &Vec<u8>, pos: usize) -> (r: Option<(MsgToL1, usize)>) {
        match <MsgToL1Fields as Codec>::read(b, pos) {
            Some(((to_address, payload), p)) => {
                proof {
                    lemma_felts_model(payload);
                }
                Some((MsgToL1 { to_address, payload }, p))
            },
            None => None,
        }
    }
}

/// An event emitted by a contract.
#[derive(Clone, Debug, PartialEq, Eq)]
pub struct Event {
    pub from_address: Felt,
    pub keys: Vec<Felt>,
    pub data: Vec<Felt>,
}

/// The value of a [`Event`].
pub struct EventModel {
    pub from_address: Felt,
    pub keys: Seq<Felt>,
    pub data: Seq<Felt>,
}

/// The fields of a [`Event`] in encoding order.
pub type EventFields = (Felt, (Vec<Felt>, Vec<Felt>));

impl EventModel {
    pub open spec fn fields(self) -> <EventFields as Codec>::Model {
        (self.from_address, (self.keys, self.data))
    }

    pub open spec fn of_fields(t: <EventFields as Codec>::Model) -> EventModel {
        EventModel { from_address: t.0, keys: t.1.0, data: t.1.1 }
    }
}

impl Codec for Event {
    type Model = EventModel;

    open spec fn model(&self) -> EventModel {
        EventModel { from_address: self.from_address, keys: self.keys@, data: self.data@ }
    }

    open spec fn wf(v: EventModel) -> bool {
        <EventFields as Codec>::wf(v.fields())
    }

    open spec fn enc(v: EventModel) -> Seq<u8> {
        <EventFields as Codec>::enc(v.fields())
    }

    open spec fn dec(s: Seq<u8>) -> Option<(EventModel, int)> {
        match <EventFields as Codec>::dec(s) {
            Some((t, n)) => Some((EventModel::of_fields(t), n)),
            None => None,
        }
    }

    proof fn lemma_round_trip(v: EventModel, rest: Seq<u8>) {
        <EventFields as Codec>::lemma_round_trip(v.fields(), rest);
    }

    proof fn lemma_dec_bounds(s: Seq<u8>) {
        <EventFields as Codec>::lemma_dec_bounds(s);
    }

    fn write(&self, out: &mut Vec<u8>) {
        self.from_address.write(out);
        self.keys.write(out);
        self.data.write(out);
        proof {
            lemma_felts_model(self.keys);
            lemma_felts_model(self.data);
            assert(Self::enc(self.model()) == (<Felt as Codec>::enc(self.from_address.model()) + (<Vec<Felt> as Codec>::enc(self.keys.model()) + <Vec<Felt> as Codec>::enc(self.data.model()))));
            assert(out@ =~= old(out)@ + (<Felt as Codec>::enc(self.from_address.model()) + (<Vec<Felt> as Codec>::enc(self.keys.model()) + <Vec<Felt> as Codec>::enc(self.data.model()))));
        }
    }

    fn read(b: &Vec<u8>, pos: usize) -> (r: Option<(Event, usize)>) {
        match <EventFields as Codec>::read(b, pos) {
            Some(((from_address, (keys, data)), p)) => {
                proof {
                    lemma_felts_model(keys);
                    lemma_felts_model(data);
                }
                Some((Event { from_address, keys, data }, p))
            },
            None => None,
        }
    }
}

/// The receipt of an executed invocation.
#[derive(Clone, Debug, PartialEq, Eq)]
pub struct InvokeTransactionReceipt {
    pub transaction_hash: Felt,
    pub actual_fee: Felt,
    pub status: TransactionStatus,
    pub block_hash: Felt,
    pub block_number: u64,
    pub messages_sent: Vec<MsgToL1>,
    pub events: Vec<Event>,
}

/// The value of a [`InvokeTransactionReceipt`].
pub struct InvokeReceiptModel {
    pub transaction_hash: Felt,
    pub actual_fee: Felt,
    pub status: TransactionStatus,
    pub block_hash: Felt,
    pub block_number: u64,
    pub messages_sent: Seq<MsgToL1Model>,
    pub events: Seq<EventModel>,
}

/// The fields of a [`InvokeTransactionReceipt`] in encoding order.
pub type InvokeTransactionReceiptFields = (Felt, (Felt, (TransactionStatus, (Felt, (u64, (Vec<MsgToL1>, Vec<Event>))))));

impl InvokeReceiptModel {
    pub open spec fn fields(self) -> <InvokeTransactionReceiptFields as Codec>::Model {
        (self.transaction_hash, (self.actual_fee, (self.status, (self.block_hash, (self.block_number, (self.messages_sent, self.events))))))
    }

    pub open spec fn of_fields(t: <InvokeTransactionReceiptFields as Codec>::Model) -> InvokeReceiptModel {
        InvokeReceiptModel { transaction_hash: t.0, actual_fee: t.1.0, status: t.1.1.0, block_hash: t.1.1.1.0, block_number: t.1.1.1.1.0, messages_sent: t.1.1.1.1.1.0, events: t.1.1.1.1.1.1 }
    }
}

impl Codec for InvokeTransactionReceipt {
    type Model = InvokeReceiptModel;

    open spec fn model(&self) -> InvokeReceiptModel {
        InvokeReceiptModel { transaction_hash: self.transaction_hash, actual_fee: self.actual_fee, status: self.status, block_hash: self.block_hash, block_number: self.block_number, messages_sent: self.messages_sent.model(), events: self.events.model() }
    }

    open spec fn wf(v: InvokeReceiptModel) -> bool {
        <InvokeTransactionReceiptFields as Codec>::wf(v.fields())
    }

    open spec fn enc(v: InvokeReceiptModel) -> Seq<u8> {
        <InvokeTransactionReceiptFields as Codec>::enc(v.fields())
    }

    open spec fn dec(s: Seq<u8>) -> Option<(InvokeReceiptModel, int)> {
        match <InvokeTransactionReceiptFields as Codec>::dec(s) {
            Some((t, n)) => Some((InvokeReceiptModel::of_fields(t), n)),
            None => None,
        }
    }

    proof fn lemma_round_trip(v: InvokeReceiptModel, rest: Seq<u8>) {
        <InvokeTransactionReceiptFields as Codec>::lemma_round_trip(v.fields(), rest);
    }

    proof fn lemma_dec_bounds(s: Seq<u8>) {
        <InvokeTransactionReceiptFields as Codec>::lemma_dec_bounds(s);
    }

    fn write(&self, out: &mut Vec<u8>) {
        self.transaction_hash.write(out);
        self.actual_fee.write(out);
        self.status.write(out);
        self.block_hash.write(out);
        self.block_number.write(out);
        self.messages_sent.write(out);
        self.events.write(out);
        proof {
            assert(Self::enc(self.model()) == (<Felt as Codec>::enc(self.transaction_hash.model()) + (<Felt as Codec>::enc(self.actual_fee.model()) + (<TransactionStatus as Codec>::enc(self.status.model()) + (<Felt as Codec>::enc(self.block_hash.model()) + (<u64 as Codec>::enc(self.block_number.model()) + (<Vec<MsgToL1> as Codec>::enc(self.messages_sent.model()) + <Vec<Event> as Codec>::enc(self.events.model()))))))));
            assert(out@ =~= old(out)@ + (<Felt as Codec>::enc(self.transaction_hash.model()) + (<Felt as Codec>::enc(self.actual_fee.model()) + (<TransactionStatus as Codec>::enc(self.status.model()) + (<Felt as Codec>::enc(self.block_hash.model()) + (<u64 as Codec>::enc(self.block_number.model()) + (<Vec<MsgToL1> as Codec>::enc(self.messages_sent.model()) + <Vec<Event> as Codec>::enc(self.events.model()))))))));
        }
    }

    fn read(b: &Vec<u8>, pos: usize) -> (r: Option<(InvokeTransactionReceipt, usize)>) {
        match <InvokeTransactionReceiptFields as Codec>::read(b, pos) {
            Some(((transaction_hash, (actual_fee, (status, (block_hash, (block_number, (messages_sent, events)))))), p)) => {
                proof {
                }
                Some((InvokeTransactionReceipt { transaction_hash, actual_fee, status, block_hash, block_number, messages_sent, events }, p))
            },
            None => None,
        }
    }
}

/// The receipt of an invocation in a pending block.
#[derive(Clone, Debug, PartialEq, Eq)]
pub struct PendingInvokeTransactionReceipt {
    pub transaction_hash: Felt,
    pub actual_fee: Felt,
    pub messages_sent: Vec<MsgToL1>,
    pub events: Vec<Event>,
}

/// The value of a [`PendingInvokeTransactionReceipt`].
pub struct PendingReceiptModel {
    pub transaction_hash: Felt,
    pub actual_fee: Felt,
    pub messages_sent: Seq<MsgToL1Model>,
    pub events: Seq<EventModel>,
}

/// The fields of a [`PendingInvokeTransactionReceipt`] in encoding order.
pub type PendingInvokeTransactionReceiptFields = (Felt, (Felt, (Vec<MsgToL1>, Vec<Event>)));

impl PendingReceiptModel {
    pub open spec fn fields(self) -> <PendingInvokeTransactionReceiptFields as Codec>::Model {
        (self.transaction_hash, (self.actual_fee, (self.messages_sent, self.events)))
    }

    pub open spec fn of_fields(t: <PendingInvokeTransactionReceiptFields as Codec>::Model) -> PendingReceiptModel {
        PendingReceiptModel { transaction_hash: t.0, actual_fee: t.1.0, messages_sent: t.1.1.0, events: t.1.1.1 }
    }
}

impl Codec for PendingInvokeTransactionReceipt {
    type Model = PendingReceiptModel;

    open spec fn model(&self) -> PendingReceiptModel {
        PendingReceiptModel { transaction_hash: self.transaction_hash, actual_fee: self.actual_fee, messages_sent: self.messages_sent.model(), events: self.events.model() }
    }

    open spec fn wf(v: PendingReceiptModel) -> bool {
        <PendingInvokeTransactionReceiptFields as Codec>::wf(v.fields())
    }

    open spec fn enc(v: PendingReceiptModel) -> Seq<u8> {
        <PendingInvokeTransactionReceiptFields as Codec>::enc(v.fields())
    }

    open spec fn dec(s: Seq<u8>) -> Option<(PendingReceiptModel, int)> {
        match <PendingInvokeTransactionReceiptFields as Codec>::dec(s) {
            Some((t, n)) => Some((PendingReceiptModel::of_fields(t), n)),
            None => None,
        }
    }

    proof fn lemma_round_trip(v: PendingReceiptModel, rest: Seq<u8>) {
        <PendingInvokeTransactionReceiptFields as Codec>::lemma_round_trip(v.fields(), rest);
    }

    proof fn lemma_dec_bounds(s: Seq<u8>) {
        <PendingInvokeTransactionReceiptFields as Codec>::lemma_dec_bounds(s);
    }

    fn write(&self, out: &mut Vec<u8>) {
        self.transaction_hash.write(out);
        self.actual_fee.write(out);
        self.messages_sent.write(out);
        self.events.write(out);
        proof {
            assert(Self::enc(self.model()) == (<Felt as Codec>::enc(self.transaction_hash.model()) + (<Felt as Codec>::enc(self.actual_fee.model()) + (<Vec<MsgToL1> as Codec>::enc(self.messages_sent.model()) + <Vec<Event> as Codec>::enc(self.events.model())))));
            assert(out@ =~= old(out)@ + (<Felt as Codec>::enc(self.transaction_hash.model()) + (<Felt as Codec>::enc(self.actual_fee.model()) + (<Vec<MsgToL1> as Codec>::enc(self.messages_sent.model()) + <Vec<Event> as Codec>::enc(self.events.model())))));
        }
    }

    fn read(b: &Vec<u8>, pos: usize) -> (r: Option<(PendingInvokeTransactionReceipt, usize)>) {
        match <PendingInvokeTransactionReceiptFields as Codec>::read(b, pos) {
            Some(((transaction_hash, (actual_fee, (messages_sent, events))), p)) => {
                proof {
                }
                Some((PendingInvokeTransactionReceipt { transaction_hash, actual_fee, messages_sent, events }, p))
            },
            None => None,
        }
    }
}

impl Codec for Transaction {
    type Model = TransactionModel;

    open spec fn model(&self) -> TransactionModel {
        match self {
            Transaction::Invoke(InvokeTransaction::V1(t)) => TransactionModel::Invoke(t.model()),
            Transaction::Declare(t) => TransactionModel::Declare(t.model()),
            Transaction::DeployAccount(t) => TransactionModel::DeployAccount(t.model()),
        }
    }

    open spec fn wf(v: TransactionModel) -> bool {
        match v {
            TransactionModel::Invoke(t) => InvokeTransactionV1::wf(t),
            TransactionModel::Declare(t) => DeclareTransaction::wf(t),
            TransactionModel::DeployAccount(t) => DeployAccountTransaction::wf(t),
        }
    }

    open spec fn enc(v: TransactionModel) -> Seq<u8> {
        match v {
            TransactionModel::Invoke(t) => seq![0u8] + InvokeTransactionV1::enc(t),
            TransactionModel::Declare(t) => seq![1u8] + DeclareTransaction::enc(t),
            TransactionModel::DeployAccount(t) => seq![2u8] + DeployAccountTransaction::enc(t),
        }
    }

    open spec fn dec(s: Seq<u8>) -> Option<(TransactionModel, int)> {
        if s.len() >= 1 {
            if s[0] == 0u8 {
                match InvokeTransactionV1::dec(s.skip(1)) {
                    Some((t, n)) => Some((TransactionModel::Invoke(t), n + 1)),
                    None => None,
                }
            } else if s[0] == 1u8 {
                match DeclareTransaction::dec(s.skip(1)) {
                    Some((t, n)) => Some((TransactionModel::Declare(t), n + 1)),
                    None => None,
                }
            } else if s[0] == 2u8 {
                match DeployAccountTransaction::dec(s.skip(1)) {
                    Some((t, n)) => Some((TransactionModel::DeployAccount(t), n + 1)),
                    None => None,
                }
            } else {
                None
            }
        } else {
            None
        }
    }

    #[verifier::rlimit(40)]
    proof fn lemma_round_trip(v: TransactionModel, rest: Seq<u8>) {
        match v {
            TransactionModel::Invoke(t) => {
                lemma_tagged(0u8, InvokeTransactionV1::enc(t), rest);
                InvokeTransactionV1::lemma_round_trip(t, rest);
            },
            TransactionModel::Declare(t) => {
                lemma_tagged(1u8, DeclareTransaction::enc(t), rest);
                DeclareTransaction::lemma_round_trip(t, rest);
            },
            TransactionModel::DeployAccount(t) => {
                lemma_tagged(2u8, DeployAccountTransaction::enc(t), rest);
                DeployAccountTransaction::lemma_round_trip(t, rest);
            },
        }
    }

    proof fn lemma_dec_bounds(s: Seq<u8>) {
        if s.len() >= 1 {
            InvokeTransactionV1::lemma_dec_bounds(s.skip(1));
            DeclareTransaction::lemma_dec_bounds(s.skip(1));
            DeployAccountTransaction::lemma_dec_bounds(s.skip(1));
        }
    }

    #[verifier::rlimit(40)]
    fn write(&self, out: &mut Vec<u8>) {
        match self {
            Transaction::Invoke(InvokeTransaction::V1(t)) => {
                out.push(0u8);
                t.write(out);
                proof {
                    assert(out@ =~= old(out)@ + Self::enc(self.model()));
                }
            },
            Transaction::Declare(t) => {
                out.push(1u8);
                t.write(out);
                proof {
                    assert(out@ =~= old(out)@ + Self::enc(self.model()));
                }
            },
            Transaction::DeployAccount(t) => {
                out.push(2u8);
                t.write(out);
                proof {
                    assert(out@ =~= old(out)@ + Self::enc(self.model()));
                }
            },
        }
    }

    fn read(b: &Vec<u8>, pos: usize) -> (r: Option<(Transaction, usize)>) {
        if pos >= b.len() {
            return None;
        }
        let tag = b[pos];
        proof {
            lemma_tag_at(b@, pos as int);
        }
        if tag == 0u8 {
            match InvokeTransactionV1::read(b, pos + 1) {
                Some((t, p)) => Some((Transaction::Invoke(InvokeTransaction::V1(t)), p)),
                None => None,
            }
        } else if tag == 1u8 {
            match DeclareTransaction::read(b, pos + 1) {
                Some((t, p)) => Some((Transaction::Declare(t), p)),
                None => None,
            }
        } else if tag == 2u8 {
            match DeployAccountTransaction::read(b, pos + 1) {
                Some((t, p)) => Some((Transaction::DeployAccount(t), p)),
                None => None,
            }
        } else {
            None
        }
    }
}

impl Codec for MaybePendingBlockWithTxs {
    type Model = MaybePendingBlockModel;

    open spec fn model(&self) -> MaybePendingBlockModel {
        match self {
            MaybePendingBlockWithTxs::Block(t) => MaybePendingBlockModel::Block(t.model()),
            MaybePendingBlockWithTxs::PendingBlock(t) => MaybePendingBlockModel::PendingBlock(t.model()),
        }
    }

    open spec fn wf(v: MaybePendingBlockModel) -> bool {
        match v {
            MaybePendingBlockModel::Block(t) => BlockWithTxs::wf(t),
            MaybePendingBlockModel::PendingBlock(t) => PendingBlockWithTxs::wf(t),
        }
    }

    open spec fn enc(v: MaybePendingBlockModel) -> Seq<u8> {
        match v {
            MaybePendingBlockModel::Block(t) => seq![0u8] + BlockWithTxs::enc(t),
            MaybePendingBlockModel::PendingBlock(t) => seq![1u8] + PendingBlockWithTxs::enc(t),
        }
    }

    open spec fn dec(s: Seq<u8>) -> Option<(MaybePendingBlockModel, int)> {
        if s.len() >= 1 {
            if s[0] == 0u8 {
                match BlockWithTxs::dec(s.skip(1)) {
                    Some((t, n)) => Some((MaybePendingBlockModel::Block(t), n + 1)),
                    None => None,
                }
            } else if s[0] == 1u8 {
                match PendingBlockWithTxs::dec(s.skip(1)) {
                    Some((t, n)) => Some((MaybePendingBlockModel::PendingBlock(t), n + 1)),
                    None => None,
                }
            } else {
                None
            }
        } else {
            None
        }
    }

    proof fn lemma_round_trip(v: MaybePendingBlockModel, rest: Seq<u8>) {
        match v {
            MaybePendingBlockModel::Block(t) => {
                lemma_tagged(0u8, BlockWithTxs::enc(t), rest);
                BlockWithTxs::lemma_round_trip(t, rest);
            },
            MaybePendingBlockModel::PendingBlock(t) => {
                lemma_tagged(1u8, PendingBlockWithTxs::enc(t), rest);
                PendingBlockWithTxs::lemma_round_trip(t, rest);
            },
        }
    }

    proof fn lemma_dec_bounds(s: Seq<u8>) {
        if s.len() >= 1 {
            BlockWithTxs::lemma_dec_bounds(s.skip(1));
            PendingBlockWithTxs::lemma_dec_bounds(s.skip(1));
        }
    }

    #[verifier::rlimit(40)]
    fn write(&self, out: &mut Vec<u8>) {
        match self {
            MaybePendingBlockWithTxs::Block(t) => {
                out.push(0u8);
                t.write(out);
                proof {
                    assert(out@ =~= old(out)@ + Self::enc(self.model()));
                }
            },
            MaybePendingBlockWithTxs::PendingBlock(t) => {
                out.push(1u8);
                t.write(out);
                proof {
                    assert(out@ =~= old(out)@ + Self::enc(self.model()));
                }
            },
        }
    }

    fn read(b: &Vec<u8>, pos: usize) -> (r: Option<(MaybePendingBlockWithTxs, usize)>) {
        if pos >= b.len() {
            return None;
        }
        let tag = b[pos];
        proof {
            lemma_tag_at(b@, pos as int);
        }
        if tag == 0u8 {
            match BlockWithTxs::read(b, pos + 1) {
                Some((t, p)) => Some((MaybePendingBlockWithTxs::Block(t), p)),
                None => None,
            }
        } else if tag == 1u8 {
            match PendingBlockWithTxs::read(b, pos + 1) {
                Some((t, p)) => Some((MaybePendingBlockWithTxs::PendingBlock(t), p)),
                None => None,
            }
        } else {
            None
        }
    }
}

impl Codec for MaybePendingTransactionReceipt {
    type Model = MaybePendingReceiptModel;

    open spec fn model(&self) -> MaybePendingReceiptModel {
        match self {
            MaybePendingTransactionReceipt::Receipt(TransactionReceipt::Invoke(t)) => MaybePendingReceiptModel::Receipt(t.model()),
            MaybePendingTransactionReceipt::PendingReceipt(t) => MaybePendingReceiptModel::PendingReceipt(t.model()),
        }
    }

    open spec fn wf(v: MaybePendingReceiptModel) -> bool {
        match v {
            MaybePendingReceiptModel::Receipt(t) => InvokeTransactionReceipt::wf(t),
            MaybePendingReceiptModel::PendingReceipt(t) => PendingInvokeTransactionReceipt::wf(t),
        }
    }

    open spec fn enc(v: MaybePendingReceiptModel) -> Seq<u8> {
        match v {
            MaybePendingReceiptModel::Receipt(t) => seq![0u8] + InvokeTransactionReceipt::enc(t),
            MaybePendingReceiptModel::PendingReceipt(t) => seq![1u8] + PendingInvokeTransactionReceipt::enc(t),
        }
    }

    open spec fn dec(s: Seq<u8>) -> Option<(MaybePendingReceiptModel, int)> {
        if s.len() >= 1 {
            if s[0] == 0u8 {
                match InvokeTransactionReceipt::dec(s.skip(1)) {
                    Some((t, n)) => Some((MaybePendingReceiptModel::Receipt(t), n + 1)),
                    None => None,
                }
            } else if s[0] == 1u8 {
                match PendingInvokeTransactionReceipt::dec(s.skip(1)) {
                    Some((t, n)) => Some((MaybePendingReceiptModel::PendingReceipt(t), n + 1)),
                    None => None,
                }
            } else {
                None
            }
        } else {
            None
        }
    }

    proof fn lemma_round_trip(v: MaybePendingReceiptModel, rest: Seq<u8>) {
        match v {
            MaybePendingReceiptModel::Receipt(t) => {
                lemma_tagged(0u8, InvokeTransactionReceipt::enc(t), rest);
                InvokeTransactionReceipt::lemma_round_trip(t, rest);
            },
            MaybePendingReceiptModel::PendingReceipt(t) => {
                lemma_tagged(1u8, PendingInvokeTransactionReceipt::enc(t), rest);
                PendingInvokeTransactionReceipt::lemma_round_trip(t, rest);
            },
        }
    }

    proof fn lemma_dec_bounds(s: Seq<u8>) {
        if s.len() >= 1 {
            InvokeTransactionReceipt::lemma_dec_bounds(s.skip(1));
            PendingInvokeTransactionReceipt::lemma_dec_bounds(s.skip(1));
        }
    }

    #[verifier::rlimit(40)]
    fn write(&self, out: &mut Vec<u8>) {
        match self {
            MaybePendingTransactionReceipt::Receipt(TransactionReceipt::Invoke(t)) => {
                out.push(0u8);
                t.write(out);
                proof {
                    assert(out@ =~= old(out)@ + Self::enc(self.model()));
                }
            },
            MaybePendingTransactionReceipt::PendingReceipt(t) => {
                out.push(1u8);
                t.write(out);
                proof {
                    assert(out@ =~= old(out)@ + Self::enc(self.model()));
                }
            },
        }
    }

    fn read(b: &Vec<u8>, pos: usize) -> (r: Option<(MaybePendingTransactionReceipt, usize)>) {
        if pos >= b.len() {
            return None;
        }
        let tag = b[pos];
        proof {
            lemma_tag_at(b@, pos as int);
        }
        if tag == 0u8 {
            match InvokeTransactionReceipt::read(b, pos + 1) {
                Some((t, p)) => Some((MaybePendingTransactionReceipt::Receipt(TransactionReceipt::Invoke(t)), p)),
                None => None,
            }
        } else if tag == 1u8 {
            match PendingInvokeTransactionReceipt::read(b, pos + 1) {
                Some((t, p)) => Some((MaybePendingTransactionReceipt::PendingReceipt(t), p)),
                None => None,
            }
        } else {
            None
        }
    }
}

impl Codec for BlockStatus {
    type Model = BlockStatus;

    open spec fn model(&self) -> BlockStatus {
        *self
    }

    open spec fn wf(v: BlockStatus) -> bool {
        true
    }

    open spec fn enc(v: BlockStatus) -> Seq<u8> {
        match v {
            BlockStatus::Pending => seq![0u8],
            BlockStatus::AcceptedOnL2 => seq![1u8],
            BlockStatus::AcceptedOnL1 => seq![2u8],
            BlockStatus::Rejected => seq![3u8],
        }
    }

    open spec fn dec(s: Seq<u8>) -> Option<(BlockStatus, int)> {
        if s.len() >= 1 && s[0] == 0u8 {
            Some((BlockStatus::Pending, 1))
        } else if s.len() >= 1 && s[0] == 1u8 {
            Some((BlockStatus::AcceptedOnL2, 1))
        } else if s.len() >= 1 && s[0] == 2u8 {
            Some((BlockStatus::AcceptedOnL1, 1))
        } else if s.len() >= 1 && s[0] == 3u8 {
            Some((BlockStatus::Rejected, 1))
        } else {
            None
        }
    }

    proof fn lemma_round_trip(v: BlockStatus, rest: Seq<u8>) {
        assert((Self::enc(v) + rest)[0] == Self::enc(v)[0]);
    }

    proof fn lemma_dec_bounds(s: Seq<u8>) {
    }

    fn write(&self, out: &mut Vec<u8>) {
        let tag: u8 = match self {
            BlockStatus::Pending => 0,
            BlockStatus::AcceptedOnL2 => 1,
            BlockStatus::AcceptedOnL1 => 2,
            BlockStatus::Rejected => 3,
        };
        out.push(tag);
        assert(out@ =~= old(out)@ + Self::enc(self.model()));
    }

    fn read(b: &Vec<u8>, pos: usize) -> (r: Option<(BlockStatus, usize)>) {
        if pos >= b.len() {
            return None;
        }
        proof {
            lemma_tag_at(b@, pos as int);
        }
        let tag = b[pos];
        if tag == 0 {
            Some((BlockStatus::Pending, pos + 1))
        } else if tag == 1 {
            Some((BlockStatus::AcceptedOnL2, pos + 1))
        } else if tag == 2 {
            Some((BlockStatus::AcceptedOnL1, pos + 1))
        } else if tag == 3 {
            Some((BlockStatus::Rejected, pos + 1))
        } else {
            None
        }
    }
}

impl Codec for TransactionStatus {
    type Model = TransactionStatus;

    open spec fn model(&self) -> TransactionStatus {
        *self
    }

    open spec fn wf(v: TransactionStatus) -> bool {
        true
    }

    open spec fn enc(v: TransactionStatus) -> Seq<u8> {
        match v {
            TransactionStatus::Pending => seq![0u8],
            TransactionStatus::AcceptedOnL2 => seq![1u8],
            TransactionStatus::AcceptedOnL1 => seq![2u8],
            TransactionStatus::Rejected => seq![3u8],
        }
    }

    open spec fn dec(s: Seq<u8>) -> Option<(TransactionStatus, int)> {
        if s.len() >= 1 && s[0] == 0u8 {
            Some((TransactionStatus::Pending, 1))
        } else if s.len() >= 1 && s[0] == 1u8 {
            Some((TransactionStatus::AcceptedOnL2, 1))
        } else if s.len() >= 1 && s[0] == 2u8 {
            Some((TransactionStatus::AcceptedOnL1, 1))
        } else if s.len() >= 1 && s[0] == 3u8 {
            Some((TransactionStatus::Rejected, 1))
        } else {
            None
        }
    }

    proof fn lemma_round_trip(v: TransactionStatus, rest: Seq<u8>) {
        assert((Self::enc(v) + rest)[0] == Self::enc(v)[0]);
    }

    proof fn lemma_dec_bounds(s: Seq<u8>) {
    }

    fn write(&self, out: &mut Vec<u8>) {
        let tag: u8 = match self {
            TransactionStatus::Pending => 0,
            TransactionStatus::AcceptedOnL2 => 1,
            TransactionStatus::AcceptedOnL1 => 2,
            TransactionStatus::Rejected => 3,
        };
        out.push(tag);
        assert(out@ =~= old(out)@ + Self::enc(self.model()));
    }

    fn read(b: &Vec<u8>, pos: usize) -> (r: Option<(TransactionStatus, usize)>) {
        if pos >= b.len() {
            return None;
        }
        proof {
            lemma_tag_at(b@, pos as int);
        }
        let tag = b[pos];
        if tag == 0 {
            Some((TransactionStatus::Pending, pos + 1))
        } else if tag == 1 {
            Some((TransactionStatus::AcceptedOnL2, pos + 1))
        } else if tag == 2 {
            Some((TransactionStatus::AcceptedOnL1, pos + 1))
        } else if tag == 3 {
            Some((TransactionStatus::Rejected, pos + 1))
        } else {
            None
        }
    }
}

impl Transaction {
    /// The canonical bytes of the transaction.
    pub fn as_bytes(&self) -> (r: Vec<u8>)
        ensures
            r@ == Transaction::enc(self.model()),
    {
        encode(self)
    }

    /// The transaction that `bytes` encode, where they encode one and
    /// nothing more.
    pub fn from_bytes(bytes: &Vec<u8>) -> (r: Option<Transaction>)
        ensures
            opt_model(r) == decode_all::<Transaction>(bytes@),
    {
        decode(bytes)
    }

    /// A version-1 invocation.
    pub fn new_invoke(
        transaction_hash: Felt,
        max_fee: Felt,
        signature: Vec<Felt>,
        nonce: Felt,
        sender_address: Felt,
        calldata: Vec<Felt>,
    ) -> (r: Transaction)
        ensures
            r.model() == TransactionModel::Invoke(
                InvokeV1Model {
                    transaction_hash,
                    max_fee,
                    signature: signature@,
                    nonce,
                    sender_address,
                    calldata: calldata@,
                },
            ),
    {
        Transaction::Invoke(
            InvokeTransaction::V1(
                InvokeTransactionV1 {
                    transaction_hash,
                    max_fee,
                    signature,
                    nonce,
                    sender_address,
                    calldata,
                },
            ),
        )
    }
}

impl MaybePendingBlockWithTxs {
    /// The canonical bytes of the block.
    pub fn as_bytes(&self) -> (r: Vec<u8>)
        ensures
            r@ == MaybePendingBlockWithTxs::enc(self.model()),
    {
        encode(self)
    }

    /// The block that `bytes` encode, where they encode one and nothing more.
    pub fn from_bytes(bytes: &Vec<u8>) -> (r: Option<MaybePendingBlockWithTxs>)
        ensures
            opt_model(r) == decode_all::<MaybePendingBlockWithTxs>(bytes@),
    {
        decode(bytes)
    }
}

impl Default for BlockWithTxs {
    /// The pending block at height 0 with zero hashes and no transactions.
    fn default() -> (r: BlockWithTxs)
        ensures
            r.model() == (BlockModel {
                status: BlockStatus::Pending,
                block_hash: Felt::spec_zero(),
                parent_hash: Felt::spec_zero(),
                block_number: 0,
                new_root: Felt::spec_zero(),
                timestamp: 0,
                sequencer_address: Felt::spec_zero(),
                transactions: Seq::empty(),
            }),
    {
        let transactions: Vec<Transaction> = Vec::new();
        let r = BlockWithTxs {
            status: BlockStatus::Pending,
            block_hash: Felt::zero(),
            parent_hash: Felt::zero(),
            block_number: 0,
            new_root: Felt::zero(),
            timestamp: 0,
            sequencer_address: Felt::zero(),
            transactions,
        };
        assert(r.transactions.model() =~= Seq::<TransactionModel>::empty());
        r
    }
}

} // verus!
