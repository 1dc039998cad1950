//! The multi-index store: five byte tables behind an engine, and the typed
//! façade that encodes keys and values and keeps the height counter.
use crate::bytes::{be8, push_be8, read_be8, u64_of_be8};
use crate::codec::{decode, decode_all, encode, opt_model, Codec};
use crate::felt::Felt;
use crate::types::{
    InvokeTransaction, MaybePendingBlockModel, MaybePendingBlockWithTxs, MaybePendingReceiptModel,
    MaybePendingTransactionReceipt, Transaction, TransactionModel, TransactionReceipt,
};
use vstd::prelude::*;

verus! {

/// The five indexes of the store.
#[derive(Clone, Copy, Debug, PartialEq, Eq, Hash, Structural)]
pub enum Index {
    Transactions,
    BlocksByHash,
    BlocksByHeight,
    Values,
    TransactionReceipts,
}

/// How a store operation failed.
#[derive(Clone, Copy, Debug, PartialEq, Eq, Hash, Structural)]
pub enum StoreError {
    /// The engine could not read or write.
    Backend,
    /// The engine keeps the first value written under a key.
    Duplicate,
    /// A stored value does not decode.
    Corrupt,
    /// Only version-1 invocations, blocks and receipts of invocations are stored.
    Unsupported,
}

/// Which engine a store runs on.
#[derive(Clone, Copy, Debug, PartialEq, Eq, Hash, Structural)]
pub enum EngineType {
    RocksDB,
    Sled,
    InMemory,
}

/// The contents of the five indexes.
pub struct Tables {
    pub transactions: Map<Seq<u8>, Seq<u8>>,
    pub blocks_by_hash: Map<Seq<u8>, Seq<u8>>,
    pub blocks_by_height: Map<Seq<u8>, Seq<u8>>,
    pub values: Map<Seq<u8>, Seq<u8>>,
    pub receipts: Map<Seq<u8>, Seq<u8>>,
}

impl Tables {
    pub open spec fn empty() -> Tables {
        Tables {
            transactions: Map::empty(),
            blocks_by_hash: Map::empty(),
            blocks_by_height: Map::empty(),
            values: Map::empty(),
            receipts: Map::empty(),
        }
    }

    pub open spec fn table(self, index: Index) -> Map<Seq<u8>, Seq<u8>> {
        match index {
            Index::Transactions => self.transactions,
            Index::BlocksByHash => self.blocks_by_hash,
            Index::BlocksByHeight => self.blocks_by_height,
            Index::Values => self.values,
            Index::TransactionReceipts => self.receipts,
        }
    }

    /// The tables after `value` is written under `key` in one index.
    pub open spec fn put(self, index: Index, key: Seq<u8>, value: Seq<u8>) -> Tables {
        match index {
            Index::Transactions => Tables {
                transactions: self.transactions.insert(key, value),
                ..self
            },
            Index::BlocksByHash => Tables {
                blocks_by_hash: self.blocks_by_hash.insert(key, value),
                ..self
            },
            Index::BlocksByHeight => Tables {
                blocks_by_height: self.blocks_by_height.insert(key, value),
                ..self
            },
            Index::Values => Tables { values: self.values.insert(key, value), ..self },
            Index::TransactionReceipts => Tables {
                receipts: self.receipts.insert(key, value),
                ..self
            },
        }
    }
}

/// The value stored under `key`, if any.
pub open spec fn entry(m: Map<Seq<u8>, Seq<u8>>, key: Seq<u8>) -> Option<Seq<u8>> {
    if m.contains_key(key) {
        Some(m[key])
    } else {
        None
    }
}

/// What a typed lookup finds under `key`: `Some(None)` where nothing is
/// stored, `Some(Some(v))` where `v` is stored, `None` where the stored bytes
/// do not decode.
pub open spec fn decoded_entry<T: Codec>(m: Map<Seq<u8>, Seq<u8>>, key: Seq<u8>) -> Option<
    Option<T::Model>,
> {
    match entry(m, key) {
        None => Some(None),
        Some(b) => match decode_all::<T>(b) {
            Some(v) => Some(Some(v)),
            None => None,
        },
    }
}

/// An engine: five byte tables with per-call writes.
///
/// An engine that does not describe its tables, such as one that lives on
/// disk outside this library, is promised nothing: its reads and writes may
/// fail, and what they do to its tables is not known here.
pub trait StoreEngine {
    open spec fn tables(&self) -> Tables {
        arbitrary()
    }

    /// Reads always succeed.
    open spec fn reliable(&self) -> bool {
        false
    }

    /// Every write succeeds.
    open spec fn writable(&self) -> bool {
        false
    }

    /// Writes `value` under `key`; a failed write changes nothing.
    fn put(&mut self, index: Index, key: Vec<u8>, value: Vec<u8>) -> (r: Result<(), StoreError>)
        ensures
            r is Ok ==> final(self).tables() == old(self).tables().put(index, key@, value@),
            r is Err ==> final(self).tables() == old(self).tables(),
            old(self).writable() ==> r is Ok,
            final(self).reliable() == old(self).reliable(),
            final(self).writable() == old(self).writable(),
    ;

    /// Reads the value under `key`.
    fn get(&self, index: Index, key: &Vec<u8>) -> (r: Result<Option<Vec<u8>>, StoreError>)
        ensures
            r matches Ok(o) ==> match o {
                Some(b) => entry(self.tables().table(index), key@) == Some(b@),
                None => entry(self.tables().table(index), key@) is None,
            },
            self.reliable() ==> r is Ok,
    ;
}

/// A byte table held in memory: a list of entries in which the last entry
/// for a key holds its value.
pub struct KvTable {
    entries: Vec<(Vec<u8>, Vec<u8>)>,
}

/// The map that a list of entries stands for.
pub open spec fn map_of(entries: Seq<(Vec<u8>, Vec<u8>)>) -> Map<Seq<u8>, Seq<u8>>
    decreases entries.len(),
{
    if entries.len() == 0 {
        Map::empty()
    } else {
        let last = entries.last();
        map_of(entries.drop_last()).insert(last.0@, last.1@)
    }
}

/// Rewriting the last entry of a key is writing the key.
proof fn lemma_map_of_update(entries: Seq<(Vec<u8>, Vec<u8>)>, i: int, e: (Vec<u8>, Vec<u8>))
    requires
        0 <= i < entries.len(),
        entries[i].0@ == e.0@,
        forall|j: int| i < j < entries.len() ==> entries[j].0@ != e.0@,
    ensures
        map_of(entries.update(i, e)) == map_of(entries).insert(e.0@, e.1@),
    decreases entries.len(),
{
    let u = entries.update(i, e);
    if i == entries.len() - 1 {
        assert(u.drop_last() =~= entries.drop_last());
        assert(map_of(u) =~= map_of(entries).insert(e.0@, e.1@));
    } else {
        assert(u.drop_last() =~= entries.drop_last().update(i, e));
        lemma_map_of_update(entries.drop_last(), i, e);
        assert(map_of(u) =~= map_of(entries).insert(e.0@, e.1@));
    }
}

/// Whether two byte strings are equal.
fn same_bytes(a: &Vec<u8>, b: &Vec<u8>) -> (r: bool)
    ensures
        r == (a@ == b@),
{
    if a.len() != b.len() {
        return false;
    }
    let mut i: usize = 0;
    while i < a.len()
        invariant
            a.len() == b.len(),
            i <= a.len(),
            forall|j: int| 0 <= j < i ==> a@[j] == b@[j],
        decreases a.len() - i,
    {
        if a[i] != b[i] {
            return false;
        }
        i = i + 1;
    }
    assert(a@ =~= b@);
    true
}

/// Copies a byte string.
fn copy_bytes(a: &Vec<u8>) -> (r: Vec<u8>)
    ensures
        r@ == a@,
{
    let mut out: Vec<u8> = Vec::new();
    let mut i: usize = 0;
    while i < a.len()
        invariant
            i <= a.len(),
            out@ == a@.take(i as int),
        decreases a.len() - i,
    {
        out.push(a[i]);
        i = i + 1;
        assert(out@ =~= a@.take(i as int));
    }
    assert(a@.take(a.len() as int) =~= a@);
    out
}

impl KvTable {
    pub closed spec fn view(&self) -> Map<Seq<u8>, Seq<u8>> {
        map_of(self.entries@)
    }

    pub fn new() -> (r: KvTable)
        ensures
            r.view() == Map::<Seq<u8>, Seq<u8>>::empty(),
    {
        KvTable { entries: Vec::new() }
    }

    /// The position of the entry that holds `key`.
    fn find(&self, key: &Vec<u8>) -> (r: Option<usize>)
        ensures
            match r {
                Some(i) => i < self.entries.len() && self.entries@[i as int].0@ == key@ && (forall|
                    j: int,
                | i < j < self.entries.len() ==> self.entries@[j].0@ != key@) && self.view()[key@]
                    == self.entries@[i as int].1@ && self.view().contains_key(key@),
                None => !self.view().contains_key(key@),
            },
    {
        let mut i: usize = self.entries.len();
        assert(self.entries@.take(i as int) =~= self.entries@);
        while i > 0
            invariant
                i <= self.entries.len(),
                forall|j: int| i <= j < self.entries.len() ==> self.entries@[j].0@ != key@,
                entry(map_of(self.entries@), key@) == entry(
                    map_of(self.entries@.take(i as int)),
                    key@,
                ),
            decreases i,
        {
            proof {
                assert(self.entries@.take(i as int).drop_last() =~= self.entries@.take(i - 1));
            }
            if same_bytes(&self.entries[i - 1].0, key) {
                return Some(i - 1);
            }
            i = i - 1;
        }
        None
    }

    /// The value under `key`.
    pub fn get(&self, key: &Vec<u8>) -> (r: Option<Vec<u8>>)
        ensures
            match r {
                Some(b) => entry(self.view(), key@) == Some(b@),
                None => entry(self.view(), key@) is None,
            },
    {
        match self.find(key) {
            Some(i) => Some(copy_bytes(&self.entries[i].1)),
            None => None,
        }
    }

    /// Writes `value` under `key`, over what was there.
    pub fn insert(&mut self, key: Vec<u8>, value: Vec<u8>)
        ensures
            final(self).view() == old(self).view().insert(key@, value@),
    {
        match self.find(&key) {
            Some(i) => {
                proof {
                    lemma_map_of_update(self.entries@, i as int, (key, value));
                }
                self.entries.set(i, (key, value));
            },
            None => {
                self.entries.push((key, value));
                proof {
                    assert(self.entries@.drop_last() =~= old(self).entries@);
                }
            },
        }
    }
}

/// The engine that keeps its five tables in memory. It never fails, and a
/// write replaces what was under its key.
pub struct InMemoryStore {
    transactions: KvTable,
    blocks_by_hash: KvTable,
    blocks_by_height: KvTable,
    values: KvTable,
    receipts: KvTable,
}

impl InMemoryStore {
    pub fn new() -> (r: InMemoryStore)
        ensures
            r.tables() == Tables::empty(),
    {
        InMemoryStore {
            transactions: KvTable::new(),
            blocks_by_hash: KvTable::new(),
            blocks_by_height: KvTable::new(),
            values: KvTable::new(),
            receipts: KvTable::new(),
        }
    }

    fn table(&self, index: Index) -> (r: &KvTable)
        ensures
            r.view() == self.tables().table(index),
    {
        match index {
            Index::Transactions => &self.transactions,
            Index::BlocksByHash => &self.blocks_by_hash,
            Index::BlocksByHeight => &self.blocks_by_height,
            Index::Values => &self.values,
            Index::TransactionReceipts => &self.receipts,
        }
    }
}

impl StoreEngine for InMemoryStore {
    closed spec fn tables(&self) -> Tables {
        Tables {
            transactions: self.transactions.view(),
            blocks_by_hash: self.blocks_by_hash.view(),
            blocks_by_height: self.blocks_by_height.view(),
            values: self.values.view(),
            receipts: self.receipts.view(),
        }
    }

    open spec fn reliable(&self) -> bool {
        true
    }

    open spec fn writable(&self) -> bool {
        true
    }

    fn put(&mut self, index: Index, key: Vec<u8>, value: Vec<u8>) -> (r: Result<(), StoreError>) {
        match index {
            Index::Transactions => self.transactions.insert(key, value),
            Index::BlocksByHash => self.blocks_by_hash.insert(key, value),
            Index::BlocksByHeight => self.blocks_by_height.insert(key, value),
            Index::Values => self.values.insert(key, value),
            Index::TransactionReceipts => self.receipts.insert(key, value),
        }
        Ok(())
    }

    fn get(&self, index: Index, key: &Vec<u8>) -> (r: Result<Option<Vec<u8>>, StoreError>) {
        Ok(self.table(index).get(key))
    }
}

/// The key of the height counter: the bytes of `height`.
pub open spec fn height_key() -> Seq<u8> {
    seq![104u8, 101u8, 105u8, 103u8, 104u8, 116u8]
}

fn height_key_bytes() -> (r: Vec<u8>)
    ensures
        r@ == height_key(),
{
    let r = vec![104u8, 101u8, 105u8, 103u8, 104u8, 116u8];
    assert(r@ =~= height_key());
    r
}

pub fn be8_bytes(v: u64) -> (r: Vec<u8>)
    ensures
        r@ == be8(v),
{
    let mut out: Vec<u8> = Vec::new();
    push_be8(&mut out, v);
    assert(out@ =~= be8(v));
    out
}

/// The height that the counter holds: the first eight bytes of its value.
pub open spec fn stored_height(t: Tables) -> Option<u64> {
    match entry(t.values, height_key()) {
        Some(b) => if b.len() >= 8 {
            Some(u64_of_be8(b))
        } else {
            None
        },
        None => None,
    }
}

/// The height that a request for height `h` reads: height 0 stands for the
/// first block.
pub open spec fn height_read(h: u64) -> u64 {
    if h == 0 {
        1
    } else {
        h
    }
}

/// The key of a transaction or receipt, and of a block by hash.
pub open spec fn felt_key(f: Felt) -> Seq<u8> {
    f.be_bytes()
}

/// The key of a block by height.
pub open spec fn height_index_key(h: u64) -> Seq<u8> {
    be8(h)
}

/// The store: typed operations over an engine's byte tables.
pub struct Store<E: StoreEngine> {
    pub engine: E,
}

impl<E: StoreEngine> Store<E> {
    pub open spec fn tables(&self) -> Tables {
        self.engine.tables()
    }

    /// Opens a store on an engine, and starts the height counter at 0 where
    /// the engine holds none.
    pub fn new(engine: E) -> (r: Store<E>)
        ensures
            stored_height(engine.tables()) is Some && engine.reliable() ==> r.tables()
                == engine.tables(),
            r.tables() == engine.tables() || r.tables() == engine.tables().put(
                Index::Values,
                height_key(),
                be8(0),
            ),
            stored_height(engine.tables()) is None && engine.writable() ==> stored_height(
                r.tables(),
            ) == Some(0u64),
            r.engine.reliable() == engine.reliable(),
            r.engine.writable() == engine.writable(),
    {
        let mut store = Store { engine };
        if store.get_height().is_none() {
            let _ = store.set_height(0);
            proof {
                crate::bytes::lemma_be8_round_trip(0);
            }
        }
        store
    }

    /// Writes the height counter.
    pub fn set_height(&mut self, value: u64) -> (r: Result<(), StoreError>)
        ensures
            r is Ok ==> final(self).tables() == old(self).tables().put(
                Index::Values,
                height_key(),
                be8(value),
            ),
            r is Err ==> final(self).tables() == old(self).tables(),
            old(self).engine.writable() ==> r is Ok,
            final(self).engine.reliable() == old(self).engine.reliable(),
            final(self).engine.writable() == old(self).engine.writable(),
    {
        self.engine.put(Index::Values, height_key_bytes(), be8_bytes(value))
    }

    /// Reads the height counter; `None` where it is absent, too short, or
    /// cannot be read.
    pub fn get_height(&self) -> (r: Option<u64>)
        ensures
            r matches Some(h) ==> stored_height(self.tables()) == Some(h),
            self.engine.reliable() ==> r == stored_height(self.tables()),
    {
        match self.engine.get(Index::Values, &height_key_bytes()) {
            Ok(Some(b)) => if b.len() >= 8 {
                let h = read_be8(&b, 0);
                assert(b@.subrange(0, 8) =~= b@.subrange(0, 8));
                proof {
                    assert(u64_of_be8(b@.subrange(0, 8)) == u64_of_be8(b@));
                }
                Some(h)
            } else {
                None
            },
            _ => None,
        }
    }

    /// Reads and decodes the value under `key` in `index`: `Ok(None)` where
    /// nothing is stored, `Corrupt` where the stored bytes do not decode.
    pub fn get_decoded<T: Codec>(&self, index: Index, key: Vec<u8>) -> (r: Result<Option<T>, StoreError>)
        ensures
            r matches Ok(o) ==> decoded_entry::<T>(self.tables().table(index), key@) == Some(
                opt_model(o),
            ),
            self.engine.reliable() ==> (r is Ok <==> decoded_entry::<T>(
                self.tables().table(index),
                key@,
            ) is Some),
    {
        match self.engine.get(index, &key) {
            Ok(Some(b)) => match decode::<T>(&b) {
                Some(x) => Ok(Some(x)),
                None => Err(StoreError::Corrupt),
            },
            Ok(None) => Ok(None),
            Err(e) => Err(e),
        }
    }

    /// Stores a version-1 invocation under its hash.
    pub fn add_transaction(&mut self, transaction: Transaction) -> (r: Result<(), StoreError>)
        ensures
            match transaction.model() {
                TransactionModel::Invoke(m) => {
                    &&& r is Ok ==> final(self).tables() == old(self).tables().put(
                        Index::Transactions,
                        felt_key(m.transaction_hash),
                        Transaction::enc(transaction.model()),
                    )
                    &&& r is Err ==> final(self).tables() == old(self).tables()
                    &&& old(self).engine.writable() ==> r is Ok
                },
                _ => r == Err::<(), StoreError>(StoreError::Unsupported) && final(self).tables()
                    == old(self).tables(),
            },
            final(self).engine.reliable() == old(self).engine.reliable(),
            final(self).engine.writable() == old(self).engine.writable(),
    {
        self.put_transaction(&transaction)
    }

    /// Stores a version-1 invocation under its hash, from a reference.
    pub fn put_transaction(&mut self, transaction: &Transaction) -> (r: Result<(), StoreError>)
        ensures
            match transaction.model() {
                TransactionModel::Invoke(m) => {
                    &&& r is Ok ==> final(self).tables() == old(self).tables().put(
                        Index::Transactions,
                        felt_key(m.transaction_hash),
                        Transaction::enc(transaction.model()),
                    )
                    &&& r is Err ==> final(self).tables() == old(self).tables()
                    &&& old(self).engine.writable() ==> r is Ok
                },
                _ => r == Err::<(), StoreError>(StoreError::Unsupported) && final(self).tables()
                    == old(self).tables(),
            },
            final(self).engine.reliable() == old(self).engine.reliable(),
            final(self).engine.writable() == old(self).engine.writable(),
    {
        match transaction {
            Transaction::Invoke(InvokeTransaction::V1(invoke)) => {
                let key = invoke.transaction_hash.to_be_bytes();
                let value = encode(transaction);
                self.engine.put(Index::Transactions, key, value)
            },
            _ => Err(StoreError::Unsupported),
        }
    }

    /// The transaction stored under a hash.
    pub fn get_transaction(&self, tx_hash: Felt) -> (r: Result<Option<Transaction>, StoreError>)
        ensures
            r matches Ok(o) ==> decoded_entry::<Transaction>(
                self.tables().transactions,
                felt_key(tx_hash),
            ) == Some(opt_model(o)),
            self.engine.reliable() ==> (r is Ok <==> decoded_entry::<Transaction>(
                self.tables().transactions,
                felt_key(tx_hash),
            ) is Some),
    {
        self.get_decoded(Index::Transactions, tx_hash.to_be_bytes())
    }

    /// Stores a block under its hash and under its height. Both writes are
    /// made; the result is an error where either failed.
    pub fn add_block(&mut self, block: MaybePendingBlockWithTxs) -> (r: Result<(), StoreError>)
        ensures
            match block.model() {
                MaybePendingBlockModel::Block(m) => {
                    let bytes = MaybePendingBlockWithTxs::enc(block.model());
                    let by_hash = old(self).tables().put(
                        Index::BlocksByHash,
                        felt_key(m.block_hash),
                        bytes,
                    );
                    &&& r is Ok ==> final(self).tables() == by_hash.put(
                        Index::BlocksByHeight,
                        height_index_key(m.block_number),
                        bytes,
                    )
                    &&& old(self).engine.writable() ==> r is Ok
                },
                _ => r == Err::<(), StoreError>(StoreError::Unsupported) && final(self).tables()
                    == old(self).tables(),
            },
            final(self).engine.reliable() == old(self).engine.reliable(),
            final(self).engine.writable() == old(self).engine.writable(),
    {
        match &block {
            MaybePendingBlockWithTxs::Block(b) => {
                let bytes = encode(&block);
                let copy = copy_bytes(&bytes);
                let by_hash = self.engine.put(Index::BlocksByHash, b.block_hash.to_be_bytes(), bytes);
                let by_height = self.engine.put(
                    Index::BlocksByHeight,
                    be8_bytes(b.block_number),
                    copy,
                );
                match (by_hash, by_height) {
                    (Ok(()), Ok(())) => Ok(()),
                    (Err(e), _) => Err(e),
                    (_, Err(e)) => Err(e),
                }
            },
            _ => Err(StoreError::Unsupported),
        }
    }

    /// The block at a height; height 0 reads the first block.
    pub fn get_block_by_height(&self, block_height: u64) -> (r: Result<
        Option<MaybePendingBlockWithTxs>,
        StoreError,
    >)
        ensures
            r matches Ok(o) ==> decoded_entry::<MaybePendingBlockWithTxs>(
                self.tables().blocks_by_height,
                height_index_key(height_read(block_height)),
            ) == Some(opt_model(o)),
            self.engine.reliable() ==> (r is Ok <==> decoded_entry::<MaybePendingBlockWithTxs>(
                self.tables().blocks_by_height,
                height_index_key(height_read(block_height)),
            ) is Some),
    {
        let height = if block_height == 0 {
            1
        } else {
            block_height
        };
        self.get_decoded(Index::BlocksByHeight, be8_bytes(height))
    }

    /// The block with a hash.
    pub fn get_block_by_hash(&self, block_hash: Felt) -> (r: Result<
        Option<MaybePendingBlockWithTxs>,
        StoreError,
    >)
        ensures
            r matches Ok(o) ==> decoded_entry::<MaybePendingBlockWithTxs>(
                self.tables().blocks_by_hash,
                felt_key(block_hash),
            ) == Some(opt_model(o)),
            self.engine.reliable() ==> (r is Ok <==> decoded_entry::<MaybePendingBlockWithTxs>(
                self.tables().blocks_by_hash,
                felt_key(block_hash),
            ) is Some),
    {
        self.get_decoded(Index::BlocksByHash, block_hash.to_be_bytes())
    }

    /// The block at the height that the counter holds.
    pub fn get_latest_block(&self) -> (r: Result<Option<MaybePendingBlockWithTxs>, StoreError>)
        ensures
            self.engine.reliable() ==> match stored_height(self.tables()) {
                Some(h) => (r is Ok <==> decoded_entry::<MaybePendingBlockWithTxs>(
                    self.tables().blocks_by_height,
                    height_index_key(height_read(h)),
                ) is Some) && (r matches Ok(o) ==> decoded_entry::<MaybePendingBlockWithTxs>(
                    self.tables().blocks_by_height,
                    height_index_key(height_read(h)),
                ) == Some(opt_model(o))),
                None => r == Ok::<Option<MaybePendingBlockWithTxs>, StoreError>(None),
            },
    {
        match self.get_height() {
            Some(h) => self.get_block_by_height(h),
            None => Ok(None),
        }
    }

    /// Stores the receipt of an invocation under its transaction's hash.
    pub fn add_transaction_receipt(&mut self, transaction_receipt: MaybePendingTransactionReceipt) -> (r:
        Result<(), StoreError>)
        ensures
            match transaction_receipt.model() {
                MaybePendingReceiptModel::Receipt(m) => {
                    &&& r is Ok ==> final(self).tables() == old(self).tables().put(
                        Index::TransactionReceipts,
                        felt_key(m.transaction_hash),
                        MaybePendingTransactionReceipt::enc(transaction_receipt.model()),
                    )
                    &&& r is Err ==> final(self).tables() == old(self).tables()
                    &&& old(self).engine.writable() ==> r is Ok
                },
                _ => r == Err::<(), StoreError>(StoreError::Unsupported) && final(self).tables()
                    == old(self).tables(),
            },
            final(self).engine.reliable() == old(self).engine.reliable(),
            final(self).engine.writable() == old(self).engine.writable(),
    {
        match &transaction_receipt {
            MaybePendingTransactionReceipt::Receipt(TransactionReceipt::Invoke(receipt)) => {
                let key = receipt.transaction_hash.to_be_bytes();
                let value = encode(&transaction_receipt);
                self.engine.put(Index::TransactionReceipts, key, value)
            },
            _ => Err(StoreError::Unsupported),
        }
    }

    /// The receipt stored under a transaction's hash.
    pub fn get_transaction_receipt(&self, transaction_id: Felt) -> (r: Result<
        Option<MaybePendingTransactionReceipt>,
        StoreError,
    >)
        ensures
            r matches Ok(o) ==> decoded_entry::<MaybePendingTransactionReceipt>(
                self.tables().receipts,
                felt_key(transaction_id),
            ) == Some(opt_model(o)),
            self.engine.reliable() ==> (r is Ok <==> decoded_entry::<MaybePendingTransactionReceipt>(
                self.tables().receipts,
                felt_key(transaction_id),
            ) is Some),
    {
        self.get_decoded(Index::TransactionReceipts, transaction_id.to_be_bytes())
    }
}

} // verus!
