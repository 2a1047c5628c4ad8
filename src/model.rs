//! The indexer's data model: raw blocks as fetched from a node, and the
//! compact records built from them.
use vstd::prelude::*;

verus! {

/// A wallet: an address and the id the registry gave it.
#[derive(Clone, Debug, PartialEq, Eq)]
pub struct Wallet {
    pub id: u64,
    pub address: String,
}

impl Wallet {
    /// A wallet for `address` that has not been given an id yet (id 0).
    pub fn new(address: String) -> (w: Wallet)
        ensures
            w.id == 0,
            w.address@ == address@,
    {
        Wallet { id: 0, address }
    }
}

/// One output of a transaction: the wallet it pays and the amount, or
/// `Invalid` when its script could not be classified.
#[derive(Clone, Copy, Debug, PartialEq, Eq, Structural)]
pub enum Vout {
    Valid { wallet_id: u64, satoshis: u64 },
    Invalid,
}

/// One input of a transaction: a lookup key for the transaction that made
/// the spent output, and that output's index.
#[derive(Clone, Copy, Debug, PartialEq, Eq, Structural)]
pub struct Vin {
    pub prev_txid_hash: u64,
    pub vout_index: u32,
}

/// A transaction as the index keeps it. Outputs keep their order: the
/// position of an output is its index for later inputs.
#[derive(Clone, Debug, PartialEq, Eq)]
pub struct Transaction {
    pub id: String,
    pub vins: Vec<Vin>,
    pub vouts: Vec<Vout>,
}

impl Transaction {
    /// A transaction with the given id and no inputs or outputs yet.
    pub fn new(id: String) -> (t: Transaction)
        ensures
            t.id@ == id@,
            t.vins@.len() == 0,
            t.vouts@.len() == 0,
    {
        Transaction { id, vins: Vec::new(), vouts: Vec::new() }
    }

    /// Appends an output after the ones already there.
    pub fn add_vout(&mut self, vout: Vout)
        ensures
            final(self).id@ == old(self).id@,
            final(self).vins@ == old(self).vins@,
            final(self).vouts@ == old(self).vouts@.push(vout),
    {
        self.vouts.push(vout);
    }

    /// Appends an input after the ones already there.
    pub fn add_vin(&mut self, vin: Vin)
        ensures
            final(self).id@ == old(self).id@,
            final(self).vins@ == old(self).vins@.push(vin),
            final(self).vouts@ == old(self).vouts@,
    {
        self.vins.push(vin);
    }
}

/// A block as the index keeps it.
#[derive(Clone, Debug, PartialEq, Eq)]
pub struct Block {
    pub id: String,
    pub timestamp: u32,
    pub transactions: Vec<Transaction>,
}

impl Block {
    /// A block with the given hash and time and no transactions yet.
    pub fn new(id: String, timestamp: u32) -> (b: Block)
        ensures
            b.id@ == id@,
            b.timestamp == timestamp,
            b.transactions@.len() == 0,
    {
        Block { id, timestamp, transactions: Vec::new() }
    }

    /// Appends a transaction after the ones already there.
    pub fn add_transaction(&mut self, transaction: Transaction)
        ensures
            final(self).id@ == old(self).id@,
            final(self).timestamp == old(self).timestamp,
            final(self).transactions@ == old(self).transactions@.push(transaction),
    {
        self.transactions.push(transaction);
    }
}

/// A durable unit of work: a batch of blocks under a unique id.
#[derive(Clone, Debug, PartialEq, Eq)]
pub struct Segment {
    pub id: usize,
    pub blocks: Vec<Block>,
}

/// A summary line of a block: hash, version, height, number of
/// transactions and total value.
#[derive(Clone, Debug, PartialEq, Eq)]
pub struct LocalBlock {
    pub hash: String,
    pub version: i32,
    pub height: u64,
    pub transactions: usize,
    pub satoshis: i64,
}

impl LocalBlock {
    pub fn new(hash: String, version: i32, height: u64, transactions: usize, satoshis: i64) -> (b:
        LocalBlock)
        ensures
            b.hash@ == hash@,
            b.version == version,
            b.height == height,
            b.transactions == transactions,
            b.satoshis == satoshis,
    {
        LocalBlock { hash, version, height, transactions, satoshis }
    }
}

/// An output as fetched: its locking script and its value in satoshis.
#[derive(Clone, Debug, PartialEq, Eq)]
pub struct RawOutput {
    pub script: Vec<u8>,
    pub value: u64,
}

/// An input as fetched: the id of the transaction whose output it spends,
/// in its internal byte order, and that output's index.
#[derive(Clone, Debug, PartialEq, Eq)]
pub struct RawInput {
    pub prev_txid: Vec<u8>,
    pub vout: u32,
}

/// A transaction as fetched.
#[derive(Clone, Debug, PartialEq, Eq)]
pub struct RawTransaction {
    pub txid: String,
    pub is_coinbase: bool,
    pub inputs: Vec<RawInput>,
    pub outputs: Vec<RawOutput>,
}

/// A block as fetched: its hash, its header time and its transactions.
#[derive(Clone, Debug, PartialEq, Eq)]
pub struct RawBlock {
    pub hash: String,
    pub time: u32,
    pub transactions: Vec<RawTransaction>,
}

} // verus!
