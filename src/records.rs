//! Rows of the relational store: transactions, their outputs and wallets.
use vstd::prelude::*;

verus! {

/// A stored transaction.
#[derive(Debug)]
pub struct Transactions {
    pub id: i32,
    pub txid: String,
    pub minedtime: i32,
}

/// A transaction to store.
pub struct NewTransaction<'a> {
    pub txid: &'a String,
    pub minedtime: i32,
}

/// A stored transaction output.
#[derive(PartialEq, Debug)]
pub struct Txouts {
    pub id: i32,
    pub transactions_id: i32,
    pub vout: i32,
    pub walletin_id: i32,
    pub walletout_id: i32,
    pub balance: i64,
}

/// A transaction output to store.
pub struct NewTxouts {
    pub transactions_id: i32,
    pub vout: i32,
    pub walletin_id: i32,
    pub walletout_id: i32,
    pub balance: i64,
}

/// A stored wallet with its balance.
#[derive(PartialEq, Debug)]
pub struct Wallet {
    pub id: i32,
    pub waddress: String,
    pub balance: i64,
}

/// A wallet to store.
pub struct NewWallet<'a> {
    pub waddress: &'a String,
    pub balance: i64,
}

} // verus!
