//! The records of the chain and their canonical text, the form that is hashed.

use vstd::prelude::*;
use crate::hasher::{decimal_text, json_integer, json_string, json_string_of};

verus! {

/// A transfer of `amount` from one address to another.
///
/// The amount is carried as its JSON number text (`"10.0"`), the form in which
/// it enters the transaction's hash.
#[derive(Clone, Debug)]
pub struct Transaction {
    pub sender_address: String,
    pub receiver_address: String,
    pub amount: String,
}

/// The hashed part of a block.
#[derive(Clone, Debug)]
pub struct Blockheader {
    /// Creation time in milliseconds since the epoch.
    pub timestamp: i64,
    /// The counter that proof of work advances.
    pub nonce: u32,
    /// The hash of the previous block's header.
    pub pre_block_hash: String,
    /// The Merkle root of the block's transactions; empty until computed.
    pub merkle: String,
    /// How many leading characters of the header's hash proof of work inspects.
    pub difficulty: u32,
}

/// A sealed block: its header and its transactions, the reward first.
#[derive(Debug)]
pub struct Block {
    pub header: Blockheader,
    pub transaction_count: u32,
    pub transactions: Vec<Transaction>,
}

/// A value with a canonical text, over which its content hash is taken.
pub trait Record {
    spec fn record_text(&self) -> Seq<char>;

    fn canonical_text(&self) -> (r: String)
        ensures
            r@ == self.record_text(),
    ;
}

/// The JSON object of a transaction with these fields, in declaration order.
pub open spec fn transaction_fields_text(
    sender: Seq<char>,
    receiver: Seq<char>,
    amount: Seq<char>,
) -> Seq<char> {
    "{\"sender_address\":"@ + json_string_of(sender) + ",\"receiver_address\":"@
        + json_string_of(receiver) + ",\"amount\":"@ + amount + "}"@
}

/// The JSON object of a transaction.
pub open spec fn transaction_text(t: Transaction) -> Seq<char> {
    transaction_fields_text(t.sender_address@, t.receiver_address@, t.amount@)
}

/// The JSON object of a header with these fields, in declaration order.
pub open spec fn header_fields_text(
    timestamp: i64,
    nonce: u32,
    pre_block_hash: Seq<char>,
    merkle: Seq<char>,
    difficulty: u32,
) -> Seq<char> {
    "{\"timestamp\":"@ + decimal_text(timestamp as int) + ",\"nonce\":"@ + decimal_text(
        nonce as int,
    ) + ",\"pre_block_hash\":"@ + json_string_of(pre_block_hash) + ",\"merkle\":"@
        + json_string_of(merkle) + ",\"difficulty\":"@ + decimal_text(difficulty as int) + "}"@
}

/// The JSON object of a header with the given nonce in place of its own.
pub open spec fn header_text_at(h: Blockheader, nonce: u32) -> Seq<char> {
    header_fields_text(h.timestamp, nonce, h.pre_block_hash@, h.merkle@, h.difficulty)
}

/// The JSON object of a header, fields in declaration order.
pub open spec fn header_text(h: Blockheader) -> Seq<char> {
    header_text_at(h, h.nonce)
}

impl Record for Transaction {
    open spec fn record_text(&self) -> Seq<char> {
        transaction_text(*self)
    }

    fn canonical_text(&self) -> (r: String) {
        let mut s = String::new();
        s.append("{\"sender_address\":");
        s.append(json_string(self.sender_address.as_str()).as_str());
        s.append(",\"receiver_address\":");
        s.append(json_string(self.receiver_address.as_str()).as_str());
        s.append(",\"amount\":");
        s.append(self.amount.as_str());
        s.append("}");
        s
    }
}

impl Record for Blockheader {
    open spec fn record_text(&self) -> Seq<char> {
        header_text(*self)
    }

    fn canonical_text(&self) -> (r: String) {
        let mut s = String::new();
        s.append("{\"timestamp\":");
        s.append(json_integer(self.timestamp).as_str());
        s.append(",\"nonce\":");
        s.append(json_integer(self.nonce as i64).as_str());
        s.append(",\"pre_block_hash\":");
        s.append(json_string(self.pre_block_hash.as_str()).as_str());
        s.append(",\"merkle\":");
        s.append(json_string(self.merkle.as_str()).as_str());
        s.append(",\"difficulty\":");
        s.append(json_integer(self.difficulty as i64).as_str());
        s.append("}");
        s
    }
}

impl Record for String {
    open spec fn record_text(&self) -> Seq<char> {
        json_string_of(self@)
    }

    fn canonical_text(&self) -> (r: String) {
        json_string(self.as_str())
    }
}

} // verus!
