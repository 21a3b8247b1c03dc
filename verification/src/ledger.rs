//! A generic append-only ledger: any record type that can summarise itself
//! can be stored, in insertion order.

use crate::digest::dec_rep;
use crate::digest::u64_to_dec;
use vstd::prelude::*;
use vstd::string::StringExecFns;

verus! {

/// Anything stored in a ledger must be able to produce a one-line summary.
pub trait Summarizable {
    fn summarize(&self) -> String;
}

/// A Bitcoin-style transaction record.
pub struct BitcoinTx {
    pub tx_id: String,
    pub amount: u64,
}

/// An Ethereum-style transaction record.
pub struct EthereumTx {
    pub from: String,
    pub to: String,
    pub gas_limit: u64,
}

impl Summarizable for BitcoinTx {
    fn summarize(&self) -> (r: String)
        ensures
            r@ == "BTC Tx: "@ + self.tx_id@ + " | Amt: "@ + dec_rep(self.amount as nat),
    {
        let mut s = String::from_str("BTC Tx: ");
        s.append(self.tx_id.as_str());
        s.append(" | Amt: ");
        s.append(u64_to_dec(self.amount).as_str());
        s
    }
}

impl Summarizable for EthereumTx {
    fn summarize(&self) -> (r: String)
        ensures
            r@ == "ETH Tx: From "@ + self.from@ + " To "@ + self.to@ + " | Gas: "@ + dec_rep(
                self.gas_limit as nat,
            ),
    {
        let mut s = String::from_str("ETH Tx: From ");
        s.append(self.from.as_str());
        s.append(" To ");
        s.append(self.to.as_str());
        s.append(" | Gas: ");
        s.append(u64_to_dec(self.gas_limit).as_str());
        s
    }
}

/// A named, ordered collection of records.
pub struct Ledger<T> {
    pub name: String,
    pub records: Vec<T>,
}

impl<T: Summarizable> Ledger<T> {
    /// A fresh, empty ledger with the given name.
    pub fn new(name: &str) -> (l: Ledger<T>)
        ensures
            l.name@ == name@,
            l.records@ == Seq::<T>::empty(),
    {
        Ledger { name: String::from_str(name), records: Vec::new() }
    }

    /// Appends one record; everything already recorded is kept, in order.
    pub fn add_record(&mut self, record: T)
        ensures
            final(self).records@ == old(self).records@.push(record),
            final(self).name == old(self).name,
    {
        self.records.push(record);
    }
}

} // verus!
