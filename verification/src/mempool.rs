//! A transaction pool: pending transactions in arrival order, drained from
//! the front.

use vstd::prelude::*;
use vstd::utf8::encode_utf8;
use vstd::utf8::is_char_boundary;

verus! {

/// One pending transaction.
pub struct Transaction {
    pub id: u64,
    pub payload: String,
}

/// The pool, oldest transaction first.
pub struct Mempool {
    pub txs: Vec<Transaction>,
}

impl Mempool {
    /// An empty pool.
    pub fn new() -> (m: Mempool)
        ensures
            m.txs@ == Seq::<Transaction>::empty(),
    {
        Mempool { txs: Vec::new() }
    }

    /// Appends a transaction at the back.
    pub fn add(&mut self, tx: Transaction)
        ensures
            final(self).txs@ == old(self).txs@.push(tx),
    {
        self.txs.push(tx);
    }

    /// Removes and returns the oldest transaction; `None` on an empty pool,
    /// which it leaves unchanged.
    pub fn pop_first(&mut self) -> (r: Option<Transaction>)
        ensures
            old(self).txs@.len() == 0 ==> r is None && final(self).txs@ == old(self).txs@,
            old(self).txs@.len() > 0 ==> r == Some(old(self).txs@[0]) && final(self).txs@ == old(
                self,
            ).txs@.skip(1),
    {
        if self.txs.is_empty() {
            return None;
        }
        let tx = self.txs.remove(0);
        proof {
            assert(self.txs@ =~= old(self).txs@.skip(1));
        }
        Some(tx)
    }

    /// The first four bytes of the newest transaction's payload, or
    /// `"Empty"` when there is none. The newest payload must hold at least
    /// four bytes with a character boundary after the fourth.
    pub fn get_latest_payload_preview(&self) -> (r: &str)
        requires
            self.txs@.len() > 0 ==> encode_utf8(self.txs@.last().payload@).len() >= 4
                && is_char_boundary(encode_utf8(self.txs@.last().payload@), 4),
        ensures
            self.txs@.len() == 0 ==> r@ == "Empty"@,
            self.txs@.len() > 0 ==> encode_utf8(r@) == encode_utf8(
                self.txs@.last().payload@,
            ).subrange(0, 4),
    {
        if self.txs.len() > 0 {
            let tx = &self.txs[self.txs.len() - 1];
            let (head, _) = tx.payload.as_str().split_at(4);
            head
        } else {
            "Empty"
        }
    }
}

} // verus!
