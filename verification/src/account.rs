//! A single on-chain account and the transactions it processes.

use vstd::prelude::*;

verus! {

/// An account: identity, owner, and a balance that transactions move.
pub struct Account {
    pub id: u64,
    pub owner: String,
    pub balance: u64,
}

/// The kinds of transaction an account can process.
pub enum Transaction {
    Deposit(u64),
    Withdraw(u64),
    Transfer { to: String, amount: u64 },
}

impl Account {
    /// A fresh account with a zero balance.
    pub fn new(id: u64, owner: String) -> (a: Account)
        ensures
            a.id == id,
            a.owner == owner,
            a.balance == 0,
    {
        Account { id, owner, balance: 0 }
    }

    /// Applies one transaction. A deposit adds to the balance; a withdrawal
    /// or transfer subtracts its amount when covered and otherwise leaves
    /// the balance unchanged. Identity and owner never change.
    pub fn process_tx(&mut self, tx: Transaction)
        requires
            tx matches Transaction::Deposit(amount) ==> old(self).balance + amount <= u64::MAX,
        ensures
            final(self).id == old(self).id,
            final(self).owner == old(self).owner,
            match tx {
                Transaction::Deposit(amount) => final(self).balance == old(self).balance
                    + amount,
                Transaction::Withdraw(amount) => final(self).balance == if old(self).balance
                    >= amount {
                    (old(self).balance - amount) as u64
                } else {
                    old(self).balance
                },
                Transaction::Transfer { to, amount } => final(self).balance == if old(
                    self,
                ).balance >= amount {
                    (old(self).balance - amount) as u64
                } else {
                    old(self).balance
                },
            },
    {
        match tx {
            Transaction::Deposit(amount) => {
                self.balance = self.balance + amount;
            },
            Transaction::Withdraw(amount) => {
                if self.balance >= amount {
                    self.balance = self.balance - amount;
                }
            },
            Transaction::Transfer { to: _, amount } => {
                if self.balance >= amount {
                    self.balance = self.balance - amount;
                }
            },
        }
    }

    /// Consumes the account, handing the owner's name back.
    pub fn close_account(self) -> (owner: String)
        ensures
            owner == self.owner,
    {
        self.owner
    }
}

} // verus!
