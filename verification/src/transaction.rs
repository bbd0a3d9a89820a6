//! Transfers between two parties, and the rule by which the ledger admits them.

use vstd::prelude::*;

verus! {

/// What a transaction says: who pays whom, and how much.
pub struct TransactionView {
    pub sender: Seq<char>,
    pub receiver: Seq<char>,
    pub amount: i64,
}

impl TransactionView {
    /// Both parties are named and the amount is positive.
    pub open spec fn admissible(self) -> bool {
        &&& self.sender.len() > 0
        &&& self.receiver.len() > 0
        &&& self.amount > 0
    }
}

/// A transfer of `amount` from `sender` to `receiver`.
#[derive(Debug)]
pub struct Transaction {
    pub sender: String,
    pub receiver: String,
    pub amount: i64,
}

impl View for Transaction {
    type V = TransactionView;

    open spec fn view(&self) -> TransactionView {
        TransactionView { sender: self.sender@, receiver: self.receiver@, amount: self.amount }
    }
}

/// The views of a sequence of transactions, in the same order.
pub open spec fn views_of(txs: Seq<Transaction>) -> Seq<TransactionView> {
    txs.map_values(|tx: Transaction| tx@)
}

impl Transaction {
    /// Builds a transaction from its three parts, without judging it.
    pub fn new(sender: String, receiver: String, amount: i64) -> (tx: Transaction)
        ensures
            tx@ == (TransactionView { sender: sender@, receiver: receiver@, amount }),
    {
        Transaction { sender, receiver, amount }
    }

    /// Decides whether the ledger would admit this transaction.
    pub fn is_admissible(&self) -> (ok: bool)
        ensures
            ok == self@.admissible(),
    {
        !self.sender.as_str().is_empty() && !self.receiver.as_str().is_empty() && self.amount > 0
    }

    /// A copy of this transaction.
    pub fn duplicate(&self) -> (tx: Transaction)
        ensures
            tx@ == self@,
    {
        Transaction {
            sender: self.sender.clone(),
            receiver: self.receiver.clone(),
            amount: self.amount,
        }
    }
}

} // verus!
