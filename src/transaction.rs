use vstd::prelude::*;

verus! {

/// The kind of a record in the transaction log.
#[derive(Clone, Copy, Debug, PartialEq, Eq, Structural)]
pub enum TransactionType {
    Deposit,
    Withdrawal,
    Dispute,
    Resolve,
    Chargeback,
}

/// Where a deposit stands in the dispute lifecycle.
#[derive(Clone, Copy, Debug, PartialEq, Eq, Structural)]
pub enum TransactionStatus {
    Nominal,
    Disputed,
    ChargedBack,
}

impl Default for TransactionStatus {
    fn default() -> (r: Self)
        ensures
            r == TransactionStatus::Nominal,
    {
        TransactionStatus::Nominal
    }
}

/// One record of the log. `amount` is in ten-thousandths of a unit and is
/// read only for deposits and withdrawals; `status` is the only part that
/// changes once the record is in the log.
#[derive(Clone, Copy, Debug, PartialEq, Eq, Structural)]
pub struct Transaction {
    pub tx_type: TransactionType,
    pub client: u16,
    pub tx: u32,
    pub amount: Option<i64>,
    pub status: TransactionStatus,
}

impl Transaction {
    /// The amount a deposit or withdrawal moves: a missing amount counts as 0.
    pub open spec fn spec_amount(self) -> int {
        match self.amount {
            Some(a) => a as int,
            None => 0,
        }
    }

    pub fn amount_or_zero(&self) -> (r: i64)
        ensures
            r as int == self.spec_amount(),
    {
        match self.amount {
            Some(a) => a,
            None => 0,
        }
    }

    /// A fresh record, as it enters the log: its status is `Nominal`.
    pub fn new(tx_type: TransactionType, client: u16, tx: u32, amount: Option<i64>) -> (r: Self)
        ensures
            r.tx_type == tx_type,
            r.client == client,
            r.tx == tx,
            r.amount == amount,
            r.status == TransactionStatus::Nominal,
    {
        Transaction { tx_type, client, tx, amount, status: TransactionStatus::Nominal }
    }
}

} // verus!
