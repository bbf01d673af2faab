use vstd::prelude::*;

verus! {

/// Why a single record of the log could not be applied. Such a failure is
/// counted and the batch goes on; the failed record has no effect at all.
#[derive(Clone, Copy, Debug, PartialEq, Eq, Structural)]
pub enum ProcessError {
    InsufficientFunds,
    TransactionNotFound,
    InvalidDispute,
    InvalidResolve,
    InvalidChargeback,
    DisputeAfterWithdrawal,
}

impl ProcessError {
    pub open spec fn spec_message(self) -> &'static str {
        match self {
            ProcessError::InsufficientFunds => "Insufficient funds for withdrawal.",
            ProcessError::TransactionNotFound =>
                "Transaction not found for dispute/resolve/chargeback.",
            ProcessError::InvalidDispute => "Dispute must target a deposit transaction.",
            ProcessError::InvalidResolve =>
                "Resolve must target a deposit transaction that has been disputed.",
            ProcessError::InvalidChargeback =>
                "Chargeback must target a deposit transaction that has been disputed.",
            ProcessError::DisputeAfterWithdrawal => "Funds already withdrawn cannot be disputed.",
        }
    }

    /// A one-line description of the failure, for logs.
    pub fn message(&self) -> (r: &'static str)
        ensures
            r == self.spec_message(),
    {
        match self {
            ProcessError::InsufficientFunds => "Insufficient funds for withdrawal.",
            ProcessError::TransactionNotFound =>
                "Transaction not found for dispute/resolve/chargeback.",
            ProcessError::InvalidDispute => "Dispute must target a deposit transaction.",
            ProcessError::InvalidResolve =>
                "Resolve must target a deposit transaction that has been disputed.",
            ProcessError::InvalidChargeback =>
                "Chargeback must target a deposit transaction that has been disputed.",
            ProcessError::DisputeAfterWithdrawal => "Funds already withdrawn cannot be disputed.",
        }
    }
}

} // verus!
