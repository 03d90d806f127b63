use crate::transaction::Transaction;
use vstd::prelude::*;

verus! {

/// Why a whole batch could not be read.
#[derive(Debug, Eq, PartialEq)]
pub enum Csv {
    FileReadError(String),
    ParseError(Vec<String>),
}

/// Why a transaction could not be settled.
#[derive(Debug, Eq, PartialEq)]
pub enum UnsettledReason {
    InsufficientFunds,
    TransactionOrAccountNotFound,
}

/// A transaction that was set aside, by the rule that refused it.
#[derive(Debug, Eq, PartialEq)]
pub enum TransactionError {
    AccountlessAction(Transaction),
    UnsettledWithdrawal(Transaction, UnsettledReason),
    UnsettledDispute(Transaction, UnsettledReason),
    UnsettledResolve(Transaction, UnsettledReason),
    UnsettledChargeback(Transaction, UnsettledReason),
}

} // verus!
