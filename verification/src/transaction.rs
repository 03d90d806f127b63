use crate::currency::Currency;
use vstd::prelude::*;

verus! {

/// What a transaction asks for.
#[derive(Debug, Eq, PartialEq, Copy, Clone)]
pub enum TransactionType {
    Deposit,
    Withdrawal,
    Dispute,
    Resolve,
    Chargeback,
}

/// One record of a batch. A deposit or withdrawal moves `amount` and carries
/// its own id in `tx`. A dispute, resolve or chargeback names in `tx` the
/// deposit it is about; its `amount` is not read.
#[derive(Debug, Eq, PartialEq, Copy, Clone)]
pub struct Transaction {
    pub tx_type: TransactionType,
    pub client: u16,
    pub tx: u32,
    pub amount: Currency,
}

} // verus!
