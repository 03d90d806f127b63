use crate::account::{new_from_client_id, Account};
use crate::currency::{safe_subtract_verbose, unsafe_subtract};
use crate::error::{TransactionError, UnsettledReason};
use crate::option::{both, sequence};
use crate::transaction::Transaction;
use vstd::prelude::*;

verus! {

/// A deposit always settles: the amount is credited to the client's account,
/// or to a newly opened one where the client has none.
pub open spec fn deposit_rule(account: Option<Account>, t: Transaction) -> Account {
    match account {
        Some(a) => a.credited(t.amount),
        None => Account::opened(t.client).credited(t.amount),
    }
}

/// A withdrawal needs an account, and the amount must be covered both by
/// what is available and by the total.
pub open spec fn withdrawal_rule(account: Option<Account>, t: Transaction) -> Result<
    Account,
    TransactionError,
> {
    match account {
        None => Err(TransactionError::AccountlessAction(t)),
        Some(a) => if a.available.covers(t.amount) && a.total.covers(t.amount) {
            Ok(a.debited(t.amount))
        } else {
            Err(TransactionError::UnsettledWithdrawal(t, UnsettledReason::InsufficientFunds))
        },
    }
}

/// A dispute needs the client's account and the deposit it names. The
/// deposit's amount is then held. Nothing asks whether it is still available:
/// where it was withdrawn in the meantime, `available` drops below zero.
pub open spec fn dispute_rule(
    account: Option<Account>,
    deposit: Option<Transaction>,
    t: Transaction,
) -> Result<Account, TransactionError> {
    match both((account, deposit)) {
        Some((a, d)) => Ok(a.holding(d.amount)),
        None => Err(
            TransactionError::UnsettledDispute(t, UnsettledReason::TransactionOrAccountNotFound),
        ),
    }
}

/// A resolve needs the client's account and the disputed deposit it names,
/// and what is held must cover the deposit's amount, which is then released.
pub open spec fn resolve_rule(
    account: Option<Account>,
    disputed: Option<Transaction>,
    t: Transaction,
) -> Result<Account, TransactionError> {
    match both((account, disputed)) {
        Some((a, d)) => if a.held.covers(d.amount) {
            Ok(a.released(d.amount))
        } else {
            Err(TransactionError::UnsettledResolve(t, UnsettledReason::InsufficientFunds))
        },
        None => Err(
            TransactionError::UnsettledResolve(t, UnsettledReason::TransactionOrAccountNotFound),
        ),
    }
}

/// A chargeback needs the client's account and the disputed deposit it
/// names, and both what is held and the total must cover the deposit's
/// amount, which is then charged back.
pub open spec fn chargeback_rule(
    account: Option<Account>,
    disputed: Option<Transaction>,
    t: Transaction,
) -> Result<Account, TransactionError> {
    match both((account, disputed)) {
        Some((a, d)) => if a.held.covers(d.amount) && a.total.covers(d.amount) {
            Ok(a.charged_back(d.amount))
        } else {
            Err(TransactionError::UnsettledChargeback(t, UnsettledReason::InsufficientFunds))
        },
        None => Err(
            TransactionError::UnsettledChargeback(
                t,
                UnsettledReason::TransactionOrAccountNotFound,
            ),
        ),
    }
}

/// Settles a deposit against the client's account, if there is one.
pub fn deposit(account: Option<Account>, t: &Transaction) -> (settled: Account)
    ensures
        settled == deposit_rule(account, *t),
{
    match account {
        Some(a) => Account {
            available: crate::currency::add(a.available, t.amount),
            total: crate::currency::add(a.total, t.amount),
            ..a
        },
        None => Account {
            available: t.amount,
            total: t.amount,
            ..new_from_client_id(t.client)
        },
    }
}

/// Settles a withdrawal against the client's account, or says why it cannot
/// be settled.
pub fn withdraw(account: Option<Account>, t: &Transaction) -> (settled: Result<
    Account,
    TransactionError,
>)
    ensures
        settled == withdrawal_rule(account, *t),
{
    match account {
        None => Err(TransactionError::AccountlessAction(*t)),
        Some(a) => {
            let rest = sequence(
                (
                    safe_subtract_verbose(a.available, t.amount),
                    safe_subtract_verbose(a.total, t.amount),
                ),
            );
            match rest {
                Some((available, total)) => Ok(Account { available, total, ..a }),
                None => Err(
                    TransactionError::UnsettledWithdrawal(*t, UnsettledReason::InsufficientFunds),
                ),
            }
        },
    }
}

/// Settles a dispute against the client's account and the deposit that the
/// dispute names, or says why it cannot be settled.
pub fn dispute(account: Option<Account>, deposit: Option<Transaction>, t: &Transaction) -> (settled:
    Result<Account, TransactionError>)
    ensures
        settled == dispute_rule(account, deposit, *t),
{
    match sequence((account, deposit)) {
        Some((a, d)) => Ok(
            Account {
                available: unsafe_subtract(a.available, d.amount),
                held: crate::currency::add(a.held, d.amount),
                ..a
            },
        ),
        None => Err(
            TransactionError::UnsettledDispute(*t, UnsettledReason::TransactionOrAccountNotFound),
        ),
    }
}

/// Settles a resolve against the client's account and the disputed deposit
/// that the resolve names, or says why it cannot be settled.
pub fn resolve(account: Option<Account>, disputed: Option<Transaction>, t: &Transaction) -> (settled:
    Result<Account, TransactionError>)
    ensures
        settled == resolve_rule(account, disputed, *t),
{
    match sequence((account, disputed)) {
        Some((a, d)) => match safe_subtract_verbose(a.held, d.amount) {
            Some(held) => Ok(
                Account { available: crate::currency::add(a.available, d.amount), held, ..a },
            ),
            None => Err(
                TransactionError::UnsettledResolve(*t, UnsettledReason::InsufficientFunds),
            ),
        },
        None => Err(
            TransactionError::UnsettledResolve(*t, UnsettledReason::TransactionOrAccountNotFound),
        ),
    }
}

/// Settles a chargeback against the client's account and the disputed
/// deposit that the chargeback names, or says why it cannot be settled.
pub fn chargeback(
    account: Option<Account>,
    disputed: Option<Transaction>,
    t: &Transaction,
) -> (settled: Result<Account, TransactionError>)
    ensures
        settled == chargeback_rule(account, disputed, *t),
{
    match sequence((account, disputed)) {
        Some((a, d)) => {
            let rest = sequence(
                (safe_subtract_verbose(a.held, d.amount), safe_subtract_verbose(a.total, d.amount)),
            );
            match rest {
                Some((held, total)) => Ok(Account { held, total, locked: true, ..a }),
                None => Err(
                    TransactionError::UnsettledChargeback(*t, UnsettledReason::InsufficientFunds),
                ),
            }
        },
        None => Err(
            TransactionError::UnsettledChargeback(
                *t,
                UnsettledReason::TransactionOrAccountNotFound,
            ),
        ),
    }
}

} // verus!
