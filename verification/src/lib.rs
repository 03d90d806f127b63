//! A ledger of client accounts, driven by an ordered batch of transactions.
//!
//! Money is counted exactly, in ten thousandths of the display unit. A batch
//! of deposits, withdrawals, disputes, resolves and chargebacks is folded over
//! three stores: the accounts, every deposit seen so far, and the deposits
//! under dispute. A transaction that cannot be applied is set aside with its
//! reason and leaves every store as it was.
pub mod account;
pub mod books;
pub mod currency;
pub mod decimal;
pub mod error;
pub mod ledger;
pub mod option;
pub mod reader;
pub mod rules;
pub mod transaction;
