use crate::account::Account;
use crate::books::{lemma_accounts_stay_balanced, lemma_apply_keeps_filing, lists, Books};
use crate::error::TransactionError;
use crate::option::sequence;
use crate::rules::{chargeback, deposit, dispute, resolve, withdraw};
use crate::transaction::{Transaction, TransactionType};
use std::collections::HashMap;
use vstd::prelude::*;
use vstd::std_specs::iter::IteratorSpec;

verus! {

broadcast use vstd::std_specs::hash::group_hash_axioms;

/// A ledger: the three stores and the list of rejected transactions, owned
/// by one run and changed by one transaction at a time.
pub struct Ledger {
    accounts: HashMap<u16, Account>,
    deposits: HashMap<u32, Transaction>,
    disputes: HashMap<u32, Transaction>,
    rejected: Vec<TransactionError>,
}

impl View for Ledger {
    type V = Books;

    closed spec fn view(&self) -> Books {
        Books {
            accounts: self.accounts@,
            deposits: self.deposits@,
            disputes: self.disputes@,
            rejected: self.rejected@,
        }
    }
}

/// What was found in a store, taken out of the store's hands.
fn copied<T: Copy>(found: Option<&T>) -> (copy: Option<T>)
    ensures
        copy == match found {
            Some(entry) => Some(*entry),
            None => None,
        },
{
    match found {
        Some(entry) => Some(*entry),
        None => None,
    }
}

impl Ledger {
    #[verifier::type_invariant]
    spec fn filed(self) -> bool {
        self@.filed_by_client()
    }

    /// A ledger with empty books, with room for `capacity` deposits.
    pub fn with_capacity(capacity: usize) -> (ledger: Ledger)
        ensures
            ledger@ == Books::empty(),
    {
        Ledger {
            accounts: HashMap::new(),
            deposits: HashMap::with_capacity(capacity),
            disputes: HashMap::new(),
            rejected: Vec::new(),
        }
    }

    /// Takes one transaction and gives the ledger back with it settled or
    /// set aside.
    pub fn process(self, t: &Transaction) -> (next: Ledger)
        ensures
            next@ == self@.apply(*t),
    {
        proof {
            use_type_invariant(&self);
        }
        let Ledger { mut accounts, mut deposits, mut disputes, mut rejected } = self;
        let account = copied(accounts.get(&t.client));
        let settled = match t.tx_type {
            TransactionType::Deposit => {
                deposits.insert(t.tx, *t);
                Ok(deposit(account, t))
            },
            TransactionType::Withdrawal => withdraw(account, t),
            TransactionType::Dispute => {
                let past = copied(deposits.get(&t.tx));
                if let Some((_, d)) = sequence((account, past)) {
                    disputes.insert(d.tx, d);
                }
                dispute(account, past, t)
            },
            TransactionType::Resolve => resolve(account, copied(disputes.get(&t.tx)), t),
            TransactionType::Chargeback => chargeback(account, copied(disputes.get(&t.tx)), t),
        };
        match settled {
            Ok(account) => {
                accounts.insert(t.client, account);
            },
            Err(reason) => {
                rejected.push(reason);
            },
        }
        proof {
            lemma_apply_keeps_filing(self@, *t);
        }
        Ledger { accounts, deposits, disputes, rejected }
    }

    /// Ends the run: the accounts, in no particular order, and the rejected
    /// transactions in the order they came.
    pub fn finish(self) -> (outcome: (Vec<Account>, Vec<TransactionError>))
        ensures
            lists(outcome.0@, self@.accounts),
            outcome.1@ == self@.rejected,
    {
        proof {
            use_type_invariant(&self);
        }
        let Ledger { accounts, deposits: _, disputes: _, rejected } = self;
        let mut listing: Vec<Account> = Vec::new();
        let ghost all = accounts.iter().remaining();
        for entry in it: accounts.iter()
            invariant
                it.seq() == all,
                it.seq().no_duplicates(),
                forall|i: int|
                    0 <= i < it.seq().len() ==> accounts@.contains_key(*(#[trigger] it.seq()[i]).0)
                        && accounts@[*it.seq()[i].0] == *it.seq()[i].1,
                forall|client: u16| #[trigger]
                    accounts@.contains_key(client) ==> it.seq().contains(
                        (&client, &accounts@[client]),
                    ),
                listing.len() == it.index(),
                forall|i: int| 0 <= i < listing.len() ==> listing@[i] == *it.seq()[i].1,
        {
            listing.push(*entry.1);
        }
        proof {
            assert forall|i: int| 0 <= i < listing@.len() implies *all[i].0
                == (#[trigger] listing@[i]).client by {
                assert(self@.accounts.contains_key(*all[i].0));
            }
            assert forall|i: int, j: int| 0 <= i < j < listing@.len() implies listing@[i].client
                != listing@[j].client by {
                if listing@[i].client == listing@[j].client {
                    assert(all[i] == all[j]);
                }
            }
            assert forall|client: u16| accounts@.contains_key(client) implies exists|i: int|
                0 <= i < listing@.len() && #[trigger] listing@[i].client == client by {
                let entry = (&client, &accounts@[client]);
                assert(all.contains(entry));
                let i = choose|i: int| 0 <= i < all.len() && all[i] == entry;
                assert(listing@[i].client == client);
            }
        }
        (listing, rejected)
    }
}

/// Runs a batch of transactions, in the order given, through a ledger that
/// starts empty. Gives the account of every client that deposited, in no
/// particular order, and the transactions that were set aside, in the order
/// they came. A transaction that is set aside stops nothing: the ones after
/// it are taken as usual.
pub fn parse_transactions(transactions: &Vec<Transaction>) -> (outcome: (
    Vec<Account>,
    Vec<TransactionError>,
))
    ensures
        lists(outcome.0@, Books::after(transactions@).accounts),
        outcome.1@ == Books::after(transactions@).rejected,
        forall|i: int| 0 <= i < outcome.0@.len() ==> (#[trigger] outcome.0@[i]).balanced(),
{
    let mut ledger = Ledger::with_capacity(transactions.len());
    for i in 0..transactions.len()
        invariant
            ledger@ == Books::after(transactions@.take(i as int)),
    {
        proof {
            assert(transactions@.take(i + 1).drop_last() == transactions@.take(i as int));
        }
        ledger = ledger.process(&transactions[i]);
    }
    assert(transactions@.take(transactions@.len() as int) == transactions@);
    let outcome = ledger.finish();
    proof {
        lemma_accounts_stay_balanced(transactions@);
        assert forall|i: int| 0 <= i < outcome.0@.len() implies (#[trigger] outcome.0@[i]).balanced() by {
            assert(Books::after(transactions@).accounts.contains_key(outcome.0@[i].client));
        }
    }
    outcome
}

} // verus!
