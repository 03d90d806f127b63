use crate::account::Account;
use crate::currency::{lemma_plus_and_minus_wrap_once, Currency};
use crate::error::{TransactionError, UnsettledReason};
use crate::rules::{chargeback_rule, deposit_rule, dispute_rule, resolve_rule, withdrawal_rule};
use crate::transaction::{Transaction, TransactionType};
use vstd::prelude::*;

verus! {

/// The three stores of a ledger, and the transactions it has set aside, as
/// mathematical values.
#[verifier::ext_equal]
pub struct Books {
    /// The account of every client that has deposited, by client id.
    pub accounts: Map<u16, Account>,
    /// Every deposit seen, by transaction id. A later deposit with the same
    /// id replaces the earlier one; none is ever removed.
    pub deposits: Map<u32, Transaction>,
    /// The deposits that were disputed, by transaction id.
    pub disputes: Map<u32, Transaction>,
    /// The transactions that were set aside, in the order they came.
    pub rejected: Seq<TransactionError>,
}

impl Books {
    /// The books before any transaction.
    pub open spec fn empty() -> Books {
        Books {
            accounts: Map::empty(),
            deposits: Map::empty(),
            disputes: Map::empty(),
            rejected: Seq::empty(),
        }
    }

    /// The account of a client, if it has one.
    pub open spec fn account_of(self, client: u16) -> Option<Account> {
        if self.accounts.contains_key(client) {
            Some(self.accounts[client])
        } else {
            None
        }
    }

    /// The deposit with a transaction id, if there was one.
    pub open spec fn deposit_of(self, tx: u32) -> Option<Transaction> {
        if self.deposits.contains_key(tx) {
            Some(self.deposits[tx])
        } else {
            None
        }
    }

    /// The disputed deposit with a transaction id, if there is one.
    pub open spec fn dispute_of(self, tx: u32) -> Option<Transaction> {
        if self.disputes.contains_key(tx) {
            Some(self.disputes[tx])
        } else {
            None
        }
    }

    /// What a transaction does to its client's account: the account as it
    /// will be, or the reason why the transaction is set aside.
    pub open spec fn verdict(self, t: Transaction) -> Result<Account, TransactionError> {
        match t.tx_type {
            TransactionType::Deposit => Ok(deposit_rule(self.account_of(t.client), t)),
            TransactionType::Withdrawal => withdrawal_rule(self.account_of(t.client), t),
            TransactionType::Dispute => dispute_rule(
                self.account_of(t.client),
                self.deposit_of(t.tx),
                t,
            ),
            TransactionType::Resolve => resolve_rule(
                self.account_of(t.client),
                self.dispute_of(t.tx),
                t,
            ),
            TransactionType::Chargeback => chargeback_rule(
                self.account_of(t.client),
                self.dispute_of(t.tx),
                t,
            ),
        }
    }

    /// The deposits once a transaction has been seen: a deposit is recorded
    /// under its id, whatever was there.
    pub open spec fn deposits_with(self, t: Transaction) -> Map<u32, Transaction> {
        if t.tx_type is Deposit {
            self.deposits.insert(t.tx, t)
        } else {
            self.deposits
        }
    }

    /// The disputes once a transaction has settled: a dispute records the
    /// deposit it names, under that deposit's own id.
    pub open spec fn disputes_with(self, t: Transaction) -> Map<u32, Transaction> {
        if t.tx_type is Dispute && self.deposits.contains_key(t.tx) {
            self.disputes.insert(self.deposits[t.tx].tx, self.deposits[t.tx])
        } else {
            self.disputes
        }
    }

    /// The books after one more transaction. Where it settles, its client's
    /// account is replaced by the verdict. Where it does not, it joins the
    /// rejected, and accounts and disputes stay as they were.
    pub open spec fn apply(self, t: Transaction) -> Books {
        match self.verdict(t) {
            Ok(account) => Books {
                accounts: self.accounts.insert(t.client, account),
                deposits: self.deposits_with(t),
                disputes: self.disputes_with(t),
                rejected: self.rejected,
            },
            Err(reason) => Books {
                accounts: self.accounts,
                deposits: self.deposits_with(t),
                disputes: self.disputes,
                rejected: self.rejected.push(reason),
            },
        }
    }

    /// The books after a batch of transactions, taken in order from empty
    /// books.
    pub open spec fn after(transactions: Seq<Transaction>) -> Books
        decreases transactions.len(),
    {
        if transactions.len() == 0 {
            Books::empty()
        } else {
            Books::after(transactions.drop_last()).apply(transactions.last())
        }
    }

    /// Every account is balanced: its total is what is available and what is
    /// held, together.
    pub open spec fn balanced(self) -> bool {
        forall|client: u16| #[trigger]
            self.accounts.contains_key(client) ==> self.accounts[client].balanced()
    }

    /// Every account is filed under its own client id.
    pub open spec fn filed_by_client(self) -> bool {
        forall|client: u16| #[trigger]
            self.accounts.contains_key(client) ==> self.accounts[client].client == client
    }
}

/// Whether `listing` holds the accounts of `accounts`, each once, in some
/// order.
pub open spec fn lists(listing: Seq<Account>, accounts: Map<u16, Account>) -> bool {
    &&& forall|i: int|
        0 <= i < listing.len() ==> accounts.contains_key(#[trigger] listing[i].client)
            && accounts[listing[i].client] == listing[i]
    &&& forall|i: int, j: int|
        0 <= i < j < listing.len() ==> #[trigger] listing[i].client != #[trigger] listing[j].client
    &&& forall|client: u16| #[trigger]
        accounts.contains_key(client) ==> exists|i: int|
            0 <= i < listing.len() && #[trigger] listing[i].client == client
}

/// A transaction keeps every account filed under its own client id.
pub proof fn lemma_apply_keeps_filing(books: Books, t: Transaction)
    requires
        books.filed_by_client(),
    ensures
        books.apply(t).filed_by_client(),
{
}

/// A transaction keeps every account balanced.
pub proof fn lemma_apply_keeps_balance(books: Books, t: Transaction)
    requires
        books.balanced(),
    ensures
        books.apply(t).balanced(),
{
}

/// After any batch, every account is filed under its own client id, and its
/// total is what is available and what is held, together. A batch that is cut
/// short is a batch too: this holds after each of its transactions.
pub proof fn lemma_accounts_stay_balanced(transactions: Seq<Transaction>)
    ensures
        Books::after(transactions).filed_by_client(),
        Books::after(transactions).balanced(),
    decreases transactions.len(),
{
    if transactions.len() > 0 {
        let before = transactions.drop_last();
        lemma_accounts_stay_balanced(before);
        lemma_apply_keeps_filing(Books::after(before), transactions.last());
        lemma_apply_keeps_balance(Books::after(before), transactions.last());
    }
}

/// A transaction that is set aside leaves every account, every deposit and
/// every dispute as it was: only the list of rejected transactions grows, by
/// this one.
pub proof fn lemma_rejection_leaves_books_untouched(books: Books, t: Transaction)
    requires
        books.verdict(t) is Err,
    ensures
        books.apply(t) == (Books { rejected: books.rejected.push(books.verdict(t)->Err_0), ..books }),
{
}

/// A deposit is never set aside.
pub proof fn lemma_deposit_always_settles(books: Books, t: Transaction)
    requires
        t.tx_type is Deposit,
    ensures
        books.verdict(t) is Ok,
        books.apply(t).rejected == books.rejected,
        books.apply(t).deposit_of(t.tx) == Some(t),
{
}

/// A dispute that names a deposit that was never made, or comes from a client
/// without an account, is set aside as not found, and nothing else changes.
pub proof fn lemma_unknown_dispute_is_rejected(books: Books, t: Transaction)
    requires
        t.tx_type is Dispute,
        books.deposit_of(t.tx) is None || books.account_of(t.client) is None,
    ensures
        books.verdict(t) == Err::<Account, TransactionError>(
            TransactionError::UnsettledDispute(t, UnsettledReason::TransactionOrAccountNotFound),
        ),
        books.apply(t).accounts == books.accounts,
        books.apply(t).deposits == books.deposits,
        books.apply(t).disputes == books.disputes,
        books.apply(t).rejected == books.rejected.push(
            TransactionError::UnsettledDispute(t, UnsettledReason::TransactionOrAccountNotFound),
        ),
{
}

/// Nothing is ever removed: an account, a deposit and a dispute that the
/// books hold are still held after one more transaction. A locked account
/// stays locked, and only a chargeback that settles locks one.
pub proof fn lemma_apply_removes_nothing(books: Books, t: Transaction)
    ensures
        books.accounts.dom().subset_of(books.apply(t).accounts.dom()),
        books.deposits.dom().subset_of(books.apply(t).deposits.dom()),
        books.disputes.dom().subset_of(books.apply(t).disputes.dom()),
        forall|client: u16|
            books.accounts.contains_key(client) && #[trigger] books.accounts[client].locked
                ==> books.apply(t).accounts[client].locked,
        forall|client: u16|
            #[trigger] books.apply(t).accounts.contains_key(client) && books.apply(
                t,
            ).accounts[client].locked && !(books.accounts.contains_key(client)
                && books.accounts[client].locked) ==> t.tx_type is Chargeback && t.client == client,
{
}

/// Whether every transaction of a batch is a deposit.
pub open spec fn only_deposits(transactions: Seq<Transaction>) -> bool {
    forall|i: int| 0 <= i < transactions.len() ==> (#[trigger] transactions[i]).tx_type is Deposit
}

/// Whether a batch holds a deposit of a client.
pub open spec fn deposits_for(transactions: Seq<Transaction>, client: u16) -> bool {
    exists|i: int|
        0 <= i < transactions.len() && (#[trigger] transactions[i]).tx_type is Deposit
            && transactions[i].client == client
}

/// The exact sum of a client's deposits in a batch, in minor units.
pub open spec fn deposited(transactions: Seq<Transaction>, client: u16) -> int
    decreases transactions.len(),
{
    if transactions.len() == 0 {
        0
    } else {
        let t = transactions.last();
        deposited(transactions.drop_last(), client) + if t.tx_type is Deposit && t.client
            == client {
            t.amount.0 as int
        } else {
            0
        }
    }
}

/// After a batch of deposits and nothing else, nothing was set aside, the
/// clients with an account are those that deposited, and for each of them
/// the total, like what is available, is the sum of the client's deposits,
/// while nothing is held and the account is not locked.
pub proof fn lemma_deposits_add_up(transactions: Seq<Transaction>, client: u16)
    requires
        only_deposits(transactions),
    ensures
        Books::after(transactions).rejected == Seq::<TransactionError>::empty(),
        Books::after(transactions).account_of(client) == (if deposits_for(transactions, client) {
            Some(
                Account {
                    client,
                    available: Currency::wrapped(deposited(transactions, client)),
                    held: Currency::zero(),
                    total: Currency::wrapped(deposited(transactions, client)),
                    locked: false,
                },
            )
        } else {
            None
        }),
    decreases transactions.len(),
{
    if transactions.len() > 0 {
        let before = transactions.drop_last();
        let t = transactions.last();
        assert forall|i: int| 0 <= i < before.len() implies (#[trigger] before[i]).tx_type
            is Deposit by {
            assert(before[i] == transactions[i]);
        }
        lemma_deposits_add_up(before, client);
        lemma_plus_and_minus_wrap_once(deposited(before, client), t.amount);
        if !deposits_for(before, client) {
            lemma_no_deposit_sums_to_nothing(before, client);
        } else {
            let i = choose|i: int|
                0 <= i < before.len() && (#[trigger] before[i]).tx_type is Deposit
                    && before[i].client == client;
            assert(transactions[i] == before[i]);
        }
        if t.client == client {
            assert(transactions[transactions.len() - 1] == t);
        } else if deposits_for(transactions, client) {
            let i = choose|i: int|
                0 <= i < transactions.len() && (#[trigger] transactions[i]).tx_type is Deposit
                    && transactions[i].client == client;
            assert(before[i] == transactions[i]);
        }
    }
}

/// A batch without a deposit of a client deposits nothing for it.
proof fn lemma_no_deposit_sums_to_nothing(transactions: Seq<Transaction>, client: u16)
    requires
        !deposits_for(transactions, client),
    ensures
        deposited(transactions, client) == 0,
    decreases transactions.len(),
{
    if transactions.len() > 0 {
        let before = transactions.drop_last();
        assert forall|i: int| 0 <= i < before.len() implies !((#[trigger] before[i]).tx_type
            is Deposit && before[i].client == client) by {
            assert(before[i] == transactions[i]);
        }
        assert(transactions[transactions.len() - 1] == transactions.last());
        lemma_no_deposit_sums_to_nothing(before, client);
    }
}

/// A listing is as long as there are clients with an account.
pub proof fn lemma_listing_length(listing: Seq<Account>, accounts: Map<u16, Account>)
    requires
        lists(listing, accounts),
    ensures
        accounts.dom().finite(),
        listing.len() == accounts.dom().len(),
{
    let clients = listing.map_values(|a: Account| a.client);
    assert forall|i: int, j: int|
        0 <= i < clients.len() && 0 <= j < clients.len() && i != j implies clients[i]
        != clients[j] by {
        if i < j {
            assert(listing[i].client != listing[j].client);
        } else {
            assert(listing[j].client != listing[i].client);
        }
    }
    clients.unique_seq_to_set();
    assert(clients.to_set() =~= accounts.dom()) by {
        assert forall|client: u16| accounts.contains_key(client) implies clients.to_set().contains(
            client,
        ) by {
            let i = choose|i: int| 0 <= i < listing.len() && listing[i].client == client;
            assert(clients[i] == client);
        }
        assert forall|client: u16| clients.to_set().contains(client) implies accounts.contains_key(
            client,
        ) by {
            let i = choose|i: int| 0 <= i < clients.len() && clients[i] == client;
            assert(accounts.contains_key(listing[i].client));
        }
    }
}

/// Two listings of the same accounts hold the same accounts, each once:
/// they differ in order at most.
pub proof fn lemma_listings_agree(
    first: Seq<Account>,
    second: Seq<Account>,
    accounts: Map<u16, Account>,
)
    requires
        lists(first, accounts),
        lists(second, accounts),
    ensures
        first.to_multiset() == second.to_multiset(),
{
    lemma_listing_counts(first, accounts);
    lemma_listing_counts(second, accounts);
    assert(first.to_multiset() =~= second.to_multiset());
}

/// In a listing, each account of the books occurs once, and nothing else
/// occurs.
proof fn lemma_listing_counts(listing: Seq<Account>, accounts: Map<u16, Account>)
    requires
        lists(listing, accounts),
    ensures
        forall|a: Account|
            #[trigger] listing.to_multiset().count(a) == (if accounts.contains_key(a.client)
                && accounts[a.client] == a {
                1nat
            } else {
                0nat
            }),
{
    broadcast use vstd::seq_lib::group_to_multiset_ensures;

    assert forall|i: int, j: int|
        0 <= i < listing.len() && 0 <= j < listing.len() && i != j implies listing[i]
        != listing[j] by {
        if i < j {
            assert(listing[i].client != listing[j].client);
        } else {
            assert(listing[j].client != listing[i].client);
        }
    }
    listing.lemma_multiset_has_no_duplicates();
    assert forall|a: Account|
        #[trigger] listing.to_multiset().count(a) == (if accounts.contains_key(a.client)
            && accounts[a.client] == a {
            1nat
        } else {
            0nat
        }) by {
        if accounts.contains_key(a.client) && accounts[a.client] == a {
            let i = choose|i: int| 0 <= i < listing.len() && listing[i].client == a.client;
            assert(listing[i] == a);
            assert(listing.contains(a));
        } else {
            if listing.contains(a) {
                let i = choose|i: int| 0 <= i < listing.len() && listing[i] == a;
                assert(accounts.contains_key(listing[i].client));
            }
        }
    }
}

/// A batch run twice gives the same outcome: the same accounts, in whatever
/// order each run lists them, and the same rejected transactions in the same
/// order.
pub proof fn lemma_replay_gives_the_same(
    transactions: Seq<Transaction>,
    first: (Seq<Account>, Seq<TransactionError>),
    second: (Seq<Account>, Seq<TransactionError>),
)
    requires
        lists(first.0, Books::after(transactions).accounts),
        first.1 == Books::after(transactions).rejected,
        lists(second.0, Books::after(transactions).accounts),
        second.1 == Books::after(transactions).rejected,
    ensures
        first.0.to_multiset() == second.0.to_multiset(),
        first.1 == second.1,
{
    lemma_listings_agree(first.0, second.0, Books::after(transactions).accounts);
}

} // verus!
