use crate::currency::Currency;
use vstd::prelude::*;

verus! {

/// The balances of one client. `available` can be withdrawn, `held` is under
/// dispute, and `total` is both together.
#[derive(Eq, PartialEq, Debug, Clone, Copy)]
pub struct Account {
    pub client: u16,
    pub available: Currency,
    pub held: Currency,
    pub total: Currency,
    pub locked: bool,
}

impl Account {
    /// The account a client starts with: nothing in it, and not locked.
    pub open spec fn opened(client: u16) -> Account {
        Account {
            client,
            available: Currency::zero(),
            held: Currency::zero(),
            total: Currency::zero(),
            locked: false,
        }
    }

    /// The total is what is available and what is held, together.
    pub open spec fn balanced(self) -> bool {
        self.total == self.available.plus(self.held)
    }

    /// The account after `amount` came in: it is available, and in the total.
    pub open spec fn credited(self, amount: Currency) -> Account {
        Account {
            available: self.available.plus(amount),
            total: self.total.plus(amount),
            ..self
        }
    }

    /// The account after `amount` went out of what was available.
    pub open spec fn debited(self, amount: Currency) -> Account {
        Account {
            available: self.available.minus(amount),
            total: self.total.minus(amount),
            ..self
        }
    }

    /// The account after `amount` was set aside: no longer available, but
    /// held. The total stays.
    pub open spec fn holding(self, amount: Currency) -> Account {
        Account { available: self.available.minus(amount), held: self.held.plus(amount), ..self }
    }

    /// The account after `amount` was given back from what was held. The
    /// total stays.
    pub open spec fn released(self, amount: Currency) -> Account {
        Account { available: self.available.plus(amount), held: self.held.minus(amount), ..self }
    }

    /// The account after `amount` was taken back out of what was held: it
    /// leaves the total, and the account is locked.
    pub open spec fn charged_back(self, amount: Currency) -> Account {
        Account {
            held: self.held.minus(amount),
            total: self.total.minus(amount),
            locked: true,
            ..self
        }
    }
}

/// Each of the five movements keeps a balanced account balanced.
pub proof fn lemma_movements_keep_balance(account: Account, amount: Currency)
    requires
        account.balanced(),
    ensures
        account.credited(amount).balanced(),
        account.debited(amount).balanced(),
        account.holding(amount).balanced(),
        account.released(amount).balanced(),
        account.charged_back(amount).balanced(),
{
}

/// Opens an empty account for a client.
pub fn new_from_client_id(client: u16) -> (account: Account)
    ensures
        account == Account::opened(client),
{
    Account { client, available: Currency(0), held: Currency(0), total: Currency(0), locked: false }
}

} // verus!
