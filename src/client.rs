use vstd::prelude::*;

verus! {

/// How many fixed-point units make one whole unit of currency.
pub const UNITS_PER_WHOLE: i64 = 10000;

/// The balances of one client, in fixed-point units.
#[derive(Clone, Copy, Debug, PartialEq, Eq, Structural)]
pub struct Client {
    pub id: u16,
    pub available: i128,
    pub held: i128,
    pub total: i128,
    pub locked: bool,
}

/// The mathematical state of an account: its balances as integers.
pub struct Balance {
    pub id: u16,
    pub available: int,
    pub held: int,
    pub total: int,
    pub locked: bool,
}

impl Balance {
    /// The account a client has before any record touched it.
    pub open spec fn zero(id: u16) -> Balance {
        Balance { id, available: 0, held: 0, total: 0, locked: false }
    }

    /// Total funds are the available funds plus the held funds.
    pub open spec fn balanced(self) -> bool {
        self.total == self.available + self.held
    }
}

impl View for Client {
    type V = Balance;

    open spec fn view(&self) -> Balance {
        Balance {
            id: self.id,
            available: self.available as int,
            held: self.held as int,
            total: self.total as int,
            locked: self.locked,
        }
    }
}

impl Client {
    /// An empty, unlocked account.
    pub fn new(id: u16) -> (r: Self)
        ensures
            r@ == Balance::zero(id),
    {
        Client { id, available: 0, held: 0, total: 0, locked: false }
    }
}

} // verus!
