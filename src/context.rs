use crate::client::{Balance, Client};
use crate::errors::ProcessError;
use crate::transaction::{Transaction, TransactionStatus, TransactionType};
use std::collections::HashMap;
use vstd::prelude::*;

verus! {

broadcast use vstd::std_specs::hash::group_hash_axioms;

/// The largest magnitude of a single amount: `i64::MIN` has magnitude 2^63.
pub open spec fn amount_cap() -> int {
    0x8000_0000_0000_0000
}

/// After `n` applied records no balance has moved further than `n` amounts
/// from zero.
pub open spec fn cap(n: nat) -> int {
    n * amount_cap()
}

pub open spec fn within(b: Balance, n: nat) -> bool {
    &&& -cap(n) <= b.available <= cap(n)
    &&& -cap(n) <= b.held <= cap(n)
    &&& -cap(n) <= b.total <= cap(n)
}

pub open spec fn with_status(t: Transaction, s: TransactionStatus) -> Transaction {
    Transaction { status: s, ..t }
}

/// The model of the engine: the account ledger, the transaction log with its
/// index from a deposit's `tx` to its position, and the cursor that marks the
/// next record to apply.
pub struct Ledger {
    pub cursor: nat,
    pub clients: Map<u16, Balance>,
    pub records: Seq<Transaction>,
    pub index: Map<u32, usize>,
}

impl Ledger {
    /// The account of `id` as it stands, or a zeroed one if none was written.
    pub open spec fn account(self, id: u16) -> Balance {
        if self.clients.contains_key(id) {
            self.clients[id]
        } else {
            Balance::zero(id)
        }
    }

    /// The record at the cursor.
    pub open spec fn current(self) -> Transaction {
        self.records[self.cursor as int]
    }

    /// The cursor moves on and nothing else changes.
    pub open spec fn skip(self) -> Ledger {
        Ledger {
            cursor: self.cursor + 1,
            clients: self.clients,
            records: self.records,
            index: self.index,
        }
    }

    /// The cursor moves on and `b` replaces its client's account.
    pub open spec fn commit(self, b: Balance) -> Ledger {
        Ledger {
            cursor: self.cursor + 1,
            clients: self.clients.insert(b.id, b),
            records: self.records,
            index: self.index,
        }
    }

    /// As `commit`, and the record at position `p` takes status `s`.
    pub open spec fn commit_marking(self, b: Balance, p: usize, s: TransactionStatus) -> Ledger {
        Ledger {
            cursor: self.cursor + 1,
            clients: self.clients.insert(b.id, b),
            records: self.records.update(p as int, with_status(self.records[p as int], s)),
            index: self.index,
        }
    }

    /// Applies the record at the cursor: the new ledger and the outcome.
    pub open spec fn step(self) -> (Ledger, Result<(), ProcessError>) {
        let t = self.current();
        let c = self.account(t.client);
        match t.tx_type {
            TransactionType::Deposit => {
                let a = t.spec_amount();
                let b = Balance { available: c.available + a, total: c.total + a, ..c };
                let next = self.commit(b);
                (
                    Ledger {
                        cursor: next.cursor,
                        clients: next.clients,
                        records: next.records,
                        index: self.index.insert(t.tx, self.cursor as usize),
                    },
                    Ok(()),
                )
            },
            TransactionType::Withdrawal => {
                let a = t.spec_amount();
                if c.available < a {
                    (self.skip(), Err(ProcessError::InsufficientFunds))
                } else {
                    (
                        self.commit(Balance { available: c.available - a, total: c.total - a, ..c }),
                        Ok(()),
                    )
                }
            },
            TransactionType::Dispute => {
                if !self.index.contains_key(t.tx) {
                    (self.skip(), Err(ProcessError::TransactionNotFound))
                } else {
                    let p = self.index[t.tx];
                    let d = self.records[p as int];
                    let a = d.spec_amount();
                    if d.tx_type != TransactionType::Deposit || d.status
                        != TransactionStatus::Nominal {
                        (self.skip(), Err(ProcessError::InvalidDispute))
                    } else if c.available < a {
                        (self.skip(), Err(ProcessError::DisputeAfterWithdrawal))
                    } else {
                        (
                            self.commit_marking(
                                Balance { available: c.available - a, held: c.held + a, ..c },
                                p,
                                TransactionStatus::Disputed,
                            ),
                            Ok(()),
                        )
                    }
                }
            },
            TransactionType::Resolve => {
                if !self.index.contains_key(t.tx) {
                    (self.skip(), Err(ProcessError::TransactionNotFound))
                } else {
                    let p = self.index[t.tx];
                    let d = self.records[p as int];
                    let a = d.spec_amount();
                    if d.tx_type != TransactionType::Deposit || d.status
                        != TransactionStatus::Disputed {
                        (self.skip(), Err(ProcessError::InvalidResolve))
                    } else {
                        (
                            self.commit_marking(
                                Balance { available: c.available + a, held: c.held - a, ..c },
                                p,
                                TransactionStatus::Nominal,
                            ),
                            Ok(()),
                        )
                    }
                }
            },
            TransactionType::Chargeback => {
                if !self.index.contains_key(t.tx) {
                    (self.skip(), Err(ProcessError::TransactionNotFound))
                } else {
                    let p = self.index[t.tx];
                    let d = self.records[p as int];
                    let a = d.spec_amount();
                    if d.tx_type != TransactionType::Deposit || d.status
                        != TransactionStatus::Disputed {
                        (self.skip(), Err(ProcessError::InvalidChargeback))
                    } else {
                        (
                            self.commit_marking(
                                Balance { held: c.held - a, total: c.total - a, locked: true, ..c },
                                p,
                                TransactionStatus::ChargedBack,
                            ),
                            Ok(()),
                        )
                    }
                }
            },
        }
    }

    /// Applies the next `n` records: the final ledger, the number of
    /// records applied and the number that failed.
    pub open spec fn steps(self, n: nat) -> (Ledger, nat, nat)
        decreases n,
    {
        if n == 0 {
            (self, 0, 0)
        } else {
            let (next, r) = self.step();
            let (last, ok, failed) = next.steps((n - 1) as nat);
            if r is Ok {
                (last, ok + 1, failed)
            } else {
                (last, ok, failed + 1)
            }
        }
    }

    /// Applies every record from the cursor to the end of the log.
    pub open spec fn run(self) -> (Ledger, nat, nat) {
        self.steps((self.records.len() - self.cursor) as nat)
    }

    /// The invariants of the engine.
    pub open spec fn wf(self) -> bool {
        &&& self.cursor <= self.records.len()
        &&& self.records.len() <= usize::MAX
        &&& forall|tx: u32| #[trigger]
            self.index.contains_key(tx) ==> self.index[tx] < self.cursor
        &&& forall|i: int|
            self.cursor <= i < self.records.len() ==> #[trigger] self.records[i].status
                == TransactionStatus::Nominal
        &&& forall|id: u16| #[trigger]
            self.clients.contains_key(id) ==> {
                let b = self.clients[id];
                &&& b.id == id
                &&& b.balanced()
                &&& within(b, self.cursor)
            }
    }
}

proof fn lemma_cap_next(n: nat)
    ensures
        cap(n + 1) == cap(n) + amount_cap(),
        cap(n) >= 0,
{
    assert((n + 1) * amount_cap() == n * amount_cap() + amount_cap()) by (nonlinear_arith);
    assert(n * amount_cap() >= 0) by (nonlinear_arith);
}

proof fn lemma_cap_fits(n: nat)
    requires
        n <= usize::MAX,
    ensures
        cap(n) <= i128::MAX,
{
    assert(n * amount_cap() <= 0xffff_ffff_ffff_ffff * amount_cap()) by (nonlinear_arith)
        requires
            n <= 0xffff_ffff_ffff_ffff,
    ;
}

/// A step keeps the engine's invariants, moves the cursor by one and keeps
/// the log's length.
pub proof fn lemma_step_wf(s: Ledger)
    requires
        s.wf(),
        s.cursor < s.records.len(),
    ensures
        s.step().0.wf(),
        s.step().0.cursor == s.cursor + 1,
        s.step().0.records.len() == s.records.len(),
{
    lemma_cap_next(s.cursor);
    let next = s.step().0;
    assert forall|id: u16| #[trigger] next.clients.contains_key(id) implies {
        let b = next.clients[id];
        &&& b.id == id
        &&& b.balanced()
        &&& within(b, next.cursor)
    } by {
        if s.clients.contains_key(id) {
            assert(within(s.clients[id], s.cursor));
        }
    }
}

/// Running to the end keeps the engine's invariants.
pub proof fn lemma_steps_wf(s: Ledger, n: nat)
    requires
        s.wf(),
        s.cursor + n <= s.records.len(),
    ensures
        s.steps(n).0.wf(),
        s.steps(n).0.cursor == s.cursor + n,
        s.steps(n).0.records.len() == s.records.len(),
        s.steps(n).1 + s.steps(n).2 == n,
    decreases n,
{
    if n > 0 {
        lemma_step_wf(s);
        lemma_steps_wf(s.step().0, (n - 1) as nat);
    }
}

/// The processing engine: the account ledger, the transaction log and the
/// index from a deposit's `tx` to its position in the log.
#[derive(Debug)]
pub struct Context {
    batch_idx: usize,
    clients: HashMap<u16, Client>,
    transactions: Vec<Transaction>,
    transaction_cache: HashMap<u32, usize>,
}

impl View for Context {
    type V = Ledger;

    closed spec fn view(&self) -> Ledger {
        Ledger {
            cursor: self.batch_idx as nat,
            clients: self.clients@.map_values(|c: Client| c@),
            records: self.transactions@,
            index: self.transaction_cache@,
        }
    }
}

impl Default for Context {
    /// An engine with an empty log and an empty ledger.
    fn default() -> (r: Self)
        ensures
            r.wf(),
            r@.cursor == 0,
            r@.clients == Map::<u16, Balance>::empty(),
            r@.records == Seq::<Transaction>::empty(),
            r@.index == Map::<u32, usize>::empty(),
    {
        let r = Context {
            batch_idx: 0,
            clients: HashMap::new(),
            transactions: Vec::new(),
            transaction_cache: HashMap::new(),
        };
        assert(r@.clients =~= Map::<u16, Balance>::empty());
        r
    }
}

impl Context {
    pub open spec fn wf(&self) -> bool {
        self@.wf()
    }

    /// Appends `records` to the log in their order. Each enters the log
    /// with status `Nominal`: the status is the engine's, not the input's.
    pub fn append_in_order(&mut self, records: Vec<Transaction>)
        requires
            old(self).wf(),
            old(self)@.records.len() + records@.len() <= usize::MAX,
        ensures
            final(self).wf(),
            final(self)@.records == old(self)@.records + records@.map_values(
                |t: Transaction| with_status(t, TransactionStatus::Nominal),
            ),
            final(self)@.cursor == old(self)@.cursor,
            final(self)@.clients == old(self)@.clients,
            final(self)@.index == old(self)@.index,
    {
        let ghost start = self@;
        let mut i: usize = 0;
        while i < records.len()
            invariant
                self.wf(),
                i <= records@.len(),
                start.records.len() + records@.len() <= usize::MAX,
                self@.records == start.records + records@.subrange(0, i as int).map_values(
                    |t: Transaction| with_status(t, TransactionStatus::Nominal),
                ),
                self@.cursor == start.cursor,
                self@.clients == start.clients,
                self@.index == start.index,
            decreases records@.len() - i,
        {
            let t = records[i];
            self.transactions.push(Transaction { status: TransactionStatus::Nominal, ..t });
            i = i + 1;
            assert(records@.subrange(0, i as int) =~= records@.subrange(0, i - 1).push(t));
            assert(self@.records =~= start.records + records@.subrange(0, i as int).map_values(
                |t: Transaction| with_status(t, TransactionStatus::Nominal),
            ));
        }
        assert(records@.subrange(0, i as int) =~= records@);
    }

    /// The position of the deposit indexed under `tx`, if one was applied.
    pub fn find_deposit(&self, tx: u32) -> (r: Option<usize>)
        requires
            self.wf(),
        ensures
            r == (if self@.index.contains_key(tx) {
                Some(self@.index[tx])
            } else {
                None
            }),
    {
        match self.transaction_cache.get(&tx) {
            Some(p) => Some(*p),
            None => None,
        }
    }

    /// The account of `id` as it stands, or a fresh zeroed one. The fresh
    /// one is not stored.
    pub fn get_or_create(&self, id: u16) -> (r: Client)
        requires
            self.wf(),
        ensures
            r@ == self@.account(id),
    {
        match self.clients.get(&id) {
            Some(c) => *c,
            None => Client::new(id),
        }
    }

    /// Stores `c` as the account of its client and moves the cursor on.
    fn apply(&mut self, c: Client)
        requires
            old(self).batch_idx < usize::MAX,
        ensures
            final(self)@ == old(self)@.commit(c@),
    {
        let ghost start = self@;
        self.clients.insert(c.id, c);
        self.batch_idx = self.batch_idx + 1;
        assert(self@.clients =~= start.clients.insert(c.id, c@));
    }

    /// Sets the status of the record at `p`.
    fn mark(&mut self, p: usize, s: TransactionStatus)
        requires
            p < old(self)@.records.len(),
        ensures
            final(self)@.records == old(self)@.records.update(
                p as int,
                with_status(old(self)@.records[p as int], s),
            ),
            final(self)@.cursor == old(self)@.cursor,
            final(self)@.clients == old(self)@.clients,
            final(self)@.index == old(self)@.index,
    {
        let t = self.transactions[p];
        self.transactions.set(p, Transaction { status: s, ..t });
    }

    /// Applies the record at the cursor and moves the cursor on.
    fn process(&mut self) -> (r: Result<(), ProcessError>)
        requires
            old(self).wf(),
            old(self)@.cursor < old(self)@.records.len(),
        ensures
            final(self).wf(),
            (final(self)@, r) == old(self)@.step(),
    {
        proof {
            lemma_step_wf(self@);
            lemma_cap_next(self@.cursor);
            lemma_cap_fits(self@.cursor + 1);
        }
        let ghost start = self@;
        let idx = self.batch_idx;
        let t = self.transactions[idx];
        let c = self.get_or_create(t.client);
        assert(within(c@, start.cursor));
        match t.tx_type {
            TransactionType::Deposit => {
                self.transaction_cache.insert(t.tx, idx);
                let a = t.amount_or_zero() as i128;
                self.apply(Client { available: c.available + a, total: c.total + a, ..c });
                Ok(())
            },
            TransactionType::Withdrawal => {
                let a = t.amount_or_zero() as i128;
                if c.available < a {
                    self.batch_idx = idx + 1;
                    Err(ProcessError::InsufficientFunds)
                } else {
                    self.apply(Client { available: c.available - a, total: c.total - a, ..c });
                    Ok(())
                }
            },
            TransactionType::Dispute => match self.find_deposit(t.tx) {
                None => {
                    self.batch_idx = idx + 1;
                    Err(ProcessError::TransactionNotFound)
                },
                Some(p) => {
                    let d = self.transactions[p];
                    let a = d.amount_or_zero() as i128;
                    if d.tx_type != TransactionType::Deposit || d.status
                        != TransactionStatus::Nominal {
                        self.batch_idx = idx + 1;
                        Err(ProcessError::InvalidDispute)
                    } else if c.available < a {
                        self.batch_idx = idx + 1;
                        Err(ProcessError::DisputeAfterWithdrawal)
                    } else {
                        self.mark(p, TransactionStatus::Disputed);
                        self.apply(Client { available: c.available - a, held: c.held + a, ..c });
                        Ok(())
                    }
                },
            },
            TransactionType::Resolve => match self.find_deposit(t.tx) {
                None => {
                    self.batch_idx = idx + 1;
                    Err(ProcessError::TransactionNotFound)
                },
                Some(p) => {
                    let d = self.transactions[p];
                    let a = d.amount_or_zero() as i128;
                    if d.tx_type != TransactionType::Deposit || d.status
                        != TransactionStatus::Disputed {
                        self.batch_idx = idx + 1;
                        Err(ProcessError::InvalidResolve)
                    } else {
                        self.mark(p, TransactionStatus::Nominal);
                        self.apply(Client { available: c.available + a, held: c.held - a, ..c });
                        Ok(())
                    }
                },
            },
            TransactionType::Chargeback => match self.find_deposit(t.tx) {
                None => {
                    self.batch_idx = idx + 1;
                    Err(ProcessError::TransactionNotFound)
                },
                Some(p) => {
                    let d = self.transactions[p];
                    let a = d.amount_or_zero() as i128;
                    if d.tx_type != TransactionType::Deposit || d.status
                        != TransactionStatus::Disputed {
                        self.batch_idx = idx + 1;
                        Err(ProcessError::InvalidChargeback)
                    } else {
                        self.mark(p, TransactionStatus::ChargedBack);
                        self.apply(
                            Client { held: c.held - a, total: c.total - a, locked: true, ..c },
                        );
                        Ok(())
                    }
                },
            },
        }
    }

    /// Applies the record at the cursor, if any is left, and moves on.
    pub fn process_next(&mut self) -> (r: Option<Result<(), ProcessError>>)
        requires
            old(self).wf(),
        ensures
            final(self).wf(),
            old(self)@.cursor < old(self)@.records.len() ==> r == Some(old(self)@.step().1)
                && final(self)@ == old(self)@.step().0,
            old(self)@.cursor >= old(self)@.records.len() ==> r is None && final(self)@ == old(
                self,
            )@,
    {
        if self.batch_idx < self.transactions.len() {
            Some(self.process())
        } else {
            None
        }
    }

    /// Applies every record from the cursor to the end of the log, in order.
    /// Returns how many were applied and how many failed.
    pub fn batch(&mut self) -> (r: (usize, usize))
        requires
            old(self).wf(),
        ensures
            final(self).wf(),
            final(self)@ == old(self)@.run().0,
            r.0 as nat == old(self)@.run().1,
            r.1 as nat == old(self)@.run().2,
            final(self)@.cursor == final(self)@.records.len(),
    {
        let ghost start = self@;
        let ghost total = start.run();
        let mut successes: usize = 0;
        let mut failures: usize = 0;
        proof {
            lemma_steps_wf(start, (start.records.len() - start.cursor) as nat);
        }
        while self.batch_idx < self.transactions.len()
            invariant
                self.wf(),
                self@.records.len() == start.records.len(),
                start.cursor <= self@.cursor,
                successes + failures == self@.cursor - start.cursor,
                total == start.run(),
                ({
                    let rest = self@.run();
                    &&& rest.0 == total.0
                    &&& successes + rest.1 == total.1
                    &&& failures + rest.2 == total.2
                }),
            decreases self@.records.len() - self@.cursor,
        {
            let ghost before = self@;
            proof {
                lemma_step_wf(before);
            }
            match self.process() {
                Ok(_) => successes = successes + 1,
                Err(_) => failures = failures + 1,
            }
            assert(before.steps((before.records.len() - before.cursor) as nat)
                == before.run());
        }
        (successes, failures)
    }

    /// The position of the next record to apply.
    pub fn cursor(&self) -> (r: usize)
        ensures
            r as nat == self@.cursor,
    {
        self.batch_idx
    }

    /// Every account in the ledger, in ascending order of client id.
    pub fn accounts(&self) -> (r: Vec<Client>)
        requires
            self.wf(),
        ensures
            forall|i: int, j: int| 0 <= i < j < r@.len() ==> r@[i].id < r@[j].id,
            forall|i: int|
                0 <= i < r@.len() ==> self@.clients.contains_key(#[trigger] r@[i].id)
                    && self@.clients[r@[i].id] == r@[i]@,
            forall|id: u16|
                #[trigger] self@.clients.contains_key(id) ==> exists|i: int|
                    0 <= i < r@.len() && r@[i].id == id,
    {
        let mut r: Vec<Client> = Vec::new();
        let mut k: u32 = 0;
        while k <= 0xffff
            invariant
                self.wf(),
                k <= 0x10000,
                forall|i: int| 0 <= i < r@.len() ==> r@[i].id < k,
                forall|i: int, j: int| 0 <= i < j < r@.len() ==> r@[i].id < r@[j].id,
                forall|i: int|
                    0 <= i < r@.len() ==> self@.clients.contains_key(#[trigger] r@[i].id)
                        && self@.clients[r@[i].id] == r@[i]@,
                forall|id: u16|
                    id < k && #[trigger] self@.clients.contains_key(id) ==> exists|i: int|
                        0 <= i < r@.len() && r@[i].id == id,
            decreases 0x10000 - k,
        {
            let id = k as u16;
            match self.clients.get(&id) {
                Some(c) => {
                    let ghost old_r = r@;
                    assert(self@.clients.contains_key(id) && self@.clients[id] == c@);
                    assert(c.id == id && id as u32 == k);
                    r.push(*c);
                    assert forall|j: u16|
                        j < k + 1 && #[trigger] self@.clients.contains_key(j) implies exists|
                        i: int,
                    | 0 <= i < r@.len() && r@[i].id == j by {
                        if j < k {
                            let i = choose|i: int| 0 <= i < old_r.len() && old_r[i].id == j;
                            assert(r@[i].id == j);
                        } else {
                            assert(r@[r@.len() - 1].id == j);
                        }
                    }
                },
                None => {},
            }
            k = k + 1;
        }
        r
    }
}

} // verus!
