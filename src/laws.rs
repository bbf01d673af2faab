//! What holds of every run of the engine, stated over the model `Ledger`.
use crate::client::Balance;
use crate::context::{lemma_step_wf, Ledger};
use crate::errors::ProcessError;
use crate::transaction::{Transaction, TransactionStatus, TransactionType};
use vstd::prelude::*;

verus! {

/// After any record is applied, successfully or not, every account in the
/// ledger has `total == available + held`; so does every account after
/// any number of records.
pub proof fn lemma_balanced_after_steps(s: Ledger, n: nat)
    requires
        s.wf(),
        s.cursor + n <= s.records.len(),
    ensures
        forall|id: u16| #[trigger]
            s.steps(n).0.clients.contains_key(id) ==> s.steps(n).0.clients[id].balanced(),
    decreases n,
{
    if n > 0 {
        lemma_step_wf(s);
        lemma_balanced_after_steps(s.step().0, (n - 1) as nat);
        assert(s.steps(n).0 == s.step().0.steps((n - 1) as nat).0);
    } else {
        assert forall|id: u16| #[trigger]
            s.steps(n).0.clients.contains_key(id) implies s.steps(n).0.clients[id].balanced() by {
            assert(s.clients.contains_key(id));
        }
    }
}

/// Once a client's account is locked, it stays in the ledger and stays
/// locked for every later record.
pub proof fn lemma_locked_stays_locked(s: Ledger, n: nat, id: u16)
    requires
        s.wf(),
        s.cursor + n <= s.records.len(),
        s.clients.contains_key(id),
        s.clients[id].locked,
    ensures
        s.steps(n).0.clients.contains_key(id),
        s.steps(n).0.clients[id].locked,
    decreases n,
{
    if n > 0 {
        lemma_step_wf(s);
        lemma_locked_stays_locked(s.step().0, (n - 1) as nat, id);
    }
}

/// The record at position `i` of `s` is a `kind` record of `client` on `tx`.
pub open spec fn record_is(s: Ledger, i: int, kind: TransactionType, client: u16, tx: u32) -> bool {
    let t = s.records[i];
    t.tx_type == kind && t.client == client && t.tx == tx
}

pub open spec fn same_balances(a: Balance, b: Balance) -> bool {
    a.available == b.available && a.held == b.held && a.total == b.total
}

/// A deposit, then a dispute of it, then a resolve of it, all by the same
/// client, succeed and leave the client's balances as the deposit left them.
/// The dispute succeeds only if the client's available funds were not
/// negative before the deposit.
pub proof fn lemma_dispute_resolve_round_trip(s: Ledger, client: u16, tx: u32)
    requires
        s.wf(),
        s.cursor + 3 <= s.records.len(),
        record_is(s, s.cursor as int, TransactionType::Deposit, client, tx),
        record_is(s, s.cursor + 1 as int, TransactionType::Dispute, client, tx),
        record_is(s, s.cursor + 2 as int, TransactionType::Resolve, client, tx),
        s.account(client).available >= 0,
    ensures
        ({
            let (s1, r1) = s.step();
            let (s2, r2) = s1.step();
            let (s3, r3) = s2.step();
            &&& r1 is Ok && r2 is Ok && r3 is Ok
            &&& s2.account(client).held == s1.account(client).held + s.current().spec_amount()
            &&& same_balances(s3.account(client), s1.account(client))
        }),
{
    lemma_step_wf(s);
    let s1 = s.step().0;
    assert(s.records[s.cursor as int].status == TransactionStatus::Nominal);
    assert(s1.index[tx] == s.cursor);
    lemma_step_wf(s1);
    let s2 = s1.step().0;
    assert(s2.index[tx] == s.cursor);
}

/// A deposit, then a dispute of it, then a chargeback of it, all by the same
/// client, succeed; the chargeback takes the deposited amount out of the held
/// and the total funds that the dispute left, so that the total is what it
/// was before the deposit and the held funds are what the deposit left; and
/// the account is locked.
pub proof fn lemma_dispute_chargeback(s: Ledger, client: u16, tx: u32)
    requires
        s.wf(),
        s.cursor + 3 <= s.records.len(),
        record_is(s, s.cursor as int, TransactionType::Deposit, client, tx),
        record_is(s, s.cursor + 1 as int, TransactionType::Dispute, client, tx),
        record_is(s, s.cursor + 2 as int, TransactionType::Chargeback, client, tx),
        s.account(client).available >= 0,
    ensures
        ({
            let a = s.current().spec_amount();
            let (s1, r1) = s.step();
            let (s2, r2) = s1.step();
            let (s3, r3) = s2.step();
            &&& r1 is Ok && r2 is Ok && r3 is Ok
            &&& s3.account(client).held == s2.account(client).held - a
            &&& s3.account(client).total == s2.account(client).total - a
            &&& s3.account(client).total == s1.account(client).total - a
            &&& s3.account(client).held == s1.account(client).held
            &&& s3.account(client).available == s1.account(client).available - a
            &&& s3.account(client).locked
        }),
{
    lemma_step_wf(s);
    let s1 = s.step().0;
    assert(s.records[s.cursor as int].status == TransactionStatus::Nominal);
    assert(s1.index[tx] == s.cursor);
    lemma_step_wf(s1);
    let s2 = s1.step().0;
    assert(s2.index[tx] == s.cursor);
}

/// A withdrawal of more than the available funds fails with
/// `InsufficientFunds` and changes nothing but the cursor.
pub proof fn lemma_overdraw_fails(s: Ledger)
    requires
        s.wf(),
        s.cursor < s.records.len(),
        s.current().tx_type == TransactionType::Withdrawal,
        s.current().spec_amount() > s.account(s.current().client).available,
    ensures
        s.step() == (s.skip(), Err::<(), ProcessError>(ProcessError::InsufficientFunds)),
{
}

/// A dispute of a `tx` that no applied deposit carries fails with
/// `TransactionNotFound` and changes nothing but the cursor.
pub proof fn lemma_dispute_unknown_fails(s: Ledger)
    requires
        s.wf(),
        s.cursor < s.records.len(),
        s.current().tx_type == TransactionType::Dispute,
        !s.index.contains_key(s.current().tx),
    ensures
        s.step() == (s.skip(), Err::<(), ProcessError>(ProcessError::TransactionNotFound)),
{
}

/// A withdrawal never makes its `tx` a target for disputes: a dispute of a
/// withdrawal's `tx` that no deposit carries fails with `TransactionNotFound`
/// and leaves the ledger's accounts as the withdrawal left them.
pub proof fn lemma_dispute_of_withdrawal_fails(s: Ledger, tx: u32)
    requires
        s.wf(),
        s.cursor + 2 <= s.records.len(),
        s.records[s.cursor as int].tx_type == TransactionType::Withdrawal,
        s.records[s.cursor as int].tx == tx,
        s.records[s.cursor + 1 as int].tx_type == TransactionType::Dispute,
        s.records[s.cursor + 1 as int].tx == tx,
        !s.index.contains_key(tx),
    ensures
        ({
            let s1 = s.step().0;
            let (s2, r2) = s1.step();
            &&& r2 == Err::<(), ProcessError>(ProcessError::TransactionNotFound)
            &&& s2.clients == s1.clients
            &&& s2.records == s1.records
        }),
{
    lemma_step_wf(s);
}

/// A resolve or a chargeback of a deposit that is not under dispute fails
/// with `InvalidResolve` or `InvalidChargeback` and changes nothing but the
/// cursor.
pub proof fn lemma_settle_undisputed_fails(s: Ledger)
    requires
        s.wf(),
        s.cursor < s.records.len(),
        s.current().tx_type == TransactionType::Resolve || s.current().tx_type
            == TransactionType::Chargeback,
        s.index.contains_key(s.current().tx),
        s.records[s.index[s.current().tx] as int].tx_type == TransactionType::Deposit,
        s.records[s.index[s.current().tx] as int].status == TransactionStatus::Nominal,
    ensures
        s.step().0 == s.skip(),
        s.current().tx_type == TransactionType::Resolve ==> s.step().1 == Err::<(), ProcessError>(
            ProcessError::InvalidResolve,
        ),
        s.current().tx_type == TransactionType::Chargeback ==> s.step().1 == Err::<
            (),
            ProcessError,
        >(ProcessError::InvalidChargeback),
{
}

} // verus!
