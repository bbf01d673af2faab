use ledger::{Client, Context, ProcessError, Transaction, TransactionStatus, TransactionType};

const ONE: i64 = 10000;

fn record(kind: TransactionType, client: u16, tx: u32, amount: Option<i64>) -> Transaction {
    Transaction::new(kind, client, tx, amount)
}

fn deposit(client: u16, tx: u32, amount: i64) -> Transaction {
    record(TransactionType::Deposit, client, tx, Some(amount))
}

fn withdrawal(client: u16, tx: u32, amount: i64) -> Transaction {
    record(TransactionType::Withdrawal, client, tx, Some(amount))
}

fn dispute(client: u16, tx: u32) -> Transaction {
    record(TransactionType::Dispute, client, tx, None)
}

fn resolve(client: u16, tx: u32) -> Transaction {
    record(TransactionType::Resolve, client, tx, None)
}

fn chargeback(client: u16, tx: u32) -> Transaction {
    record(TransactionType::Chargeback, client, tx, None)
}

fn context(records: Vec<Transaction>) -> Context {
    let mut ctx = Context::default();
    ctx.append_in_order(records);
    ctx
}

fn next(ctx: &mut Context) -> Result<(), ProcessError> {
    ctx.process_next().expect("a record is left")
}

fn balances(c: &Client) -> (i128, i128, i128, bool) {
    (c.available, c.held, c.total, c.locked)
}

#[test]
fn dispute_after_withdrawal_scenario() {
    let mut ctx = context(vec![deposit(1, 1, ONE), withdrawal(1, 2, ONE / 2), dispute(1, 1)]);
    assert_eq!(next(&mut ctx), Ok(()));
    assert_eq!(balances(&ctx.get_or_create(1)), (10000, 0, 10000, false));
    assert_eq!(next(&mut ctx), Ok(()));
    assert_eq!(balances(&ctx.get_or_create(1)), (5000, 0, 5000, false));
    assert_eq!(next(&mut ctx), Err(ProcessError::DisputeAfterWithdrawal));
    assert_eq!(balances(&ctx.get_or_create(1)), (5000, 0, 5000, false));
    assert_eq!(ctx.process_next(), None);
}

#[test]
fn dispute_then_resolve_scenario() {
    let mut ctx = context(vec![deposit(2, 3, 2 * ONE), dispute(2, 3), resolve(2, 3)]);
    assert_eq!(next(&mut ctx), Ok(()));
    assert_eq!(next(&mut ctx), Ok(()));
    assert_eq!(balances(&ctx.get_or_create(2)), (0, 20000, 20000, false));
    assert_eq!(next(&mut ctx), Ok(()));
    assert_eq!(balances(&ctx.get_or_create(2)), (20000, 0, 20000, false));
}

#[test]
fn dispute_then_chargeback_scenario() {
    let mut ctx = context(vec![deposit(3, 4, 5 * ONE), dispute(3, 4), chargeback(3, 4)]);
    assert_eq!(ctx.batch(), (3, 0));
    assert_eq!(balances(&ctx.get_or_create(3)), (0, 0, 0, true));
}

#[test]
fn unknown_dispute_scenario() {
    let mut ctx = context(vec![dispute(4, 999)]);
    assert_eq!(next(&mut ctx), Err(ProcessError::TransactionNotFound));
    assert_eq!(balances(&ctx.get_or_create(4)), (0, 0, 0, false));
    assert_eq!(ctx.get_or_create(4).id, 4);
    // A failed record has no effect at all: the ledger holds no entry for it.
    assert!(ctx.accounts().is_empty());
}

#[test]
fn totals_stay_balanced() {
    let mut ctx = context(vec![
        deposit(1, 1, 3 * ONE),
        deposit(2, 2, 7 * ONE),
        withdrawal(1, 3, ONE),
        dispute(2, 2),
        withdrawal(2, 4, ONE),
        dispute(1, 1),
        resolve(1, 1),
        chargeback(2, 2),
        dispute(1, 3),
    ]);
    while let Some(_) = ctx.process_next() {
        for c in ctx.accounts() {
            assert_eq!(c.total, c.available + c.held);
        }
    }
}

#[test]
fn locked_stays_locked() {
    let mut ctx = context(vec![
        deposit(5, 1, ONE),
        dispute(5, 1),
        chargeback(5, 1),
        deposit(5, 2, 4 * ONE),
        withdrawal(5, 3, ONE),
        dispute(5, 2),
        resolve(5, 2),
    ]);
    assert_eq!(ctx.batch(), (5, 2));
    let c = ctx.get_or_create(5);
    assert!(c.locked);
    // A locked account still takes later records.
    assert_eq!(balances(&c), (30000, 0, 30000, true));
}

#[test]
fn resolve_returns_pre_dispute_balances() {
    let amount = 12345;
    let mut ctx = context(vec![
        deposit(6, 1, ONE),
        deposit(6, 2, amount),
        dispute(6, 2),
        resolve(6, 2),
    ]);
    next(&mut ctx).unwrap();
    next(&mut ctx).unwrap();
    let after_deposit = balances(&ctx.get_or_create(6));
    next(&mut ctx).unwrap();
    assert_eq!(balances(&ctx.get_or_create(6)), (10000, 12345, 22345, false));
    next(&mut ctx).unwrap();
    assert_eq!(balances(&ctx.get_or_create(6)), after_deposit);
}

#[test]
fn chargeback_removes_disputed_amount() {
    let mut ctx = context(vec![deposit(7, 1, ONE), deposit(7, 2, 2 * ONE), dispute(7, 2), chargeback(7, 2)]);
    next(&mut ctx).unwrap();
    next(&mut ctx).unwrap();
    let (_, held, total, _) = balances(&ctx.get_or_create(7));
    next(&mut ctx).unwrap();
    next(&mut ctx).unwrap();
    let c = ctx.get_or_create(7);
    assert_eq!(c.total, total - 20000);
    assert_eq!(c.held, held);
    assert_eq!(c.available, 10000);
    assert!(c.locked);
}

#[test]
fn overdraw_fails_and_changes_nothing() {
    let mut ctx = context(vec![deposit(8, 1, ONE), withdrawal(8, 2, ONE + 1)]);
    next(&mut ctx).unwrap();
    let before = ctx.accounts();
    assert_eq!(next(&mut ctx), Err(ProcessError::InsufficientFunds));
    assert_eq!(ctx.accounts(), before);
}

#[test]
fn withdrawal_of_exact_balance_succeeds() {
    let mut ctx = context(vec![deposit(8, 1, ONE), withdrawal(8, 2, ONE)]);
    assert_eq!(ctx.batch(), (2, 0));
    assert_eq!(balances(&ctx.get_or_create(8)), (0, 0, 0, false));
}

#[test]
fn overdraw_by_new_client_creates_no_account() {
    let mut ctx = context(vec![withdrawal(9, 1, ONE)]);
    assert_eq!(next(&mut ctx), Err(ProcessError::InsufficientFunds));
    assert!(ctx.accounts().is_empty());
}

#[test]
fn dispute_of_withdrawal_is_not_found() {
    let mut ctx = context(vec![deposit(10, 1, 5 * ONE), withdrawal(10, 2, ONE), dispute(10, 2)]);
    next(&mut ctx).unwrap();
    next(&mut ctx).unwrap();
    let before = ctx.accounts();
    assert_eq!(next(&mut ctx), Err(ProcessError::TransactionNotFound));
    assert_eq!(ctx.accounts(), before);
    assert_eq!(ctx.find_deposit(2), None);
    assert_eq!(ctx.find_deposit(1), Some(0));
}

#[test]
fn dispute_before_its_deposit_is_not_found() {
    let mut ctx = context(vec![dispute(11, 1), deposit(11, 1, ONE)]);
    assert_eq!(next(&mut ctx), Err(ProcessError::TransactionNotFound));
    assert_eq!(next(&mut ctx), Ok(()));
}

#[test]
fn settling_an_undisputed_deposit_fails() {
    let mut ctx = context(vec![deposit(12, 1, ONE), resolve(12, 1), chargeback(12, 1)]);
    next(&mut ctx).unwrap();
    let before = ctx.accounts();
    assert_eq!(next(&mut ctx), Err(ProcessError::InvalidResolve));
    assert_eq!(ctx.accounts(), before);
    assert_eq!(next(&mut ctx), Err(ProcessError::InvalidChargeback));
    assert_eq!(ctx.accounts(), before);
}

#[test]
fn settling_unknown_tx_is_not_found() {
    let mut ctx = context(vec![resolve(13, 7), chargeback(13, 7)]);
    assert_eq!(next(&mut ctx), Err(ProcessError::TransactionNotFound));
    assert_eq!(next(&mut ctx), Err(ProcessError::TransactionNotFound));
}

#[test]
fn disputing_twice_is_invalid() {
    let mut ctx = context(vec![
        deposit(14, 1, ONE),
        dispute(14, 1),
        dispute(14, 1),
        chargeback(14, 1),
        dispute(14, 1),
        resolve(14, 1),
        chargeback(14, 1),
    ]);
    next(&mut ctx).unwrap();
    next(&mut ctx).unwrap();
    assert_eq!(next(&mut ctx), Err(ProcessError::InvalidDispute));
    next(&mut ctx).unwrap();
    assert_eq!(next(&mut ctx), Err(ProcessError::InvalidDispute));
    assert_eq!(next(&mut ctx), Err(ProcessError::InvalidResolve));
    assert_eq!(next(&mut ctx), Err(ProcessError::InvalidChargeback));
    assert_eq!(balances(&ctx.get_or_create(14)), (0, 0, 0, true));
}

#[test]
fn missing_amount_counts_as_zero() {
    // A deposit or withdrawal without an amount is accepted and moves nothing:
    // a deliberate, permissive default.
    let mut ctx = context(vec![
        record(TransactionType::Deposit, 15, 1, None),
        record(TransactionType::Withdrawal, 15, 2, None),
        dispute(15, 1),
    ]);
    assert_eq!(ctx.batch(), (3, 0));
    let c = ctx.get_or_create(15);
    assert_eq!(balances(&c), (0, 0, 0, false));
    assert_eq!(ctx.accounts(), vec![c]);
}

#[test]
fn batch_counts_and_resumes() {
    let mut ctx = context(vec![deposit(1, 1, ONE), withdrawal(1, 2, 2 * ONE), dispute(1, 1)]);
    assert_eq!(ctx.batch(), (2, 1));
    assert_eq!(ctx.cursor(), 3);
    assert_eq!(ctx.batch(), (0, 0));
    ctx.append_in_order(vec![resolve(1, 1), withdrawal(1, 3, ONE)]);
    assert_eq!(ctx.batch(), (2, 0));
    assert_eq!(ctx.cursor(), 5);
    assert_eq!(balances(&ctx.get_or_create(1)), (0, 0, 0, false));
}

#[test]
fn loaded_records_start_nominal() {
    let mut disputed = deposit(16, 1, ONE);
    disputed.status = TransactionStatus::Disputed;
    let mut ctx = context(vec![disputed, resolve(16, 1)]);
    next(&mut ctx).unwrap();
    assert_eq!(next(&mut ctx), Err(ProcessError::InvalidResolve));
}

#[test]
fn accounts_come_sorted_by_client() {
    let mut ctx = context(vec![
        deposit(65535, 1, ONE),
        deposit(3, 2, 2 * ONE),
        deposit(0, 3, 3 * ONE),
        deposit(200, 4, 4 * ONE),
        deposit(3, 5, ONE),
    ]);
    ctx.batch();
    let accounts = ctx.accounts();
    let ids: Vec<u16> = accounts.iter().map(|c| c.id).collect();
    assert_eq!(ids, vec![0, 3, 200, 65535]);
    assert_eq!(accounts[1].available, 30000);
    assert_eq!(accounts[1].total, 30000);
}

#[test]
fn extreme_amounts_do_not_overflow() {
    let mut ctx = context(vec![
        deposit(17, 1, i64::MAX),
        deposit(17, 2, i64::MAX),
        withdrawal(17, 3, i64::MIN),
        dispute(17, 1),
    ]);
    assert_eq!(ctx.batch(), (4, 0));
    let c = ctx.get_or_create(17);
    let max = i64::MAX as i128;
    assert_eq!(c.available, 2 * max - (i64::MIN as i128) - max);
    assert_eq!(c.held, max);
    assert_eq!(c.total, c.available + c.held);
}

#[test]
fn negative_deposit_is_applied() {
    let mut ctx = context(vec![deposit(18, 1, -ONE), dispute(18, 1)]);
    assert_eq!(next(&mut ctx), Ok(()));
    assert_eq!(balances(&ctx.get_or_create(18)), (-10000, 0, -10000, false));
    assert_eq!(next(&mut ctx), Ok(()));
    assert_eq!(balances(&ctx.get_or_create(18)), (0, -10000, -10000, false));
}

#[test]
fn new_client_is_zeroed() {
    let c = Client::new(42);
    assert_eq!(c.id, 42);
    assert_eq!(balances(&c), (0, 0, 0, false));
}

#[test]
fn error_messages() {
    assert_eq!(ProcessError::InsufficientFunds.message(), "Insufficient funds for withdrawal.");
    assert_eq!(
        ProcessError::TransactionNotFound.message(),
        "Transaction not found for dispute/resolve/chargeback."
    );
    assert_eq!(ProcessError::InvalidDispute.message(), "Dispute must target a deposit transaction.");
    assert_eq!(
        ProcessError::InvalidResolve.message(),
        "Resolve must target a deposit transaction that has been disputed."
    );
    assert_eq!(
        ProcessError::InvalidChargeback.message(),
        "Chargeback must target a deposit transaction that has been disputed."
    );
    assert_eq!(
        ProcessError::DisputeAfterWithdrawal.message(),
        "Funds already withdrawn cannot be disputed."
    );
}

#[test]
fn status_defaults_to_nominal() {
    assert_eq!(TransactionStatus::default(), TransactionStatus::Nominal);
    assert_eq!(deposit(1, 1, ONE).amount_or_zero(), ONE);
    assert_eq!(dispute(1, 1).amount_or_zero(), 0);
}
