use pneuma::error::BudgetError;
use pneuma::ledger::{FixedCost, Ledger, Payment, TxKind, TxSource};

fn current_period() -> String {
    chrono::Local::now().format("%Y-%m").to_string()
}

fn add_cost(ledger: &mut Ledger, name: &str, amount: i64) -> i64 {
    ledger.add_fixed_cost(name, amount, &current_period()).expect("insert fixed_cost").id
}

fn add_payment(ledger: &mut Ledger, fixed_cost_id: i64, period: &str, date: &str, tx_id: Option<i64>) {
    ledger.upsert_payment(Payment {
        fixed_cost_id,
        period_ym: period.to_string(),
        paid_date_local: Some(date.to_string()),
        paid_ts_utc: Some(1),
        tx_id,
    });
}

fn payment_count(ledger: &Ledger, fixed_cost_id: i64) -> usize {
    ledger.payments.iter().filter(|p| p.fixed_cost_id == fixed_cost_id).count()
}

fn tx_count(ledger: &Ledger, id: i64) -> usize {
    ledger.transactions.iter().filter(|t| t.id == id).count()
}

fn fixed_cost_tx_count(ledger: &Ledger, fixed_cost_id: i64) -> usize {
    ledger
        .transactions
        .iter()
        .filter(|t| {
            t.fixed_cost_id == Some(fixed_cost_id) && t.source == TxSource::FixedCost && t.kind == TxKind::Out
        })
        .count()
}

#[test]
fn unpaid_deletes_payment_and_transaction_on_legacy_not_null() {
    let mut ledger = Ledger::new();
    let fixed_cost_id = add_cost(&mut ledger, "Internet", 150000);
    let tx = ledger
        .insert_transaction(TxKind::Out, 150000, "2025-01-10", 1, TxSource::FixedCost, Some(fixed_cost_id))
        .expect("insert tx");
    add_payment(&mut ledger, fixed_cost_id, "2025-01", "2025-01-10", Some(tx.id));

    let result = ledger
        .mark_fixed_cost_unpaid(fixed_cost_id, None, &current_period())
        .expect("unpaid");
    assert!(result.paid_date_local.is_none());
    assert_eq!(payment_count(&ledger, fixed_cost_id), 0);
    assert_eq!(tx_count(&ledger, tx.id), 0);
}

#[test]
fn unpaid_uses_latest_period_when_none_provided() {
    let mut ledger = Ledger::new();
    let fixed_cost_id = add_cost(&mut ledger, "Sewa", 500000);
    add_payment(&mut ledger, fixed_cost_id, "2025-01", "2025-01-05", None);
    add_payment(&mut ledger, fixed_cost_id, "2025-02", "2025-02-05", None);

    let _ = ledger
        .mark_fixed_cost_unpaid(fixed_cost_id, None, &current_period())
        .expect("unpaid");
    assert_eq!(payment_count(&ledger, fixed_cost_id), 1);
    let period = &ledger.payments.iter().find(|p| p.fixed_cost_id == fixed_cost_id).expect("fetch period").period_ym;
    assert_eq!(period, "2025-01");
}

#[test]
fn paid_recreates_payment_when_tx_missing() {
    let mut ledger = Ledger::new();
    let fixed_cost_id = add_cost(&mut ledger, "Listrik", 200000);
    add_payment(&mut ledger, fixed_cost_id, "2025-03", "2025-03-10", Some(999));

    let result: FixedCost = ledger
        .mark_fixed_cost_paid(fixed_cost_id, "2025-03-10", 5)
        .expect("paid");
    assert!(result.paid_date_local.is_some());
    assert_eq!(payment_count(&ledger, fixed_cost_id), 1);
    assert_eq!(fixed_cost_tx_count(&ledger, fixed_cost_id), 1);
    let new_tx = ledger.transactions.last().unwrap();
    assert_eq!(result.paid_tx_id, Some(new_tx.id));
    assert_eq!(new_tx.amount, 200000);
    assert_eq!(new_tx.date_local, "2025-03-10");
}

#[test]
fn delete_transaction_removes_payment_row() {
    let mut ledger = Ledger::new();
    let fixed_cost_id = add_cost(&mut ledger, "Air", 100000);
    let tx = ledger
        .insert_transaction(TxKind::Out, 100000, "2025-04-01", 1, TxSource::FixedCost, Some(fixed_cost_id))
        .expect("insert tx");
    add_payment(&mut ledger, fixed_cost_id, "2025-04", "2025-04-01", Some(tx.id));

    ledger.delete_transaction(tx.id).expect("delete tx");
    let count = ledger.payments.iter().filter(|p| p.tx_id == Some(tx.id)).count();
    assert_eq!(count, 0);
}

#[test]
fn unpaid_is_idempotent() {
    let mut ledger = Ledger::new();
    let fixed_cost_id = add_cost(&mut ledger, "Wifi", 250000);
    add_payment(&mut ledger, fixed_cost_id, "2025-05", "2025-05-01", None);

    ledger.mark_fixed_cost_unpaid(fixed_cost_id, None, &current_period()).expect("unpaid");
    assert_eq!(payment_count(&ledger, fixed_cost_id), 0);
    ledger.mark_fixed_cost_unpaid(fixed_cost_id, None, &current_period()).expect("unpaid again");
    assert_eq!(payment_count(&ledger, fixed_cost_id), 0);
}

#[test]
fn unpaid_twice_with_date_leaves_ledger_unchanged_second_time() {
    let mut ledger = Ledger::new();
    let fixed_cost_id = add_cost(&mut ledger, "Wifi", 250000);
    ledger.mark_fixed_cost_paid(fixed_cost_id, "2025-05-03", 7).unwrap();
    assert_eq!(fixed_cost_tx_count(&ledger, fixed_cost_id), 1);
    ledger.mark_fixed_cost_unpaid(fixed_cost_id, Some("2025-05-20"), "2025-06").unwrap();
    assert_eq!(payment_count(&ledger, fixed_cost_id), 0);
    assert_eq!(fixed_cost_tx_count(&ledger, fixed_cost_id), 0);
    let txs_before = ledger.transactions.len();
    ledger.mark_fixed_cost_unpaid(fixed_cost_id, Some("2025-05-20"), "2025-06").unwrap();
    assert_eq!(payment_count(&ledger, fixed_cost_id), 0);
    assert_eq!(ledger.transactions.len(), txs_before);
}

#[test]
fn paid_then_delete_transaction_keeps_unlinked_row() {
    let mut ledger = Ledger::new();
    let fixed_cost_id = add_cost(&mut ledger, "Sewa", 500000);
    let paid = ledger.mark_fixed_cost_paid(fixed_cost_id, "2025-07-02", 9).unwrap();
    let tx_id = paid.paid_tx_id.expect("linked");
    ledger.delete_transaction(tx_id).unwrap();
    assert_eq!(payment_count(&ledger, fixed_cost_id), 1);
    let row = &ledger.payments[0];
    assert_eq!(row.period_ym, "2025-07");
    assert_eq!(row.tx_id, None);
    assert_eq!(row.paid_date_local, None);
    assert_eq!(tx_count(&ledger, tx_id), 0);
}

#[test]
fn paid_twice_refreshes_without_new_transaction() {
    let mut ledger = Ledger::new();
    let fixed_cost_id = add_cost(&mut ledger, "Listrik", 200000);
    let first = ledger.mark_fixed_cost_paid(fixed_cost_id, "2025-03-10", 5).unwrap();
    let second = ledger.mark_fixed_cost_paid(fixed_cost_id, "2025-03-15", 6).unwrap();
    assert_eq!(first.paid_tx_id, second.paid_tx_id);
    assert_eq!(second.paid_date_local.as_deref(), Some("2025-03-15"));
    assert_eq!(second.paid_ts_utc, Some(6));
    assert_eq!(fixed_cost_tx_count(&ledger, fixed_cost_id), 1);
    assert_eq!(payment_count(&ledger, fixed_cost_id), 1);
}

#[test]
fn paid_for_missing_fixed_cost_fails() {
    let mut ledger = Ledger::new();
    assert_eq!(
        ledger.mark_fixed_cost_paid(42, "2025-03-10", 5).map(|f| f.id),
        Err(BudgetError::FixedCostNotFound)
    );
    assert_eq!(
        ledger.mark_fixed_cost_unpaid(42, None, "2025-03").map(|f| f.id),
        Err(BudgetError::FixedCostNotFound)
    );
}

#[test]
fn paid_with_negative_amount_fails() {
    let mut ledger = Ledger::new();
    ledger.fixed_costs.push(pneuma::ledger::FixedCostEntry {
        id: 1,
        name: "Legacy".to_string(),
        amount: -5,
        is_active: true,
    });
    ledger.next_fixed_cost_id = 2;
    assert_eq!(
        ledger.mark_fixed_cost_paid(1, "2025-03-10", 5).map(|f| f.id),
        Err(BudgetError::NegativeAmount)
    );
    assert!(ledger.transactions.is_empty());
}

#[test]
fn delete_transaction_errors() {
    let mut ledger = Ledger::new();
    assert_eq!(ledger.delete_transaction(0), Err(BudgetError::InvalidTransactionId));
    assert_eq!(ledger.delete_transaction(-3), Err(BudgetError::InvalidTransactionId));
    assert_eq!(ledger.delete_transaction(7), Err(BudgetError::TransactionNotFound));
}

#[test]
fn negative_amounts_are_rejected() {
    let mut ledger = Ledger::new();
    assert_eq!(ledger.add_income(-1, "2025-01-01", 1).map(|t| t.id), Err(BudgetError::NegativeAmount));
    assert_eq!(ledger.add_expense(-1, "2025-01-01", 1).map(|t| t.id), Err(BudgetError::NegativeAmount));
    assert_eq!(
        ledger.add_fixed_cost("X", -1, "2025-01").map(|f| f.id),
        Err(BudgetError::NegativeAmount)
    );
    assert!(ledger.transactions.is_empty());
    assert!(ledger.fixed_costs.is_empty());
}

#[test]
fn delete_fixed_cost_cascades() {
    let mut ledger = Ledger::new();
    let keep = add_cost(&mut ledger, "Air", 100);
    let gone = add_cost(&mut ledger, "Sewa", 500);
    ledger.mark_fixed_cost_paid(gone, "2025-01-05", 1).unwrap();
    ledger.mark_fixed_cost_paid(keep, "2025-01-05", 2).unwrap();
    ledger
        .insert_transaction(TxKind::Out, 500, "2024-12-05", 3, TxSource::FixedCost, Some(gone))
        .unwrap();
    let manual = ledger.add_expense(20, "2025-01-06", 4).unwrap();
    ledger.delete_fixed_cost(gone).unwrap();
    assert_eq!(fixed_cost_tx_count(&ledger, gone), 0);
    assert_eq!(payment_count(&ledger, gone), 0);
    assert!(ledger.fixed_costs.iter().all(|f| f.id != gone));
    assert_eq!(fixed_cost_tx_count(&ledger, keep), 1);
    assert_eq!(payment_count(&ledger, keep), 1);
    assert_eq!(tx_count(&ledger, manual.id), 1);
    assert_eq!(ledger.delete_fixed_cost(gone), Err(BudgetError::FixedCostNotFound));
}

#[test]
fn cleanup_drops_unlinked_and_stale_rows() {
    let mut ledger = Ledger::new();
    let a = add_cost(&mut ledger, "A", 10);
    let b = add_cost(&mut ledger, "B", 20);
    let c = add_cost(&mut ledger, "C", 30);
    ledger.mark_fixed_cost_paid(a, "2025-02-01", 1).unwrap();
    add_payment(&mut ledger, b, "2025-02", "2025-02-01", None);
    let manual = ledger.add_expense(30, "2025-02-01", 2).unwrap();
    add_payment(&mut ledger, c, "2025-02", "2025-02-01", Some(manual.id));
    ledger.cleanup_fixed_cost_payments();
    assert_eq!(payment_count(&ledger, a), 1);
    assert_eq!(payment_count(&ledger, b), 0);
    assert_eq!(payment_count(&ledger, c), 0);
}

#[test]
fn list_fixed_costs_newest_first_with_period_state() {
    let mut ledger = Ledger::new();
    let a = add_cost(&mut ledger, "A", 10);
    let b = add_cost(&mut ledger, "B", 20);
    ledger.mark_fixed_cost_paid(a, "2025-02-11", 1).unwrap();
    let list = ledger.list_fixed_costs("2025-02");
    assert_eq!(list.len(), 2);
    assert_eq!(list[0].id, b);
    assert_eq!(list[0].paid_date_local, None);
    assert_eq!(list[1].id, a);
    assert_eq!(list[1].paid_date_local.as_deref(), Some("2025-02-11"));
    add_payment(&mut ledger, b, "2025-02", "2025-02-01", None);
    let again = ledger.list_fixed_costs("2025-02");
    assert_eq!(again[0].paid_date_local, None);
    assert_eq!(payment_count(&ledger, b), 0);
    let march = ledger.list_fixed_costs("2025-03");
    assert_eq!(march[1].paid_date_local, None);
}

#[test]
fn upsert_replaces_row_with_same_key() {
    let mut ledger = Ledger::new();
    let a = add_cost(&mut ledger, "A", 10);
    add_payment(&mut ledger, a, "2025-02", "2025-02-01", None);
    add_payment(&mut ledger, a, "2025-02", "2025-02-09", Some(3));
    assert_eq!(payment_count(&ledger, a), 1);
    assert_eq!(ledger.payments[0].tx_id, Some(3));
    assert_eq!(ledger.find_payment(a, "2025-02"), Some(0));
    assert_eq!(ledger.find_payment(a, "2025-03"), None);
    assert_eq!(ledger.latest_payment_period(a).as_deref(), Some("2025-02"));
}

#[test]
fn resolve_period_prefers_date_then_latest() {
    let mut ledger = Ledger::new();
    let a = add_cost(&mut ledger, "A", 10);
    add_payment(&mut ledger, a, "2025-02", "2025-02-01", None);
    add_payment(&mut ledger, a, "2024-11", "2024-11-01", None);
    assert_eq!(ledger.resolve_period_for_unpaid(a, Some("2024-11-30"), "2025-06"), "2024-11");
    assert_eq!(ledger.resolve_period_for_unpaid(a, None, "2024-11"), "2024-11");
    assert_eq!(ledger.resolve_period_for_unpaid(a, None, "2025-06"), "2025-02");
    assert_eq!(ledger.resolve_period_for_unpaid(a + 1, None, "2025-06"), "2025-06");
}

#[test]
fn list_between_orders_by_date_then_time_and_pages() {
    let mut ledger = Ledger::new();
    ledger.add_expense(10, "2025-05-02", 5).unwrap();
    ledger.add_income(20, "2025-05-03", 1).unwrap();
    ledger.add_expense(30, "2025-05-03", 9).unwrap();
    ledger.add_expense(40, "2025-04-30", 7).unwrap();
    ledger.add_expense(50, "2025-05-04", 2).unwrap();
    let all = ledger.list_transactions_between("2025-05-01", "2025-05-03", 10, 0, None);
    let amounts: Vec<i64> = all.iter().map(|t| t.amount).collect();
    assert_eq!(amounts, vec![30, 20, 10]);
    let outs = ledger.list_transactions_between("2025-05-01", "2025-05-03", 10, 0, Some(TxKind::Out));
    let amounts: Vec<i64> = outs.iter().map(|t| t.amount).collect();
    assert_eq!(amounts, vec![30, 10]);
    let paged = ledger.list_transactions_between("2025-04-01", "2025-05-31", 2, 1, None);
    let amounts: Vec<i64> = paged.iter().map(|t| t.amount).collect();
    assert_eq!(amounts, vec![30, 20]);
    assert!(ledger.list_transactions_between("2025-04-01", "2025-05-31", 2, 9, None).is_empty());
}

#[test]
fn list_recent_by_timestamp() {
    let mut ledger = Ledger::new();
    ledger.add_expense(10, "2025-05-02", 5).unwrap();
    ledger.add_income(20, "2025-05-03", 1).unwrap();
    ledger.add_expense(30, "2025-05-01", 9).unwrap();
    let recent = ledger.list_recent_transactions(2);
    let amounts: Vec<i64> = recent.iter().map(|t| t.amount).collect();
    assert_eq!(amounts, vec![30, 10]);
}

#[test]
fn unpaid_with_date_clears_only_that_month() {
    let mut ledger = Ledger::new();
    let a = add_cost(&mut ledger, "A", 10);
    add_payment(&mut ledger, a, "2025-02", "2025-02-01", None);
    assert_eq!(ledger.resolve_period_for_unpaid(a, Some("2025-05-20"), "2025-06"), "2025-05");
    ledger.mark_fixed_cost_unpaid(a, Some("2025-05-20"), "2025-06").unwrap();
    assert_eq!(payment_count(&ledger, a), 1);
    assert_eq!(ledger.payments[0].period_ym, "2025-02");
}

#[test]
fn delete_fixed_cost_keeps_incoming_transactions() {
    let mut ledger = Ledger::new();
    let a = add_cost(&mut ledger, "A", 10);
    let refund = ledger
        .insert_transaction(TxKind::In, 10, "2025-01-05", 1, TxSource::FixedCost, Some(a))
        .unwrap();
    ledger.delete_fixed_cost(a).unwrap();
    assert_eq!(tx_count(&ledger, refund.id), 1);
}
