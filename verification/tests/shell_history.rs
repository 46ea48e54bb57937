use oculus::errors::JobError;
use oculus::shells::{
    append_shell_history, parse_amount_trunc, rebuild_shell_history,
    PayoutEvent, ShellHistoryEntry, chain_backward, chain_forward, sort_events,
};
use oculus::models::RawPayout;

fn payout(id: &str, amount: &str, created_at: &str) -> RawPayout {
    RawPayout {
        id: id.to_string(),
        amount: amount.to_string(),
        created_at: created_at.to_string(),
        payout_type: "ShopOrder".to_string(),
    }
}

const T1: &str = "2024-01-01T00:00:00Z";
const T2: &str = "2024-01-02T00:00:00Z";
const T3: &str = "2024-01-03T00:00:00Z";

const T1_MS: i64 = 1704067200000;
const T2_MS: i64 = 1704153600000;
const T3_MS: i64 = 1704240000000;

#[test]
fn rebuild_walks_backward_from_final_total() {
    let payouts = vec![payout("a", "+10", T1), payout("b", "-5", T2), payout("c", "+45", T3)];
    let rows = rebuild_shell_history(50, &payouts).unwrap();
    assert_eq!(rows.len(), 3);
    assert_eq!(
        rows[0],
        ShellHistoryEntry { recorded_at: T1_MS, shells_then: 0, shell_diff: 10, shells: 10 }
    );
    assert_eq!(
        rows[1],
        ShellHistoryEntry { recorded_at: T2_MS, shells_then: 10, shell_diff: -5, shells: 5 }
    );
    assert_eq!(
        rows[2],
        ShellHistoryEntry { recorded_at: T3_MS, shells_then: 5, shell_diff: 45, shells: 50 }
    );
}

#[test]
fn rebuild_sorts_unordered_payouts_by_time() {
    let payouts = vec![payout("c", "+45", T3), payout("a", "+10", T1), payout("b", "-5", T2)];
    let rows = rebuild_shell_history(50, &payouts).unwrap();
    assert_eq!(rows[0].recorded_at, T1_MS);
    assert_eq!(rows[0].shells_then, 0);
    assert_eq!(rows[2].shells, 50);
    for pair in rows.windows(2) {
        assert_eq!(pair[0].shells, pair[1].shells_then);
        assert_eq!(pair[1].shells_then + pair[1].shell_diff, pair[1].shells);
    }
}

#[test]
fn rebuild_truncates_decimal_amounts() {
    let payouts = vec![payout("a", "45.7", T1)];
    let rows = rebuild_shell_history(45, &payouts).unwrap();
    assert_eq!(rows[0].shell_diff, 45);
    assert_eq!(rows[0].shells_then, 0);
}

#[test]
fn rebuild_rejects_bad_amount() {
    let payouts = vec![payout("a", "ten", T1)];
    match rebuild_shell_history(10, &payouts) {
        Err(JobError::Database(_)) => (),
        other => panic!("expected a database error, got {:?}", other),
    }
}

#[test]
fn rebuild_rejects_bad_date() {
    let payouts = vec![payout("a", "10", "yesterday")];
    match rebuild_shell_history(10, &payouts) {
        Err(JobError::Database(_)) => (),
        other => panic!("expected a database error, got {:?}", other),
    }
}

#[test]
fn rebuild_of_no_payouts_is_empty() {
    let rows = rebuild_shell_history(0, &Vec::new()).unwrap();
    assert!(rows.is_empty());
}

#[test]
fn append_keeps_only_newer_payouts() {
    let payouts = vec![payout("a", "10", T1), payout("b", "5", T2), payout("c", "7", T3)];
    let rows = append_shell_history(Some(10), Some(T1_MS), &payouts).unwrap();
    assert_eq!(rows.len(), 2);
    assert_eq!(
        rows[0],
        ShellHistoryEntry { recorded_at: T2_MS, shells_then: 10, shell_diff: 5, shells: 15 }
    );
    assert_eq!(
        rows[1],
        ShellHistoryEntry { recorded_at: T3_MS, shells_then: 15, shell_diff: 7, shells: 22 }
    );
}

#[test]
fn append_starts_at_zero_without_previous_total() {
    let payouts = vec![payout("a", "4", T1)];
    let rows = append_shell_history(None, None, &payouts).unwrap();
    assert_eq!(rows[0].shells_then, 0);
    assert_eq!(rows[0].shells, 4);
}

#[test]
fn append_truncates_decimal_amounts() {
    let payouts = vec![payout("a", "4.5", T1)];
    let rows = append_shell_history(None, None, &payouts).unwrap();
    assert_eq!(
        rows,
        vec![ShellHistoryEntry { recorded_at: T1_MS, shells_then: 0, shell_diff: 4, shells: 4 }]
    );
}

#[test]
fn append_rejects_malformed_amounts_on_new_payouts() {
    let payouts = vec![payout("a", "ten", T1)];
    match append_shell_history(None, None, &payouts) {
        Err(JobError::Database(_)) => (),
        other => panic!("expected a database error, got {:?}", other),
    }
}

#[test]
fn append_ignores_bad_amount_on_old_payout() {
    let payouts = vec![payout("old", "not-a-number", T1), payout("new", "3", T2)];
    let rows = append_shell_history(Some(1), Some(T1_MS), &payouts).unwrap();
    assert_eq!(rows.len(), 1);
    assert_eq!(rows[0].shells, 4);
}

#[test]
fn truncating_amount_parsing_clamps_and_truncates() {
    assert_eq!(parse_amount_trunc("45.7"), Some(45));
    assert_eq!(parse_amount_trunc("-10.9"), Some(-10));
    assert_eq!(parse_amount_trunc(".5"), Some(0));
    assert_eq!(parse_amount_trunc("5."), Some(5));
    assert_eq!(parse_amount_trunc("+12"), Some(12));
    assert_eq!(parse_amount_trunc("2147483648"), Some(i32::MAX));
    assert_eq!(parse_amount_trunc("-99999999999"), Some(i32::MIN));
    assert_eq!(parse_amount_trunc(""), None);
    assert_eq!(parse_amount_trunc("."), None);
    assert_eq!(parse_amount_trunc("1e5"), None);
    assert_eq!(parse_amount_trunc("- 5"), None);
}

#[test]
fn backward_chain_reports_overflow() {
    let evs = vec![PayoutEvent { recorded_at: T1_MS, diff: i32::MIN }];
    assert!(chain_backward(1, &evs).is_err());
}

#[test]
fn forward_chain_reports_overflow() {
    let evs = vec![PayoutEvent { recorded_at: T1_MS, diff: i32::MAX }];
    assert!(chain_forward(2, &evs).is_err());
}

#[test]
fn sorting_orders_events_and_keeps_them_all() {
    let evs = vec![
        PayoutEvent { recorded_at: 30, diff: 3 },
        PayoutEvent { recorded_at: 10, diff: 1 },
        PayoutEvent { recorded_at: 20, diff: 2 },
    ];
    let sorted = sort_events(evs);
    assert_eq!(
        sorted,
        vec![
            PayoutEvent { recorded_at: 10, diff: 1 },
            PayoutEvent { recorded_at: 20, diff: 2 },
            PayoutEvent { recorded_at: 30, diff: 3 },
        ]
    );
}
