use payroll_compliance::{
    PayrollCancelledEvent, PayrollContract, PayrollEntry, PayrollError, PayrollPaidEvent,
    PayrollScheduledEvent,
};

const ADMIN: &str = "GADMINXXXXXXXXXXXXXXXXXXXXXXXXXXXXXXXXXXXXXXXXXXXXXXXXXX";
const OTHER: &str = "GOTHERXXXXXXXXXXXXXXXXXXXXXXXXXXXXXXXXXXXXXXXXXXXXXXXXXX";

fn s(x: &str) -> String {
    x.to_string()
}

fn b(x: &str) -> Vec<u8> {
    x.as_bytes().to_vec()
}

fn initialized() -> PayrollContract {
    let mut c = PayrollContract::new();
    c.init(s(ADMIN)).unwrap();
    c
}

#[test]
fn test_schedule_and_get() {
    let mut client = initialized();

    let (idx, _event) = client
        .schedule(s(ADMIN), 0, 1u64, b("GADDR"), 5000i128, b("USDC"), 2592000u64) // 30 days
        .unwrap();
    assert_eq!(idx, 0);
    let entry = client.get_entry(0).unwrap();
    assert!(entry.active);
    assert_eq!(entry.next_payout, 2592000);
}

#[test]
fn test_mark_paid_advances_schedule() {
    let mut client = initialized();
    client
        .schedule(s(ADMIN), 0, 1u64, b("GADDR"), 1000i128, b("USDC"), 86400u64)
        .unwrap();

    client.mark_paid(s(ADMIN), 0, 86401).unwrap();
    let entry = client.get_entry(0).unwrap();
    assert_eq!(entry.next_payout, 86401 + 86400);
}

#[test]
fn test_schedule_emits_event() {
    let mut client = initialized();

    let (_idx, event) = client
        .schedule(s(ADMIN), 0, 1u64, b("GADDR"), 5000i128, b("USDC"), 2592000u64)
        .unwrap();

    assert_eq!(PayrollScheduledEvent::topic(), "scheduled");
    assert_eq!(
        event,
        PayrollScheduledEvent {
            org_id: 1u64,
            recipient: b("GADDR"),
            amount: 5000i128,
            currency: b("USDC"),
            interval_secs: 2592000u64,
            next_payout: 2592000u64,
            index: 0u32,
        }
    );
}

#[test]
fn test_mark_paid_emits_event() {
    let mut client = initialized();
    client
        .schedule(s(ADMIN), 0, 1u64, b("GADDR"), 1000i128, b("USDC"), 86400u64)
        .unwrap();

    let paid = client.mark_paid(s(ADMIN), 0, 86401).unwrap();

    assert_eq!(PayrollPaidEvent::topic(), "paid");
    assert_eq!(
        paid,
        PayrollPaidEvent { index: 0u32, next_payout: 86401u64 + 86400u64 }
    );
}

#[test]
fn test_cancel_emits_event() {
    let mut client = initialized();
    client
        .schedule(s(ADMIN), 0, 1u64, b("GADDR"), 1000i128, b("USDC"), 86400u64)
        .unwrap();

    let cancelled = client.cancel(s(ADMIN), 0).unwrap();

    assert_eq!(PayrollCancelledEvent::topic(), "cancelled");
    assert_eq!(cancelled, PayrollCancelledEvent { index: 0u32 });
}

#[test]
fn test_payroll_init_twice_is_refused() {
    let mut c = initialized();
    assert_eq!(c.init(s(OTHER)), Err(PayrollError::AlreadyInitialized));
    assert_eq!(c.admin, Some(s(ADMIN)));
    assert_eq!(PayrollError::AlreadyInitialized.message(), "already initialized");
}

#[test]
fn test_schedule_not_initialized_and_unauthorized() {
    let mut c = PayrollContract::new();
    assert_eq!(
        c.schedule(s(ADMIN), 0, 1, b("G"), 1, b("USDC"), 10),
        Err(PayrollError::NotInitialized)
    );
    c.init(s(ADMIN)).unwrap();
    assert_eq!(
        c.schedule(s(OTHER), 0, 1, b("G"), 1, b("USDC"), 10),
        Err(PayrollError::Unauthorized)
    );
    assert_eq!(c.entry_count(), 0);
    assert_eq!(PayrollError::NotInitialized.message(), "not initialized");
    assert_eq!(PayrollError::Unauthorized.message(), "unauthorized");
}

#[test]
fn test_schedule_then_read_back() {
    let mut c = initialized();
    c.schedule(s(ADMIN), 100, 1, b("A"), 10, b("USDC"), 50).unwrap();
    let (idx, ev) = c.schedule(s(ADMIN), 200, 7, b("B"), 20, b("EURC"), 30).unwrap();
    assert_eq!(idx, 1);
    assert_eq!(ev.next_payout, 230);
    assert_eq!(c.entry_count(), 2);
    assert_eq!(
        c.get_entry(1).unwrap(),
        &PayrollEntry {
            org_id: 7,
            recipient: b("B"),
            amount: 20,
            currency: b("EURC"),
            interval_secs: 30,
            next_payout: 230,
            active: true,
        }
    );
    assert_eq!(c.get_entry(0).unwrap().next_payout, 150);
}

#[test]
fn test_entry_errors() {
    let mut c = initialized();
    assert_eq!(c.get_entry(0), Err(PayrollError::NoEntries));
    assert_eq!(c.cancel(s(ADMIN), 0), Err(PayrollError::NoEntries));
    assert_eq!(c.mark_paid(s(ADMIN), 0, 0), Err(PayrollError::NoEntries));
    c.schedule(s(ADMIN), 0, 1, b("A"), 10, b("USDC"), 50).unwrap();
    assert_eq!(c.get_entry(1), Err(PayrollError::InvalidIndex));
    assert_eq!(c.cancel(s(ADMIN), 1), Err(PayrollError::InvalidIndex));
    assert_eq!(c.mark_paid(s(ADMIN), 1, 100), Err(PayrollError::InvalidIndex));
    assert_eq!(c.cancel(s(OTHER), 0), Err(PayrollError::Unauthorized));
    assert_eq!(c.mark_paid(s(OTHER), 0, 100), Err(PayrollError::Unauthorized));
    assert_eq!(PayrollError::NoEntries.message(), "no entries");
    assert_eq!(PayrollError::InvalidIndex.message(), "invalid index");
}

#[test]
fn test_mark_paid_not_due_yet() {
    let mut c = initialized();
    c.schedule(s(ADMIN), 0, 1, b("A"), 10, b("USDC"), 86400).unwrap();
    assert_eq!(c.mark_paid(s(ADMIN), 0, 86399), Err(PayrollError::PayoutNotDueYet));
    // exactly when due is accepted
    assert_eq!(
        c.mark_paid(s(ADMIN), 0, 86400),
        Ok(PayrollPaidEvent { index: 0, next_payout: 172800 })
    );
    // a second payment at the same time is refused
    assert_eq!(c.mark_paid(s(ADMIN), 0, 86400), Err(PayrollError::PayoutNotDueYet));
    assert_eq!(PayrollError::PayoutNotDueYet.message(), "payout not due yet");
}

#[test]
fn test_cancel_is_final() {
    let mut c = initialized();
    c.schedule(s(ADMIN), 0, 1, b("A"), 10, b("USDC"), 100).unwrap();
    c.schedule(s(ADMIN), 0, 2, b("B"), 20, b("USDC"), 100).unwrap();
    c.cancel(s(ADMIN), 0).unwrap();
    assert!(!c.get_entry(0).unwrap().active);
    assert_eq!(c.mark_paid(s(ADMIN), 0, 1_000_000), Err(PayrollError::EntryInactive));
    // cancelling again is accepted and keeps it inactive
    assert_eq!(c.cancel(s(ADMIN), 0), Ok(PayrollCancelledEvent { index: 0 }));
    assert!(!c.get_entry(0).unwrap().active);
    // the other entry is untouched
    assert!(c.get_entry(1).unwrap().active);
    assert_eq!(c.mark_paid(s(ADMIN), 1, 100), Ok(PayrollPaidEvent { index: 1, next_payout: 200 }));
    assert_eq!(PayrollError::EntryInactive.message(), "entry inactive");
}

#[test]
fn test_late_payment_reschedules_from_now() {
    let mut c = initialized();
    c.schedule(s(ADMIN), 0, 1, b("A"), 10, b("USDC"), 100).unwrap();
    let paid = c.mark_paid(s(ADMIN), 0, 1000).unwrap();
    assert_eq!(paid.next_payout, 1100);
    let e = c.get_entry(0).unwrap();
    assert_eq!((e.interval_secs, e.amount, e.active), (100, 10, true));
}
