use payroll_compliance::{
    ClawbackExecutedEvent, ComplianceContract, ComplianceError, DisbursementLoggedEvent,
    DisbursementRecord, CLAWBACK_WINDOW_SECS,
};

const ADMIN: &str = "GADMINXXXXXXXXXXXXXXXXXXXXXXXXXXXXXXXXXXXXXXXXXXXXXXXXXX";
const OTHER: &str = "GOTHERXXXXXXXXXXXXXXXXXXXXXXXXXXXXXXXXXXXXXXXXXXXXXXXXXX";

fn s(x: &str) -> String {
    x.to_string()
}

fn b(x: &str) -> Vec<u8> {
    x.as_bytes().to_vec()
}

fn initialized() -> ComplianceContract {
    let mut c = ComplianceContract::new();
    c.init(s(ADMIN)).unwrap();
    c
}

#[test]
fn test_log_and_get() {
    let mut client = initialized();

    let (idx, _event) = client.log_disbursement(0, 1u64, b("GADDR123"), 1000i128, b("USDC"));
    assert_eq!(idx, 0);
    assert_eq!(client.record_count(), 1);

    let rec = client.get_record(0).unwrap();
    assert_eq!(rec.org_id, 1);
    assert!(!rec.clawed_back);
}

#[test]
fn test_clawback_within_window() {
    let mut client = initialized();
    client.log_disbursement(1000, 1u64, b("GADDR"), 500i128, b("USDC"));

    client.clawback(s(ADMIN), 0, 1000).unwrap();
    let rec = client.get_record(0).unwrap();
    assert!(rec.clawed_back);
}

#[test]
#[should_panic(expected = "clawback window expired")]
fn test_clawback_expired() {
    let mut client = initialized();
    client.log_disbursement(1000, 1u64, b("GADDR"), 500i128, b("USDC"));

    // Advance past 48h window
    let now = 1000 + CLAWBACK_WINDOW_SECS + 1;
    if let Err(e) = client.clawback(s(ADMIN), 0, now) {
        panic!("{}", e.message());
    }
}

#[test]
fn test_log_disbursement_emits_event() {
    let mut client = initialized();

    let (_idx, event) = client.log_disbursement(0, 1u64, b("GADDR123"), 1000i128, b("USDC"));
    assert_eq!(DisbursementLoggedEvent::topic(), "disb_log");
    assert_eq!(
        event,
        DisbursementLoggedEvent {
            org_id: 1u64,
            recipient: b("GADDR123"),
            amount: 1000i128,
            currency: b("USDC"),
            index: 0u32,
        }
    );
}

#[test]
fn test_clawback_emits_event() {
    let mut client = initialized();
    let (_idx, logged) = client.log_disbursement(1000, 2u64, b("GADDR_CB"), 500i128, b("USDC"));
    let clawed = client.clawback(s(ADMIN), 0, 1000).unwrap();

    // Two events: one from log_disbursement, one from clawback
    assert_eq!(logged.index, 0);
    assert_eq!(ClawbackExecutedEvent::topic(), "clawback");
    assert_eq!(
        clawed,
        ClawbackExecutedEvent { index: 0u32, org_id: 2u64, caller: s(ADMIN) }
    );
}

#[test]
fn test_compliance_init_twice_is_refused() {
    let mut c = initialized();
    assert_eq!(c.init(s(OTHER)), Err(ComplianceError::AlreadyInitialized));
    assert_eq!(c.admin, Some(s(ADMIN)));
    assert_eq!(ComplianceError::AlreadyInitialized.message(), "already initialized");
}

#[test]
fn test_log_then_read_back() {
    let mut c = ComplianceContract::new();
    c.log_disbursement(5, 1, b("A"), 10, b("USDC"));
    let (idx, ev) = c.log_disbursement(77, 9, b("B"), -3, b("EURC"));
    assert_eq!(idx, 1);
    assert_eq!(ev.index, 1);
    assert_eq!(c.record_count(), 2);
    assert_eq!(
        c.get_record(1).unwrap(),
        &DisbursementRecord {
            org_id: 9,
            recipient: b("B"),
            amount: -3,
            currency: b("EURC"),
            timestamp: 77,
            clawed_back: false,
        }
    );
    assert_eq!(c.get_record(0).unwrap().timestamp, 5);
    assert_eq!(c.get_record(0).unwrap().recipient, b"A".to_vec());
}

#[test]
fn test_get_record_errors() {
    let mut c = ComplianceContract::new();
    assert_eq!(c.get_record(0), Err(ComplianceError::NoRecords));
    assert_eq!(c.record_count(), 0);
    c.log_disbursement(5, 1, b("A"), 10, b("USDC"));
    assert_eq!(c.get_record(1), Err(ComplianceError::InvalidIndex));
    assert_eq!(ComplianceError::NoRecords.message(), "no records");
    assert_eq!(ComplianceError::InvalidIndex.message(), "invalid index");
}

#[test]
fn test_clawback_not_initialized() {
    let mut c = ComplianceContract::new();
    c.log_disbursement(5, 1, b("A"), 10, b("USDC"));
    assert_eq!(c.clawback(s(ADMIN), 0, 5), Err(ComplianceError::NotInitialized));
    assert_eq!(ComplianceError::NotInitialized.message(), "not initialized");
}

#[test]
fn test_clawback_unauthorized() {
    let mut c = initialized();
    c.log_disbursement(5, 1, b("A"), 10, b("USDC"));
    assert_eq!(c.clawback(s(OTHER), 0, 5), Err(ComplianceError::Unauthorized));
    assert!(!c.get_record(0).unwrap().clawed_back);
    assert_eq!(ComplianceError::Unauthorized.message(), "unauthorized");
}

#[test]
fn test_clawback_no_records_and_invalid_index() {
    let mut c = initialized();
    assert_eq!(c.clawback(s(ADMIN), 0, 5), Err(ComplianceError::NoRecords));
    c.log_disbursement(5, 1, b("A"), 10, b("USDC"));
    assert_eq!(c.clawback(s(ADMIN), 3, 5), Err(ComplianceError::InvalidIndex));
}

#[test]
fn test_clawback_window_edges() {
    let mut c = initialized();
    c.log_disbursement(1000, 1, b("A"), 10, b("USDC"));
    c.log_disbursement(1000, 2, b("B"), 20, b("USDC"));
    assert_eq!(CLAWBACK_WINDOW_SECS, 172800);
    // exactly 48 hours later is still inside the window
    assert!(c.clawback(s(ADMIN), 0, 1000 + 172800).is_ok());
    // one second more is outside it
    assert_eq!(
        c.clawback(s(ADMIN), 1, 1000 + 172801),
        Err(ComplianceError::ClawbackWindowExpired)
    );
    assert!(!c.get_record(1).unwrap().clawed_back);
}

#[test]
fn test_clawback_only_once() {
    let mut c = initialized();
    c.log_disbursement(1000, 1, b("A"), 10, b("USDC"));
    c.log_disbursement(1000, 2, b("B"), 20, b("USDC"));
    assert!(c.clawback(s(ADMIN), 0, 1001).is_ok());
    assert_eq!(c.clawback(s(ADMIN), 0, 1002), Err(ComplianceError::AlreadyClawedBack));
    assert_eq!(ComplianceError::AlreadyClawedBack.message(), "already clawed back");
    // the other record is untouched
    let other = c.get_record(1).unwrap();
    assert!(!other.clawed_back);
    assert_eq!(other.amount, 20);
    // the clawed back record keeps what it recorded
    let first = c.get_record(0).unwrap();
    assert_eq!((first.org_id, first.amount, first.timestamp), (1, 10, 1000));
}

#[test]
fn test_error_messages_expired() {
    assert_eq!(
        ComplianceError::ClawbackWindowExpired.message(),
        "clawback window expired"
    );
}
