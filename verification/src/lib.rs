//! Verified core of two ledger contracts: a disbursement compliance log with
//! a time-limited clawback, and a recurring payroll schedule.
pub mod common;
pub mod compliance;
pub mod payroll;

pub use compliance::{
    ClawbackExecutedEvent, ComplianceContract, ComplianceError, ComplianceState,
    DisbursementLoggedEvent, DisbursementRecord, CLAWBACK_WINDOW_SECS,
};
pub use payroll::{
    PayrollCancelledEvent, PayrollContract, PayrollEntry, PayrollError, PayrollPaidEvent,
    PayrollScheduledEvent, PayrollState,
};
