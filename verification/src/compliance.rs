//! The disbursement ledger: an append-only log of disbursements, with an
//! admin-only clawback that is open for 48 hours after each disbursement.
//!
//! `ComplianceContract` holds the contract's persistent state (the admin and
//! the records). Each operation takes the state, the request and, where the
//! operation reads the clock, the current ledger time `now`; it returns the
//! event to announce, or the reason the request is refused.
//!
//! The mathematical model of the state is `ComplianceState` (the view of a
//! `ComplianceContract`), in which addresses are their strkey characters and
//! texts their bytes. Every operation is specified by the transition function
//! of the same name on that model.
use vstd::prelude::*;

use crate::common::{address_view, copy_bytes};

verus! {

/// Seconds after a disbursement during which it may be clawed back (48 hours).
pub const CLAWBACK_WINDOW_SECS: u64 = 48 * 3600;

/// One disbursement record. Texts are kept as the bytes they were given as.
#[derive(Debug, PartialEq, Eq)]
pub struct DisbursementRecord {
    pub org_id: u64,
    pub recipient: Vec<u8>,
    pub amount: i128,
    pub currency: Vec<u8>,
    pub timestamp: u64,
    pub clawed_back: bool,
}

/// Announced when a disbursement is logged.
#[derive(Debug, PartialEq, Eq)]
pub struct DisbursementLoggedEvent {
    pub org_id: u64,
    pub recipient: Vec<u8>,
    pub amount: i128,
    pub currency: Vec<u8>,
    pub index: u32,
}

/// Announced when a disbursement is clawed back.
#[derive(Debug, PartialEq, Eq)]
pub struct ClawbackExecutedEvent {
    pub index: u32,
    pub org_id: u64,
    /// The address (strkey) of the admin who executed the clawback.
    pub caller: String,
}

/// The model of a `DisbursementRecord`.
pub struct DisbursementRecordView {
    pub org_id: u64,
    pub recipient: Seq<u8>,
    pub amount: i128,
    pub currency: Seq<u8>,
    pub timestamp: u64,
    pub clawed_back: bool,
}

/// The model of a `DisbursementLoggedEvent`.
pub struct DisbursementLoggedEventView {
    pub org_id: u64,
    pub recipient: Seq<u8>,
    pub amount: i128,
    pub currency: Seq<u8>,
    pub index: u32,
}

/// The model of a `ClawbackExecutedEvent`.
pub struct ClawbackExecutedEventView {
    pub index: u32,
    pub org_id: u64,
    pub caller: Seq<char>,
}

impl View for DisbursementRecord {
    type V = DisbursementRecordView;

    open spec fn view(&self) -> DisbursementRecordView {
        DisbursementRecordView {
            org_id: self.org_id,
            recipient: self.recipient@,
            amount: self.amount,
            currency: self.currency@,
            timestamp: self.timestamp,
            clawed_back: self.clawed_back,
        }
    }
}

impl View for DisbursementLoggedEvent {
    type V = DisbursementLoggedEventView;

    open spec fn view(&self) -> DisbursementLoggedEventView {
        DisbursementLoggedEventView {
            org_id: self.org_id,
            recipient: self.recipient@,
            amount: self.amount,
            currency: self.currency@,
            index: self.index,
        }
    }
}

impl View for ClawbackExecutedEvent {
    type V = ClawbackExecutedEventView;

    open spec fn view(&self) -> ClawbackExecutedEventView {
        ClawbackExecutedEventView { index: self.index, org_id: self.org_id, caller: self.caller@ }
    }
}

impl DisbursementLoggedEvent {
    /// The topic under which the event is published.
    pub fn topic() -> (t: &'static str)
        ensures
            t@ == "disb_log"@,
    {
        "disb_log"
    }
}

impl ClawbackExecutedEvent {
    /// The topic under which the event is published.
    pub fn topic() -> (t: &'static str)
        ensures
            t@ == "clawback"@,
    {
        "clawback"
    }
}

/// Why the ledger refuses a request.
#[derive(Clone, Copy, Debug, PartialEq, Eq, Structural)]
pub enum ComplianceError {
    AlreadyInitialized,
    NotInitialized,
    Unauthorized,
    NoRecords,
    InvalidIndex,
    ClawbackWindowExpired,
    AlreadyClawedBack,
}

impl ComplianceError {
    /// The message with which the contract aborts on this error.
    pub fn message(&self) -> (m: &'static str)
        ensures
            m@ == match *self {
                ComplianceError::AlreadyInitialized => "already initialized"@,
                ComplianceError::NotInitialized => "not initialized"@,
                ComplianceError::Unauthorized => "unauthorized"@,
                ComplianceError::NoRecords => "no records"@,
                ComplianceError::InvalidIndex => "invalid index"@,
                ComplianceError::ClawbackWindowExpired => "clawback window expired"@,
                ComplianceError::AlreadyClawedBack => "already clawed back"@,
            },
    {
        match self {
            ComplianceError::AlreadyInitialized => "already initialized",
            ComplianceError::NotInitialized => "not initialized",
            ComplianceError::Unauthorized => "unauthorized",
            ComplianceError::NoRecords => "no records",
            ComplianceError::InvalidIndex => "invalid index",
            ComplianceError::ClawbackWindowExpired => "clawback window expired",
            ComplianceError::AlreadyClawedBack => "already clawed back",
        }
    }
}

/// The abstract state of the ledger.
pub struct ComplianceState {
    pub admin: Option<Seq<char>>,
    pub records: Seq<DisbursementRecordView>,
}

/// `r` with its clawback flag set.
pub open spec fn clawed(r: DisbursementRecordView) -> DisbursementRecordView {
    DisbursementRecordView {
        org_id: r.org_id,
        recipient: r.recipient,
        amount: r.amount,
        currency: r.currency,
        timestamp: r.timestamp,
        clawed_back: true,
    }
}

impl ComplianceState {
    /// Setting the admin: refused once an admin is set.
    pub open spec fn init(self, admin: Seq<char>) -> Result<ComplianceState, ComplianceError> {
        if self.admin is Some {
            Err(ComplianceError::AlreadyInitialized)
        } else {
            Ok(ComplianceState { admin: Some(admin), records: self.records })
        }
    }

    /// Logging a disbursement: always accepted, appends a fresh record made
    /// at `now` and announces it under the index it was stored at.
    pub open spec fn log_disbursement(
        self,
        now: u64,
        org_id: u64,
        recipient: Seq<u8>,
        amount: i128,
        currency: Seq<u8>,
    ) -> (ComplianceState, DisbursementLoggedEventView) {
        (
            ComplianceState {
                admin: self.admin,
                records: self.records.push(
                    DisbursementRecordView {
                        org_id,
                        recipient,
                        amount,
                        currency,
                        timestamp: now,
                        clawed_back: false,
                    },
                ),
            },
            DisbursementLoggedEventView {
                org_id,
                recipient,
                amount,
                currency,
                index: self.records.len() as u32,
            },
        )
    }

    /// Why a clawback request is refused, checked in this order; `None` when
    /// it is accepted.
    pub open spec fn clawback_refusal(self, caller: Seq<char>, index: u32, now: u64) -> Option<
        ComplianceError,
    > {
        if self.admin is None {
            Some(ComplianceError::NotInitialized)
        } else if self.admin != Some(caller) {
            Some(ComplianceError::Unauthorized)
        } else if self.records.len() == 0 {
            Some(ComplianceError::NoRecords)
        } else if index >= self.records.len() {
            Some(ComplianceError::InvalidIndex)
        } else if now - self.records[index as int].timestamp > CLAWBACK_WINDOW_SECS {
            Some(ComplianceError::ClawbackWindowExpired)
        } else if self.records[index as int].clawed_back {
            Some(ComplianceError::AlreadyClawedBack)
        } else {
            None
        }
    }

    /// Clawing back record `index`: sets its flag and changes nothing else.
    pub open spec fn clawback(self, caller: Seq<char>, index: u32, now: u64) -> Result<
        (ComplianceState, ClawbackExecutedEventView),
        ComplianceError,
    > {
        match self.clawback_refusal(caller, index, now) {
            Some(e) => Err(e),
            None => Ok(
                (
                    ComplianceState {
                        admin: self.admin,
                        records: self.records.update(index as int, clawed(self.records[index as int])),
                    },
                    ClawbackExecutedEventView {
                        index,
                        org_id: self.records[index as int].org_id,
                        caller,
                    },
                ),
            ),
        }
    }

    /// Reading record `index`.
    pub open spec fn get_record(self, index: u32) -> Result<DisbursementRecordView, ComplianceError> {
        if self.records.len() == 0 {
            Err(ComplianceError::NoRecords)
        } else if index >= self.records.len() {
            Err(ComplianceError::InvalidIndex)
        } else {
            Ok(self.records[index as int])
        }
    }
}

/// The ledger's persistent state.
pub struct ComplianceContract {
    /// The admin's address (strkey), once set.
    pub admin: Option<String>,
    /// The records, in the order they were logged.
    pub records: Vec<DisbursementRecord>,
}

impl View for ComplianceContract {
    type V = ComplianceState;

    open spec fn view(&self) -> ComplianceState {
        ComplianceState {
            admin: address_view(self.admin),
            records: self.records@.map_values(|r: DisbursementRecord| r@),
        }
    }
}

impl ComplianceContract {
    /// Record indices are `u32`: the number of records fits in one.
    pub open spec fn wf(&self) -> bool {
        self.records.len() <= u32::MAX
    }

    /// A ledger with no admin and no records.
    pub fn new() -> (c: ComplianceContract)
        ensures
            c.wf(),
            c@.admin is None,
            c@.records.len() == 0,
    {
        ComplianceContract { admin: None, records: Vec::new() }
    }

    /// Initialize with an admin address.
    pub fn init(&mut self, admin: String) -> (r: Result<(), ComplianceError>)
        requires
            old(self).wf(),
        ensures
            final(self).wf(),
            match old(self)@.init(admin@) {
                Ok(s) => r is Ok && final(self)@ == s,
                Err(e) => r == Err::<(), ComplianceError>(e) && final(self)@ == old(self)@,
            },
    {
        if self.admin.is_some() {
            return Err(ComplianceError::AlreadyInitialized);
        }
        self.admin = Some(admin);
        Ok(())
    }

    /// Log a disbursement made at ledger time `now`. Returns the record index
    /// and the event that announces the record.
    pub fn log_disbursement(
        &mut self,
        now: u64,
        org_id: u64,
        recipient: Vec<u8>,
        amount: i128,
        currency: Vec<u8>,
    ) -> (r: (u32, DisbursementLoggedEvent))
        requires
            old(self).wf(),
            old(self).records.len() < u32::MAX,
        ensures
            final(self).wf(),
            (final(self)@, r.1@) == old(self)@.log_disbursement(now, org_id, recipient@, amount, currency@),
            r.0 == r.1.index,
    {
        let record = DisbursementRecord {
            org_id,
            recipient: copy_bytes(&recipient),
            amount,
            currency: copy_bytes(&currency),
            timestamp: now,
            clawed_back: false,
        };
        let ghost before = self.records@;
        self.records.push(record);
        assert(self.records@.map_values(|r: DisbursementRecord| r@) =~= before.map_values(
            |r: DisbursementRecord| r@,
        ).push(record@));
        let idx = (self.records.len() - 1) as u32;
        (idx, DisbursementLoggedEvent { org_id, recipient, amount, currency, index: idx })
    }

    /// Claw back the disbursement at `index` on behalf of `caller`, at ledger
    /// time `now`: admin only, within 48 hours of the disbursement, once.
    pub fn clawback(&mut self, caller: String, index: u32, now: u64) -> (r: Result<
        ClawbackExecutedEvent,
        ComplianceError,
    >)
        requires
            old(self).wf(),
            // the elapsed time is computed as `now - timestamp`
            old(self)@.admin == Some(caller@) && index < old(self).records.len()
                ==> old(self).records[index as int].timestamp <= now,
        ensures
            final(self).wf(),
            match old(self)@.clawback(caller@, index, now) {
                Ok((s, ev)) => r matches Ok(e) && e@ == ev && final(self)@ == s,
                Err(e) => r == Err::<ClawbackExecutedEvent, ComplianceError>(e) && final(self)@ == old(self)@,
            },
    {
        let is_admin = match &self.admin {
            None => {
                return Err(ComplianceError::NotInitialized);
            },
            Some(admin) => *admin == caller,
        };
        if !is_admin {
            return Err(ComplianceError::Unauthorized);
        }
        if self.records.len() == 0 {
            return Err(ComplianceError::NoRecords);
        }
        if index as usize >= self.records.len() {
            return Err(ComplianceError::InvalidIndex);
        }
        let i = index as usize;
        let record = &self.records[i];
        if now - record.timestamp > CLAWBACK_WINDOW_SECS {
            return Err(ComplianceError::ClawbackWindowExpired);
        }
        if record.clawed_back {
            return Err(ComplianceError::AlreadyClawedBack);
        }
        let org_id = record.org_id;
        let updated = DisbursementRecord {
            org_id: record.org_id,
            recipient: copy_bytes(&record.recipient),
            amount: record.amount,
            currency: copy_bytes(&record.currency),
            timestamp: record.timestamp,
            clawed_back: true,
        };
        let ghost before = self.records@;
        self.records.set(i, updated);
        assert(self.records@.map_values(|r: DisbursementRecord| r@) =~= before.map_values(
            |r: DisbursementRecord| r@,
        ).update(i as int, clawed(before[i as int]@)));
        Ok(ClawbackExecutedEvent { index, org_id, caller })
    }

    /// Get a disbursement record by index.
    pub fn get_record(&self, index: u32) -> (r: Result<&DisbursementRecord, ComplianceError>)
        ensures
            match self@.get_record(index) {
                Ok(rec) => r matches Ok(x) && x@ == rec,
                Err(e) => r == Err::<&DisbursementRecord, ComplianceError>(e),
            },
    {
        if self.records.len() == 0 {
            return Err(ComplianceError::NoRecords);
        }
        if index as usize >= self.records.len() {
            return Err(ComplianceError::InvalidIndex);
        }
        Ok(&self.records[index as usize])
    }

    /// Get total number of records.
    pub fn record_count(&self) -> (n: u32)
        requires
            self.wf(),
        ensures
            n == self@.records.len(),
    {
        self.records.len() as u32
    }
}

/// A request to the ledger, as far as it changes the state.
pub enum ComplianceOp {
    Init { admin: Seq<char> },
    LogDisbursement { now: u64, org_id: u64, recipient: Seq<u8>, amount: i128, currency: Seq<u8> },
    Clawback { caller: Seq<char>, index: u32, now: u64 },
}

impl ComplianceState {
    /// The state after `op`: the new state when the request is accepted, the
    /// same state when it is refused.
    pub open spec fn next(self, op: ComplianceOp) -> ComplianceState {
        match op {
            ComplianceOp::Init { admin } => match self.init(admin) {
                Ok(s) => s,
                Err(_) => self,
            },
            ComplianceOp::LogDisbursement { now, org_id, recipient, amount, currency } => self.log_disbursement(
                now,
                org_id,
                recipient,
                amount,
                currency,
            ).0,
            ComplianceOp::Clawback { caller, index, now } => match self.clawback(caller, index, now) {
                Ok((s, _)) => s,
                Err(_) => self,
            },
        }
    }
}

/// `later` records the same disbursement as `earlier`, and is clawed back if
/// `earlier` is.
pub open spec fn same_disbursement(earlier: DisbursementRecordView, later: DisbursementRecordView) -> bool {
    &&& later.org_id == earlier.org_id
    &&& later.recipient == earlier.recipient
    &&& later.amount == earlier.amount
    &&& later.currency == earlier.currency
    &&& later.timestamp == earlier.timestamp
    &&& earlier.clawed_back ==> later.clawed_back
}

/// Every record of `s` is still in `t`, at the same index, for the same
/// disbursement.
pub open spec fn history_kept(s: ComplianceState, t: ComplianceState) -> bool {
    &&& s.records.len() <= t.records.len()
    &&& forall|i: int| 0 <= i < s.records.len() ==> same_disbursement(s.records[i], #[trigger] t.records[i])
}

/// The admin is set once: after an accepted `init`, every further `init` is
/// refused.
pub proof fn lemma_init_once(s: ComplianceState, admin: Seq<char>, other: Seq<char>)
    requires
        s.init(admin) is Ok,
    ensures
        s.init(admin) == Ok::<ComplianceState, ComplianceError>(
            ComplianceState { admin: Some(admin), records: s.records },
        ),
        s.next(ComplianceOp::Init { admin }).init(other) == Err::<ComplianceState, ComplianceError>(
            ComplianceError::AlreadyInitialized,
        ),
{
}

/// A logged disbursement reads back, at the index that was returned, as the
/// record of what was logged, with the ledger time and no clawback; the count
/// grows by one and every earlier record reads back as before.
pub proof fn lemma_log_then_read(
    s: ComplianceState,
    now: u64,
    org_id: u64,
    recipient: Seq<u8>,
    amount: i128,
    currency: Seq<u8>,
)
    requires
        s.records.len() < u32::MAX,
    ensures
        ({
            let (t, ev) = s.log_disbursement(now, org_id, recipient, amount, currency);
            &&& ev.index == s.records.len()
            &&& t.records.len() == s.records.len() + 1
            &&& t.get_record(ev.index) == Ok::<DisbursementRecordView, ComplianceError>(
                DisbursementRecordView {
                    org_id,
                    recipient,
                    amount,
                    currency,
                    timestamp: now,
                    clawed_back: false,
                },
            )
            &&& forall|i: u32| i < s.records.len() ==> #[trigger] t.get_record(i) == s.get_record(i)
            &&& t.admin == s.admin
        }),
{
}

/// An accepted clawback was asked by the admin, for an existing record, within
/// 48 hours of it, and not clawed back before; it sets that record's flag,
/// leaves every other record and the admin as they were, and names the
/// record's organisation.
pub proof fn lemma_clawback_accepted(s: ComplianceState, caller: Seq<char>, index: u32, now: u64)
    requires
        s.clawback(caller, index, now) is Ok,
    ensures
        ({
            let (t, ev) = s.clawback(caller, index, now)->Ok_0;
            &&& s.admin == Some(caller)
            &&& index < s.records.len()
            &&& now - s.records[index as int].timestamp <= CLAWBACK_WINDOW_SECS
            &&& !s.records[index as int].clawed_back
            &&& t.records.len() == s.records.len()
            &&& t.records[index as int].clawed_back
            &&& same_disbursement(s.records[index as int], t.records[index as int])
            &&& forall|i: u32| i != index ==> #[trigger] t.get_record(i) == s.get_record(i)
            &&& t.admin == s.admin
            &&& ev == ClawbackExecutedEventView { index, org_id: s.records[index as int].org_id, caller }
        }),
{
}

/// A disbursement is clawed back at most once: after an accepted clawback of
/// a record, every further clawback of it is refused, whoever asks and
/// whenever.
pub proof fn lemma_clawback_at_most_once(
    s: ComplianceState,
    caller: Seq<char>,
    index: u32,
    now: u64,
    other: Seq<char>,
    later: u64,
)
    requires
        s.clawback(caller, index, now) is Ok,
    ensures
        s.next(ComplianceOp::Clawback { caller, index, now }).clawback(other, index, later) is Err,
{
}

/// A clawback request made more than 48 hours after the disbursement is
/// refused, even by the admin.
pub proof fn lemma_clawback_window(s: ComplianceState, caller: Seq<char>, index: u32, now: u64)
    requires
        index < s.records.len(),
        now - s.records[index as int].timestamp > CLAWBACK_WINDOW_SECS,
    ensures
        s.clawback(caller, index, now) is Err,
{
}

/// The ledger is append-only: no request removes a record, moves it, or
/// changes what it records; a clawback flag, once set, stays set; and the
/// admin, once set, never changes.
pub proof fn lemma_history_kept(s: ComplianceState, op: ComplianceOp)
    ensures
        history_kept(s, s.next(op)),
        s.admin is Some ==> s.next(op).admin == s.admin,
{
}

/// A clawback is accepted exactly when the caller is the admin, the record
/// exists, at most 48 hours have passed since it was logged, and that record
/// itself has not been clawed back; no other record matters. A refusal names
/// the first of these that fails. An accepted clawback sets the flag of that
/// record only, keeping what it records, and announces its index, its
/// organisation and the caller; the admin and every other record stay as
/// they were, and the record then reads back clawed back.
pub proof fn lemma_clawback_outcome(s: ComplianceState, caller: Seq<char>, index: u32, now: u64)
    ensures
        s.clawback(caller, index, now) is Ok <==> {
            &&& s.admin == Some(caller)
            &&& index < s.records.len()
            &&& now - s.records[index as int].timestamp <= CLAWBACK_WINDOW_SECS
            &&& !s.records[index as int].clawed_back
        },
        s.admin is None ==> s.clawback(caller, index, now) == Err::<
            (ComplianceState, ClawbackExecutedEventView),
            ComplianceError,
        >(ComplianceError::NotInitialized),
        s.admin is Some && s.admin != Some(caller) ==> s.clawback(caller, index, now) == Err::<
            (ComplianceState, ClawbackExecutedEventView),
            ComplianceError,
        >(ComplianceError::Unauthorized),
        s.admin == Some(caller) && s.records.len() == 0 ==> s.clawback(caller, index, now) == Err::<
            (ComplianceState, ClawbackExecutedEventView),
            ComplianceError,
        >(ComplianceError::NoRecords),
        s.admin == Some(caller) && 0 < s.records.len() <= index ==> s.clawback(caller, index, now)
            == Err::<(ComplianceState, ClawbackExecutedEventView), ComplianceError>(
            ComplianceError::InvalidIndex,
        ),
        s.admin == Some(caller) && index < s.records.len() && now - s.records[index as int].timestamp
            > CLAWBACK_WINDOW_SECS ==> s.clawback(caller, index, now) == Err::<
            (ComplianceState, ClawbackExecutedEventView),
            ComplianceError,
        >(ComplianceError::ClawbackWindowExpired),
        s.admin == Some(caller) && index < s.records.len() && now - s.records[index as int].timestamp
            <= CLAWBACK_WINDOW_SECS && s.records[index as int].clawed_back ==> s.clawback(
            caller,
            index,
            now,
        ) == Err::<(ComplianceState, ClawbackExecutedEventView), ComplianceError>(
            ComplianceError::AlreadyClawedBack,
        ),
        s.clawback(caller, index, now) is Ok ==> ({
            let (t, ev) = s.clawback(caller, index, now)->Ok_0;
            let r = s.records[index as int];
            &&& t.admin == s.admin
            &&& t.records.len() == s.records.len()
            &&& t.records[index as int] == DisbursementRecordView {
                org_id: r.org_id,
                recipient: r.recipient,
                amount: r.amount,
                currency: r.currency,
                timestamp: r.timestamp,
                clawed_back: true,
            }
            &&& forall|j: int| 0 <= j < s.records.len() && j != index ==> #[trigger] t.records[j] == s.records[j]
            &&& ev == ClawbackExecutedEventView { index, org_id: r.org_id, caller }
            &&& t.get_record(index) == Ok::<DisbursementRecordView, ComplianceError>(t.records[index as int])
        }),
{
    lemma_get_record_reads(s.clawback(caller, index, now)->Ok_0.0, index);
}

/// Every stored record can be read: reading index `i` gives the `i`-th
/// logged record, whatever it holds; reading fails only past the end, with
/// `NoRecords` when nothing was logged and `InvalidIndex` otherwise.
pub proof fn lemma_get_record_reads(s: ComplianceState, index: u32)
    ensures
        index < s.records.len() ==> s.get_record(index) == Ok::<DisbursementRecordView, ComplianceError>(
            s.records[index as int],
        ),
        s.records.len() == 0 ==> s.get_record(index) == Err::<DisbursementRecordView, ComplianceError>(
            ComplianceError::NoRecords,
        ),
        0 < s.records.len() <= index ==> s.get_record(index) == Err::<
            DisbursementRecordView,
            ComplianceError,
        >(ComplianceError::InvalidIndex),
{
}

/// Setting the admin is accepted exactly when no admin is set yet; it sets
/// the given admin and touches nothing else. Otherwise it is refused as
/// `AlreadyInitialized`.
pub proof fn lemma_init_outcome(s: ComplianceState, admin: Seq<char>)
    ensures
        s.init(admin) is Ok <==> s.admin is None,
        s.admin is None ==> s.init(admin) == Ok::<ComplianceState, ComplianceError>(ComplianceState { admin: Some(admin), records: s.records }),
        s.admin is Some ==> s.init(admin) == Err::<ComplianceState, ComplianceError>(ComplianceError::AlreadyInitialized),
{
}

} // verus!
