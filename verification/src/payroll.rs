//! The payroll schedule: recurring payments that the admin schedules, marks
//! as paid when due, and cancels.
//!
//! `PayrollContract` holds the contract's persistent state (the admin and the
//! entries). Each operation takes the state, the request and, where the
//! operation reads the clock, the current ledger time `now`; it returns the
//! event to announce, or the reason the request is refused. The mathematical
//! model of the state is `PayrollState`, and every operation is specified by
//! the transition function of the same name on that model.
use vstd::prelude::*;

use crate::common::{address_view, copy_bytes};

verus! {

/// One recurring payroll entry.
#[derive(Debug, PartialEq, Eq)]
pub struct PayrollEntry {
    pub org_id: u64,
    pub recipient: Vec<u8>,
    pub amount: i128,
    pub currency: Vec<u8>,
    pub interval_secs: u64,
    pub next_payout: u64,
    pub active: bool,
}

/// Announced when an entry is scheduled.
#[derive(Debug, PartialEq, Eq)]
pub struct PayrollScheduledEvent {
    pub org_id: u64,
    pub recipient: Vec<u8>,
    pub amount: i128,
    pub currency: Vec<u8>,
    pub interval_secs: u64,
    pub next_payout: u64,
    pub index: u32,
}

/// Announced when an entry is paid.
#[derive(Clone, Copy, Debug, PartialEq, Eq, Structural)]
pub struct PayrollPaidEvent {
    pub index: u32,
    pub next_payout: u64,
}

/// Announced when an entry is cancelled.
#[derive(Clone, Copy, Debug, PartialEq, Eq, Structural)]
pub struct PayrollCancelledEvent {
    pub index: u32,
}

/// The model of a `PayrollEntry`.
pub struct PayrollEntryView {
    pub org_id: u64,
    pub recipient: Seq<u8>,
    pub amount: i128,
    pub currency: Seq<u8>,
    pub interval_secs: u64,
    pub next_payout: u64,
    pub active: bool,
}

/// The model of a `PayrollScheduledEvent`.
pub struct PayrollScheduledEventView {
    pub org_id: u64,
    pub recipient: Seq<u8>,
    pub amount: i128,
    pub currency: Seq<u8>,
    pub interval_secs: u64,
    pub next_payout: u64,
    pub index: u32,
}

impl View for PayrollEntry {
    type V = PayrollEntryView;

    open spec fn view(&self) -> PayrollEntryView {
        PayrollEntryView {
            org_id: self.org_id,
            recipient: self.recipient@,
            amount: self.amount,
            currency: self.currency@,
            interval_secs: self.interval_secs,
            next_payout: self.next_payout,
            active: self.active,
        }
    }
}

impl View for PayrollScheduledEvent {
    type V = PayrollScheduledEventView;

    open spec fn view(&self) -> PayrollScheduledEventView {
        PayrollScheduledEventView {
            org_id: self.org_id,
            recipient: self.recipient@,
            amount: self.amount,
            currency: self.currency@,
            interval_secs: self.interval_secs,
            next_payout: self.next_payout,
            index: self.index,
        }
    }
}

impl PayrollScheduledEvent {
    /// The topic under which the event is published.
    pub fn topic() -> (t: &'static str)
        ensures
            t@ == "scheduled"@,
    {
        "scheduled"
    }
}

impl PayrollPaidEvent {
    /// The topic under which the event is published.
    pub fn topic() -> (t: &'static str)
        ensures
            t@ == "paid"@,
    {
        "paid"
    }
}

impl PayrollCancelledEvent {
    /// The topic under which the event is published.
    pub fn topic() -> (t: &'static str)
        ensures
            t@ == "cancelled"@,
    {
        "cancelled"
    }
}

/// Why the schedule refuses a request.
#[derive(Clone, Copy, Debug, PartialEq, Eq, Structural)]
pub enum PayrollError {
    AlreadyInitialized,
    NotInitialized,
    Unauthorized,
    NoEntries,
    InvalidIndex,
    EntryInactive,
    PayoutNotDueYet,
}

impl PayrollError {
    /// The message with which the contract aborts on this error.
    pub fn message(&self) -> (m: &'static str)
        ensures
            m@ == match *self {
                PayrollError::AlreadyInitialized => "already initialized"@,
                PayrollError::NotInitialized => "not initialized"@,
                PayrollError::Unauthorized => "unauthorized"@,
                PayrollError::NoEntries => "no entries"@,
                PayrollError::InvalidIndex => "invalid index"@,
                PayrollError::EntryInactive => "entry inactive"@,
                PayrollError::PayoutNotDueYet => "payout not due yet"@,
            },
    {
        match self {
            PayrollError::AlreadyInitialized => "already initialized",
            PayrollError::NotInitialized => "not initialized",
            PayrollError::Unauthorized => "unauthorized",
            PayrollError::NoEntries => "no entries",
            PayrollError::InvalidIndex => "invalid index",
            PayrollError::EntryInactive => "entry inactive",
            PayrollError::PayoutNotDueYet => "payout not due yet",
        }
    }
}

/// The abstract state of the schedule.
pub struct PayrollState {
    pub admin: Option<Seq<char>>,
    pub entries: Seq<PayrollEntryView>,
}

/// `e` switched off.
pub open spec fn deactivated(e: PayrollEntryView) -> PayrollEntryView {
    PayrollEntryView {
        org_id: e.org_id,
        recipient: e.recipient,
        amount: e.amount,
        currency: e.currency,
        interval_secs: e.interval_secs,
        next_payout: e.next_payout,
        active: false,
    }
}

/// `e` with its next payout moved to `next_payout`.
pub open spec fn rescheduled(e: PayrollEntryView, next_payout: u64) -> PayrollEntryView {
    PayrollEntryView {
        org_id: e.org_id,
        recipient: e.recipient,
        amount: e.amount,
        currency: e.currency,
        interval_secs: e.interval_secs,
        next_payout,
        active: e.active,
    }
}

impl PayrollState {
    /// `caller` is the admin.
    pub open spec fn is_admin(self, caller: Seq<char>) -> bool {
        self.admin == Some(caller)
    }

    /// Why a request by `caller` is refused for want of rights; `None` when
    /// `caller` is the admin.
    pub open spec fn admin_refusal(self, caller: Seq<char>) -> Option<PayrollError> {
        if self.admin is None {
            Some(PayrollError::NotInitialized)
        } else if !self.is_admin(caller) {
            Some(PayrollError::Unauthorized)
        } else {
            None
        }
    }

    /// Why a request by `caller` about entry `index` is refused before the
    /// entry itself is looked at; `None` when it may go on.
    pub open spec fn entry_refusal(self, caller: Seq<char>, index: u32) -> Option<PayrollError> {
        if self.admin_refusal(caller) is Some {
            self.admin_refusal(caller)
        } else if self.entries.len() == 0 {
            Some(PayrollError::NoEntries)
        } else if index >= self.entries.len() {
            Some(PayrollError::InvalidIndex)
        } else {
            None
        }
    }

    /// Setting the admin: refused once an admin is set.
    pub open spec fn init(self, admin: Seq<char>) -> Result<PayrollState, PayrollError> {
        if self.admin is Some {
            Err(PayrollError::AlreadyInitialized)
        } else {
            Ok(PayrollState { admin: Some(admin), entries: self.entries })
        }
    }

    /// Scheduling: admin only; the new entry is active and first due one
    /// interval after `now`.
    pub open spec fn schedule(
        self,
        caller: Seq<char>,
        now: u64,
        org_id: u64,
        recipient: Seq<u8>,
        amount: i128,
        currency: Seq<u8>,
        interval_secs: u64,
    ) -> Result<(PayrollState, PayrollScheduledEventView), PayrollError> {
        match self.admin_refusal(caller) {
            Some(e) => Err(e),
            None => {
                let next_payout = (now + interval_secs) as u64;
                Ok(
                    (
                        PayrollState {
                            admin: self.admin,
                            entries: self.entries.push(
                                PayrollEntryView {
                                    org_id,
                                    recipient,
                                    amount,
                                    currency,
                                    interval_secs,
                                    next_payout,
                                    active: true,
                                },
                            ),
                        },
                        PayrollScheduledEventView {
                            org_id,
                            recipient,
                            amount,
                            currency,
                            interval_secs,
                            next_payout,
                            index: self.entries.len() as u32,
                        },
                    ),
                )
            },
        }
    }

    /// Cancelling: admin only; switches the entry off, whatever its state.
    pub open spec fn cancel(self, caller: Seq<char>, index: u32) -> Result<
        (PayrollState, PayrollCancelledEvent),
        PayrollError,
    > {
        match self.entry_refusal(caller, index) {
            Some(e) => Err(e),
            None => Ok(
                (
                    PayrollState {
                        admin: self.admin,
                        entries: self.entries.update(index as int, deactivated(self.entries[index as int])),
                    },
                    PayrollCancelledEvent { index },
                ),
            ),
        }
    }

    /// Why paying entry `index` at `now` is refused; `None` when accepted.
    pub open spec fn mark_paid_refusal(self, caller: Seq<char>, index: u32, now: u64) -> Option<PayrollError> {
        if self.entry_refusal(caller, index) is Some {
            self.entry_refusal(caller, index)
        } else if !self.entries[index as int].active {
            Some(PayrollError::EntryInactive)
        } else if now < self.entries[index as int].next_payout {
            Some(PayrollError::PayoutNotDueYet)
        } else {
            None
        }
    }

    /// Paying: admin only, active entries only, not before they are due; the
    /// next payout falls one interval after `now`.
    pub open spec fn mark_paid(self, caller: Seq<char>, index: u32, now: u64) -> Result<
        (PayrollState, PayrollPaidEvent),
        PayrollError,
    > {
        match self.mark_paid_refusal(caller, index, now) {
            Some(e) => Err(e),
            None => {
                let next_payout = (now + self.entries[index as int].interval_secs) as u64;
                Ok(
                    (
                        PayrollState {
                            admin: self.admin,
                            entries: self.entries.update(
                                index as int,
                                rescheduled(self.entries[index as int], next_payout),
                            ),
                        },
                        PayrollPaidEvent { index, next_payout },
                    ),
                )
            },
        }
    }

    /// Reading entry `index`.
    pub open spec fn get_entry(self, index: u32) -> Result<PayrollEntryView, PayrollError> {
        if self.entries.len() == 0 {
            Err(PayrollError::NoEntries)
        } else if index >= self.entries.len() {
            Err(PayrollError::InvalidIndex)
        } else {
            Ok(self.entries[index as int])
        }
    }
}

/// The schedule's persistent state.
pub struct PayrollContract {
    /// The admin's address (strkey), once set.
    pub admin: Option<String>,
    /// The entries, in the order they were scheduled.
    pub entries: Vec<PayrollEntry>,
}

impl View for PayrollContract {
    type V = PayrollState;

    open spec fn view(&self) -> PayrollState {
        PayrollState {
            admin: address_view(self.admin),
            entries: self.entries@.map_values(|e: PayrollEntry| e@),
        }
    }
}

impl PayrollContract {
    /// Entry indices are `u32`: the number of entries fits in one.
    pub open spec fn wf(&self) -> bool {
        self.entries.len() <= u32::MAX
    }

    /// A schedule with no admin and no entries.
    pub fn new() -> (c: PayrollContract)
        ensures
            c.wf(),
            c@.admin is None,
            c@.entries.len() == 0,
    {
        PayrollContract { admin: None, entries: Vec::new() }
    }

    /// Initialize with an admin address.
    pub fn init(&mut self, admin: String) -> (r: Result<(), PayrollError>)
        requires
            old(self).wf(),
        ensures
            final(self).wf(),
            match old(self)@.init(admin@) {
                Ok(s) => r is Ok && final(self)@ == s,
                Err(e) => r == Err::<(), PayrollError>(e) && final(self)@ == old(self)@,
            },
    {
        if self.admin.is_some() {
            return Err(PayrollError::AlreadyInitialized);
        }
        self.admin = Some(admin);
        Ok(())
    }

    /// Refuses `caller` unless it is the admin.
    fn assert_admin(&self, caller: &String) -> (r: Result<(), PayrollError>)
        ensures
            match self@.admin_refusal(caller@) {
                Some(e) => r == Err::<(), PayrollError>(e),
                None => r is Ok,
            },
    {
        match &self.admin {
            None => Err(PayrollError::NotInitialized),
            Some(admin) => if *admin == *caller {
                Ok(())
            } else {
                Err(PayrollError::Unauthorized)
            },
        }
    }

    /// Schedule a recurring payroll entry at ledger time `now`. Returns the
    /// entry index and the event that announces the entry.
    pub fn schedule(
        &mut self,
        caller: String,
        now: u64,
        org_id: u64,
        recipient: Vec<u8>,
        amount: i128,
        currency: Vec<u8>,
        interval_secs: u64,
    ) -> (r: Result<(u32, PayrollScheduledEvent), PayrollError>)
        requires
            old(self).wf(),
            old(self)@.is_admin(caller@) ==> old(self).entries.len() < u32::MAX,
            // the first payout is computed as `now + interval_secs`
            old(self)@.is_admin(caller@) ==> now + interval_secs <= u64::MAX,
        ensures
            final(self).wf(),
            match old(self)@.schedule(caller@, now, org_id, recipient@, amount, currency@, interval_secs) {
                Ok((s, ev)) => r matches Ok((i, e)) && e@ == ev && i == ev.index && final(self)@ == s,
                Err(e) => r == Err::<(u32, PayrollScheduledEvent), PayrollError>(e) && final(self)@
                    == old(self)@,
            },
    {
        match self.assert_admin(&caller) {
            Err(e) => { return Err(e); },
            Ok(()) => {},
        }
        let next_payout = now + interval_secs;
        let entry = PayrollEntry {
            org_id,
            recipient: copy_bytes(&recipient),
            amount,
            currency: copy_bytes(&currency),
            interval_secs,
            next_payout,
            active: true,
        };
        let ghost before = self.entries@;
        self.entries.push(entry);
        assert(self.entries@.map_values(|e: PayrollEntry| e@) =~= before.map_values(
            |e: PayrollEntry| e@,
        ).push(entry@));
        let idx = (self.entries.len() - 1) as u32;
        Ok(
            (
                idx,
                PayrollScheduledEvent {
                    org_id,
                    recipient,
                    amount,
                    currency,
                    interval_secs,
                    next_payout,
                    index: idx,
                },
            ),
        )
    }

    /// Looks up entry `index` for `caller`, refusing as `entry_refusal` says.
    fn checked_index(&self, caller: &String, index: u32) -> (r: Result<usize, PayrollError>)
        ensures
            match self@.entry_refusal(caller@, index) {
                Some(e) => r == Err::<usize, PayrollError>(e),
                None => r == Ok::<usize, PayrollError>(index as usize),
            },
    {
        match self.assert_admin(caller) {
            Err(e) => { return Err(e); },
            Ok(()) => {},
        }
        if self.entries.len() == 0 {
            return Err(PayrollError::NoEntries);
        }
        if index as usize >= self.entries.len() {
            return Err(PayrollError::InvalidIndex);
        }
        Ok(index as usize)
    }

    /// Cancel a payroll entry (admin only).
    pub fn cancel(&mut self, caller: String, index: u32) -> (r: Result<PayrollCancelledEvent, PayrollError>)
        requires
            old(self).wf(),
        ensures
            final(self).wf(),
            match old(self)@.cancel(caller@, index) {
                Ok((s, ev)) => r == Ok::<PayrollCancelledEvent, PayrollError>(ev) && final(self)@ == s,
                Err(e) => r == Err::<PayrollCancelledEvent, PayrollError>(e) && final(self)@ == old(self)@,
            },
    {
        let i = match self.checked_index(&caller, index) {
            Err(e) => { return Err(e); },
            Ok(i) => i,
        };
        let entry = &self.entries[i];
        let updated = PayrollEntry {
            org_id: entry.org_id,
            recipient: copy_bytes(&entry.recipient),
            amount: entry.amount,
            currency: copy_bytes(&entry.currency),
            interval_secs: entry.interval_secs,
            next_payout: entry.next_payout,
            active: false,
        };
        let ghost before = self.entries@;
        self.entries.set(i, updated);
        assert(self.entries@.map_values(|e: PayrollEntry| e@) =~= before.map_values(
            |e: PayrollEntry| e@,
        ).update(i as int, deactivated(before[i as int]@)));
        Ok(PayrollCancelledEvent { index })
    }

    /// Mark an entry as paid at ledger time `now` and advance its
    /// `next_payout` timestamp.
    pub fn mark_paid(&mut self, caller: String, index: u32, now: u64) -> (r: Result<PayrollPaidEvent, PayrollError>)
        requires
            old(self).wf(),
            // the next payout is computed as `now + interval_secs`
            old(self)@.mark_paid_refusal(caller@, index, now) is None ==> now
                + old(self).entries[index as int].interval_secs <= u64::MAX,
        ensures
            final(self).wf(),
            match old(self)@.mark_paid(caller@, index, now) {
                Ok((s, ev)) => r == Ok::<PayrollPaidEvent, PayrollError>(ev) && final(self)@ == s,
                Err(e) => r == Err::<PayrollPaidEvent, PayrollError>(e) && final(self)@ == old(self)@,
            },
    {
        let i = match self.checked_index(&caller, index) {
            Err(e) => { return Err(e); },
            Ok(i) => i,
        };
        let entry = &self.entries[i];
        if !entry.active {
            return Err(PayrollError::EntryInactive);
        }
        if now < entry.next_payout {
            return Err(PayrollError::PayoutNotDueYet);
        }
        let next_payout = now + entry.interval_secs;
        let updated = PayrollEntry {
            org_id: entry.org_id,
            recipient: copy_bytes(&entry.recipient),
            amount: entry.amount,
            currency: copy_bytes(&entry.currency),
            interval_secs: entry.interval_secs,
            next_payout,
            active: entry.active,
        };
        let ghost before = self.entries@;
        self.entries.set(i, updated);
        assert(self.entries@.map_values(|e: PayrollEntry| e@) =~= before.map_values(
            |e: PayrollEntry| e@,
        ).update(i as int, rescheduled(before[i as int]@, next_payout)));
        Ok(PayrollPaidEvent { index, next_payout })
    }

    /// Get a payroll entry by index.
    pub fn get_entry(&self, index: u32) -> (r: Result<&PayrollEntry, PayrollError>)
        ensures
            match self@.get_entry(index) {
                Ok(entry) => r matches Ok(x) && x@ == entry,
                Err(e) => r == Err::<&PayrollEntry, PayrollError>(e),
            },
    {
        if self.entries.len() == 0 {
            return Err(PayrollError::NoEntries);
        }
        if index as usize >= self.entries.len() {
            return Err(PayrollError::InvalidIndex);
        }
        Ok(&self.entries[index as usize])
    }

    /// Get total number of entries.
    pub fn entry_count(&self) -> (n: u32)
        requires
            self.wf(),
        ensures
            n == self@.entries.len(),
    {
        self.entries.len() as u32
    }
}

/// A request to the schedule, as far as it changes the state.
pub enum PayrollOp {
    Init { admin: Seq<char> },
    Schedule {
        caller: Seq<char>,
        now: u64,
        org_id: u64,
        recipient: Seq<u8>,
        amount: i128,
        currency: Seq<u8>,
        interval_secs: u64,
    },
    Cancel { caller: Seq<char>, index: u32 },
    MarkPaid { caller: Seq<char>, index: u32, now: u64 },
}

impl PayrollState {
    /// The state after `op`: the new state when the request is accepted, the
    /// same state when it is refused.
    pub open spec fn next(self, op: PayrollOp) -> PayrollState {
        match op {
            PayrollOp::Init { admin } => match self.init(admin) {
                Ok(s) => s,
                Err(_) => self,
            },
            PayrollOp::Schedule { caller, now, org_id, recipient, amount, currency, interval_secs } => match self.schedule(
                caller,
                now,
                org_id,
                recipient,
                amount,
                currency,
                interval_secs,
            ) {
                Ok((s, _)) => s,
                Err(_) => self,
            },
            PayrollOp::Cancel { caller, index } => match self.cancel(caller, index) {
                Ok((s, _)) => s,
                Err(_) => self,
            },
            PayrollOp::MarkPaid { caller, index, now } => match self.mark_paid(caller, index, now) {
                Ok((s, _)) => s,
                Err(_) => self,
            },
        }
    }
}

/// `later` is the same payment as `earlier`: same organisation, recipient,
/// amount, currency and interval; and it is inactive if `earlier` is.
pub open spec fn same_payment(earlier: PayrollEntryView, later: PayrollEntryView) -> bool {
    &&& later.org_id == earlier.org_id
    &&& later.recipient == earlier.recipient
    &&& later.amount == earlier.amount
    &&& later.currency == earlier.currency
    &&& later.interval_secs == earlier.interval_secs
    &&& !earlier.active ==> !later.active
}

/// Every entry of `s` is still in `t`, at the same index, for the same
/// payment.
pub open spec fn entries_kept(s: PayrollState, t: PayrollState) -> bool {
    &&& s.entries.len() <= t.entries.len()
    &&& forall|i: int| 0 <= i < s.entries.len() ==> same_payment(s.entries[i], #[trigger] t.entries[i])
}

/// The admin is set once: after an accepted `init`, every further `init` is
/// refused.
pub proof fn lemma_init_once(s: PayrollState, admin: Seq<char>, other: Seq<char>)
    requires
        s.init(admin) is Ok,
    ensures
        s.init(admin) == Ok::<PayrollState, PayrollError>(PayrollState { admin: Some(admin), entries: s.entries }),
        s.next(PayrollOp::Init { admin }).init(other) == Err::<PayrollState, PayrollError>(PayrollError::AlreadyInitialized),
{
}

/// A scheduled entry reads back, at the index that was returned, as active
/// and first due one interval after the time it was scheduled; every earlier
/// entry reads back as before.
pub proof fn lemma_schedule_then_read(
    s: PayrollState,
    caller: Seq<char>,
    now: u64,
    org_id: u64,
    recipient: Seq<u8>,
    amount: i128,
    currency: Seq<u8>,
    interval_secs: u64,
)
    requires
        s.is_admin(caller),
        s.entries.len() < u32::MAX,
        now + interval_secs <= u64::MAX,
    ensures
        s.schedule(caller, now, org_id, recipient, amount, currency, interval_secs) is Ok,
        ({
            let (t, ev) = s.schedule(caller, now, org_id, recipient, amount, currency, interval_secs)->Ok_0;
            &&& ev.index == s.entries.len()
            &&& ev.next_payout == now + interval_secs
            &&& t.entries.len() == s.entries.len() + 1
            &&& t.get_entry(ev.index) == Ok::<PayrollEntryView, PayrollError>(
                PayrollEntryView {
                    org_id,
                    recipient,
                    amount,
                    currency,
                    interval_secs,
                    next_payout: ev.next_payout,
                    active: true,
                },
            )
            &&& forall|i: u32| i < s.entries.len() ==> #[trigger] t.get_entry(i) == s.get_entry(i)
        }),
{
}

/// Only the admin changes the schedule: a request that changes the entries
/// was made by the admin, and `init` never changes them.
pub proof fn lemma_only_admin_changes_entries(s: PayrollState, op: PayrollOp)
    ensures
        match op {
            PayrollOp::Init { .. } => s.next(op).entries == s.entries,
            PayrollOp::Schedule { caller, .. } => s.next(op).entries != s.entries ==> s.is_admin(caller),
            PayrollOp::Cancel { caller, .. } => s.next(op).entries != s.entries ==> s.is_admin(caller),
            PayrollOp::MarkPaid { caller, .. } => s.next(op).entries != s.entries ==> s.is_admin(caller),
        },
{
}

/// A cancellation is final: once an entry is cancelled, every request to pay
/// it is refused, whoever asks and whenever.
pub proof fn lemma_cancel_is_final(s: PayrollState, caller: Seq<char>, index: u32, other: Seq<char>, now: u64)
    requires
        s.cancel(caller, index) is Ok,
    ensures
        s.next(PayrollOp::Cancel { caller, index }).mark_paid(other, index, now) is Err,
{
}

/// An accepted payment was made no earlier than the entry was due; it moves
/// the next payout to one interval after the payment, hence at least one
/// interval later than it was, and changes nothing else.
pub proof fn lemma_mark_paid_advances(s: PayrollState, caller: Seq<char>, index: u32, now: u64)
    requires
        s.mark_paid(caller, index, now) is Ok,
        now + s.entries[index as int].interval_secs <= u64::MAX,
    ensures
        ({
            let (t, ev) = s.mark_paid(caller, index, now)->Ok_0;
            let old_entry = s.entries[index as int];
            &&& s.is_admin(caller)
            &&& old_entry.active
            &&& old_entry.next_payout <= now
            &&& ev == PayrollPaidEvent { index, next_payout: (now + old_entry.interval_secs) as u64 }
            &&& t.entries[index as int].next_payout == now + old_entry.interval_secs
            &&& t.entries[index as int].next_payout >= old_entry.next_payout + old_entry.interval_secs
            &&& t.entries[index as int] == rescheduled(old_entry, ev.next_payout)
            &&& t.entries.len() == s.entries.len()
            &&& forall|i: u32| i != index ==> #[trigger] t.get_entry(i) == s.get_entry(i)
        }),
{
}

/// An entry with a positive interval is paid at most once per interval: a
/// second payment at the same time is refused as not due.
pub proof fn lemma_no_double_payment(s: PayrollState, caller: Seq<char>, index: u32, now: u64)
    requires
        s.mark_paid(caller, index, now) is Ok,
        now + s.entries[index as int].interval_secs <= u64::MAX,
        s.entries[index as int].interval_secs > 0,
    ensures
        s.next(PayrollOp::MarkPaid { caller, index, now }).mark_paid(caller, index, now)
            == Err::<(PayrollState, PayrollPaidEvent), PayrollError>(PayrollError::PayoutNotDueYet),
{
}

/// The schedule is append-only: no request removes an entry, moves it, or
/// changes whom it pays, how much, in what currency or how often; an
/// inactive entry stays inactive; and the admin, once set, never changes.
pub proof fn lemma_entries_kept(s: PayrollState, op: PayrollOp)
    ensures
        entries_kept(s, s.next(op)),
        s.admin is Some ==> s.next(op).admin == s.admin,
{
}

/// Every stored entry can be read: reading index `i` gives the `i`-th
/// scheduled entry, whatever it holds (cancelled ones too); reading fails only
/// past the end, with `NoEntries` when nothing was scheduled and
/// `InvalidIndex` otherwise.
pub proof fn lemma_get_entry_reads(s: PayrollState, index: u32)
    ensures
        index < s.entries.len() ==> s.get_entry(index) == Ok::<PayrollEntryView, PayrollError>(
            s.entries[index as int],
        ),
        s.entries.len() == 0 ==> s.get_entry(index) == Err::<PayrollEntryView, PayrollError>(
            PayrollError::NoEntries,
        ),
        0 < s.entries.len() <= index ==> s.get_entry(index) == Err::<PayrollEntryView, PayrollError>(
            PayrollError::InvalidIndex,
        ),
{
}

/// Who may act: with no admin every request is refused as `NotInitialized`,
/// and any caller but the admin is refused as `Unauthorized`; the admin's
/// request about an entry fails only past the end of the schedule.
pub proof fn lemma_refusals_for_rights(s: PayrollState, caller: Seq<char>, index: u32, now: u64)
    ensures
        s.admin is None ==> s.cancel(caller, index) == Err::<(PayrollState, PayrollCancelledEvent), PayrollError>(PayrollError::NotInitialized)
            && s.mark_paid(caller, index, now) == Err::<(PayrollState, PayrollPaidEvent), PayrollError>(PayrollError::NotInitialized),
        s.admin is Some && s.admin != Some(caller) ==> s.cancel(caller, index) == Err::<(PayrollState, PayrollCancelledEvent), PayrollError>(
            PayrollError::Unauthorized,
        ) && s.mark_paid(caller, index, now) == Err::<(PayrollState, PayrollPaidEvent), PayrollError>(PayrollError::Unauthorized),
        s.admin == Some(caller) && s.entries.len() == 0 ==> s.cancel(caller, index) == Err::<(PayrollState, PayrollCancelledEvent), PayrollError>(
            PayrollError::NoEntries,
        ) && s.mark_paid(caller, index, now) == Err::<(PayrollState, PayrollPaidEvent), PayrollError>(PayrollError::NoEntries),
        s.admin == Some(caller) && 0 < s.entries.len() <= index ==> s.cancel(caller, index) == Err::<
            (PayrollState, PayrollCancelledEvent),
            PayrollError,
        >(PayrollError::InvalidIndex) && s.mark_paid(caller, index, now) == Err::<(PayrollState, PayrollPaidEvent), PayrollError>(
            PayrollError::InvalidIndex,
        ),
{
}

/// Scheduling is accepted exactly when the caller is the admin; it appends
/// one active entry, first due one interval after `now`, announced under its
/// index, and leaves every earlier entry and the admin as they were.
pub proof fn lemma_schedule_outcome(
    s: PayrollState,
    caller: Seq<char>,
    now: u64,
    org_id: u64,
    recipient: Seq<u8>,
    amount: i128,
    currency: Seq<u8>,
    interval_secs: u64,
)
    ensures
        s.schedule(caller, now, org_id, recipient, amount, currency, interval_secs) is Ok <==> s.admin
            == Some(caller),
        now + interval_secs <= u64::MAX && s.admin == Some(caller) ==> ({
            let (t, ev) = s.schedule(caller, now, org_id, recipient, amount, currency, interval_secs)->Ok_0;
            &&& t.admin == s.admin
            &&& t.entries.len() == s.entries.len() + 1
            &&& forall|j: int| 0 <= j < s.entries.len() ==> #[trigger] t.entries[j] == s.entries[j]
            &&& t.entries[s.entries.len() as int] == PayrollEntryView {
                org_id,
                recipient,
                amount,
                currency,
                interval_secs,
                next_payout: (now + interval_secs) as u64,
                active: true,
            }
            &&& t.entries[s.entries.len() as int].next_payout == now + interval_secs
            &&& ev == PayrollScheduledEventView {
                org_id,
                recipient,
                amount,
                currency,
                interval_secs,
                next_payout: (now + interval_secs) as u64,
                index: s.entries.len() as u32,
            }
        }),
{
}

/// Cancelling is accepted exactly when the caller is the admin and the entry
/// exists, whatever its state; it switches off that entry only, keeping
/// everything else it holds, leaves the admin and every other entry as they
/// were, and the entry then reads back switched off.
pub proof fn lemma_cancel_outcome(s: PayrollState, caller: Seq<char>, index: u32)
    ensures
        s.cancel(caller, index) is Ok <==> s.admin == Some(caller) && index < s.entries.len(),
        s.cancel(caller, index) is Ok ==> ({
            let (t, ev) = s.cancel(caller, index)->Ok_0;
            let e = s.entries[index as int];
            &&& t.admin == s.admin
            &&& t.entries.len() == s.entries.len()
            &&& t.entries[index as int] == PayrollEntryView {
                org_id: e.org_id,
                recipient: e.recipient,
                amount: e.amount,
                currency: e.currency,
                interval_secs: e.interval_secs,
                next_payout: e.next_payout,
                active: false,
            }
            &&& forall|j: int| 0 <= j < s.entries.len() && j != index ==> #[trigger] t.entries[j] == s.entries[j]
            &&& ev == PayrollCancelledEvent { index }
            &&& t.get_entry(index) == Ok::<PayrollEntryView, PayrollError>(t.entries[index as int])
        }),
{
    lemma_get_entry_reads(s.cancel(caller, index)->Ok_0.0, index);
}

/// Paying is accepted exactly when the caller is the admin, the entry exists,
/// is active and is due (its next payout is not after `now`); no other entry
/// matters. A refusal of an existing entry names `EntryInactive` before
/// `PayoutNotDueYet`. An accepted payment moves that entry's next payout to
/// `now` plus its interval, keeping everything else it holds, and leaves the
/// admin and every other entry as they were.
pub proof fn lemma_mark_paid_outcome(s: PayrollState, caller: Seq<char>, index: u32, now: u64)
    ensures
        s.mark_paid(caller, index, now) is Ok <==> {
            &&& s.admin == Some(caller)
            &&& index < s.entries.len()
            &&& s.entries[index as int].active
            &&& s.entries[index as int].next_payout <= now
        },
        s.admin == Some(caller) && index < s.entries.len() && !s.entries[index as int].active
            ==> s.mark_paid(caller, index, now) == Err::<(PayrollState, PayrollPaidEvent), PayrollError>(PayrollError::EntryInactive),
        s.admin == Some(caller) && index < s.entries.len() && s.entries[index as int].active && now
            < s.entries[index as int].next_payout ==> s.mark_paid(caller, index, now) == Err::<
            (PayrollState, PayrollPaidEvent),
            PayrollError,
        >(PayrollError::PayoutNotDueYet),
        s.mark_paid(caller, index, now) is Ok && now + s.entries[index as int].interval_secs <= u64::MAX
            ==> ({
            let (t, ev) = s.mark_paid(caller, index, now)->Ok_0;
            let e = s.entries[index as int];
            &&& t.admin == s.admin
            &&& t.entries.len() == s.entries.len()
            &&& t.entries[index as int] == PayrollEntryView {
                org_id: e.org_id,
                recipient: e.recipient,
                amount: e.amount,
                currency: e.currency,
                interval_secs: e.interval_secs,
                next_payout: (now + e.interval_secs) as u64,
                active: e.active,
            }
            &&& t.entries[index as int].next_payout == now + e.interval_secs
            &&& forall|j: int| 0 <= j < s.entries.len() && j != index ==> #[trigger] t.entries[j] == s.entries[j]
            &&& ev.index == index
            &&& ev.next_payout == now + e.interval_secs
            &&& t.get_entry(index) == Ok::<PayrollEntryView, PayrollError>(t.entries[index as int])
        }),
{
    if s.mark_paid(caller, index, now) is Ok {
        lemma_get_entry_reads(s.mark_paid(caller, index, now)->Ok_0.0, index);
    }
}

/// Setting the admin is accepted exactly when no admin is set yet; it sets
/// the given admin and touches nothing else. Otherwise it is refused as
/// `AlreadyInitialized`.
pub proof fn lemma_init_outcome(s: PayrollState, admin: Seq<char>)
    ensures
        s.init(admin) is Ok <==> s.admin is None,
        s.admin is None ==> s.init(admin) == Ok::<PayrollState, PayrollError>(PayrollState { admin: Some(admin), entries: s.entries }),
        s.admin is Some ==> s.init(admin) == Err::<PayrollState, PayrollError>(PayrollError::AlreadyInitialized),
{
}

} // verus!
