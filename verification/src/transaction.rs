//! Tracking of confirmed-service transactions routed from BACnet/IP clients to
//! MS/TP devices, so that responses can be routed back and timeouts retried.
use vstd::prelude::*;
use crate::bytes::IpEndpoint;

verus! {

/// Maximum number of concurrent transactions.
pub const MAX_CONCURRENT_TRANSACTIONS: usize = 256;

/// Default maximum retries for timed-out transactions.
pub const DEFAULT_MAX_RETRIES: u8 = 3;

/// Errors of transaction management.
#[derive(Debug, Clone, Copy, PartialEq, Eq, Structural)]
pub enum TransactionError {
    TableFull,
    NotFound,
    DuplicateInvokeId,
    InvalidInvokeId,
}

/// The text of a transaction error.
pub open spec fn transaction_error_text(e: TransactionError) -> Seq<char> {
    match e {
        TransactionError::TableFull => "Transaction table full"@,
        TransactionError::NotFound => "Transaction not found"@,
        TransactionError::DuplicateInvokeId => "Duplicate invoke ID"@,
        TransactionError::InvalidInvokeId => "Invalid invoke ID"@,
    }
}

impl TransactionError {
    /// The error as text (e.g. `Transaction table full`).
    pub fn message(&self) -> (r: &'static str)
        ensures
            r@ == transaction_error_text(*self),
    {
        match self {
            TransactionError::TableFull => "Transaction table full",
            TransactionError::NotFound => "Transaction not found",
            TransactionError::DuplicateInvokeId => "Duplicate invoke ID",
            TransactionError::InvalidInvokeId => "Invalid invoke ID",
        }
    }
}

/// Confirmed service choices that the gateway routes.
#[derive(Debug, Clone, Copy, PartialEq, Eq, Structural)]
pub enum ConfirmedServiceChoice {
    AcknowledgeAlarm,
    ConfirmedEventNotification,
    GetAlarmSummary,
    GetEnrollmentSummary,
    SubscribeCOV,
    AtomicReadFile,
    AtomicWriteFile,
    AddListElement,
    RemoveListElement,
    CreateObject,
    DeleteObject,
    ReadProperty,
    ReadPropertyMultiple,
    WriteProperty,
    WritePropertyMultiple,
    DeviceCommunicationControl,
    ReinitializeDevice,
    VtOpen,
    VtClose,
    VtData,
    Authenticate,
    RequestKey,
    ReadRange,
    SubscribeCOVProperty,
    GetEventInformation,
    AuthRequest,
}

/// The service with BACnet service choice number `code`.
pub open spec fn service_of_code(code: u8) -> Option<ConfirmedServiceChoice> {
    if code == 0 {
        Some(ConfirmedServiceChoice::AcknowledgeAlarm)
    } else if code == 2 {
        Some(ConfirmedServiceChoice::ConfirmedEventNotification)
    } else if code == 3 {
        Some(ConfirmedServiceChoice::GetAlarmSummary)
    } else if code == 4 {
        Some(ConfirmedServiceChoice::GetEnrollmentSummary)
    } else if code == 5 {
        Some(ConfirmedServiceChoice::SubscribeCOV)
    } else if code == 6 {
        Some(ConfirmedServiceChoice::AtomicReadFile)
    } else if code == 7 {
        Some(ConfirmedServiceChoice::AtomicWriteFile)
    } else if code == 8 {
        Some(ConfirmedServiceChoice::AddListElement)
    } else if code == 9 {
        Some(ConfirmedServiceChoice::RemoveListElement)
    } else if code == 10 {
        Some(ConfirmedServiceChoice::CreateObject)
    } else if code == 11 {
        Some(ConfirmedServiceChoice::DeleteObject)
    } else if code == 12 {
        Some(ConfirmedServiceChoice::ReadProperty)
    } else if code == 14 {
        Some(ConfirmedServiceChoice::ReadPropertyMultiple)
    } else if code == 15 {
        Some(ConfirmedServiceChoice::WriteProperty)
    } else if code == 16 {
        Some(ConfirmedServiceChoice::WritePropertyMultiple)
    } else if code == 17 {
        Some(ConfirmedServiceChoice::DeviceCommunicationControl)
    } else if code == 20 {
        Some(ConfirmedServiceChoice::ReinitializeDevice)
    } else if code == 21 {
        Some(ConfirmedServiceChoice::VtOpen)
    } else if code == 22 {
        Some(ConfirmedServiceChoice::VtClose)
    } else if code == 23 {
        Some(ConfirmedServiceChoice::VtData)
    } else if code == 24 {
        Some(ConfirmedServiceChoice::Authenticate)
    } else if code == 25 {
        Some(ConfirmedServiceChoice::RequestKey)
    } else if code == 26 {
        Some(ConfirmedServiceChoice::ReadRange)
    } else if code == 28 {
        Some(ConfirmedServiceChoice::SubscribeCOVProperty)
    } else if code == 29 {
        Some(ConfirmedServiceChoice::GetEventInformation)
    } else if code == 34 {
        Some(ConfirmedServiceChoice::AuthRequest)
    } else {
        None
    }
}

impl ConfirmedServiceChoice {
    /// The service for a service choice number; `Err(())` for numbers of
    /// services that are not routed.
    pub fn try_from_u8(code: u8) -> (r: Result<ConfirmedServiceChoice, ()>)
        ensures
            match r {
                Ok(s) => service_of_code(code) == Some(s),
                Err(_) => service_of_code(code) is None,
            },
    {
        match code {
            0 => Ok(ConfirmedServiceChoice::AcknowledgeAlarm),
            2 => Ok(ConfirmedServiceChoice::ConfirmedEventNotification),
            3 => Ok(ConfirmedServiceChoice::GetAlarmSummary),
            4 => Ok(ConfirmedServiceChoice::GetEnrollmentSummary),
            5 => Ok(ConfirmedServiceChoice::SubscribeCOV),
            6 => Ok(ConfirmedServiceChoice::AtomicReadFile),
            7 => Ok(ConfirmedServiceChoice::AtomicWriteFile),
            8 => Ok(ConfirmedServiceChoice::AddListElement),
            9 => Ok(ConfirmedServiceChoice::RemoveListElement),
            10 => Ok(ConfirmedServiceChoice::CreateObject),
            11 => Ok(ConfirmedServiceChoice::DeleteObject),
            12 => Ok(ConfirmedServiceChoice::ReadProperty),
            14 => Ok(ConfirmedServiceChoice::ReadPropertyMultiple),
            15 => Ok(ConfirmedServiceChoice::WriteProperty),
            16 => Ok(ConfirmedServiceChoice::WritePropertyMultiple),
            17 => Ok(ConfirmedServiceChoice::DeviceCommunicationControl),
            20 => Ok(ConfirmedServiceChoice::ReinitializeDevice),
            21 => Ok(ConfirmedServiceChoice::VtOpen),
            22 => Ok(ConfirmedServiceChoice::VtClose),
            23 => Ok(ConfirmedServiceChoice::VtData),
            24 => Ok(ConfirmedServiceChoice::Authenticate),
            25 => Ok(ConfirmedServiceChoice::RequestKey),
            26 => Ok(ConfirmedServiceChoice::ReadRange),
            28 => Ok(ConfirmedServiceChoice::SubscribeCOVProperty),
            29 => Ok(ConfirmedServiceChoice::GetEventInformation),
            34 => Ok(ConfirmedServiceChoice::AuthRequest),
            _ => Err(()),
        }
    }
}

/// Recommended timeout of a service, in milliseconds.
pub open spec fn service_timeout_spec(s: ConfirmedServiceChoice) -> u64 {
    match s {
        ConfirmedServiceChoice::ReadProperty
        | ConfirmedServiceChoice::WriteProperty
        | ConfirmedServiceChoice::ReadPropertyMultiple
        | ConfirmedServiceChoice::WritePropertyMultiple
        | ConfirmedServiceChoice::SubscribeCOV
        | ConfirmedServiceChoice::SubscribeCOVProperty => 10_000,
        ConfirmedServiceChoice::AtomicReadFile
        | ConfirmedServiceChoice::ReinitializeDevice
        | ConfirmedServiceChoice::DeviceCommunicationControl => 30_000,
        ConfirmedServiceChoice::AtomicWriteFile => 60_000,
        ConfirmedServiceChoice::ReadRange
        | ConfirmedServiceChoice::Authenticate
        | ConfirmedServiceChoice::RequestKey
        | ConfirmedServiceChoice::AuthRequest => 20_000,
        _ => 15_000,
    }
}

/// Recommended timeout of a service, in milliseconds.
pub fn service_timeout(service: ConfirmedServiceChoice) -> (r: u64)
    ensures
        r == service_timeout_spec(service),
{
    match service {
        ConfirmedServiceChoice::ReadProperty
        | ConfirmedServiceChoice::WriteProperty
        | ConfirmedServiceChoice::ReadPropertyMultiple
        | ConfirmedServiceChoice::WritePropertyMultiple => 10_000,
        ConfirmedServiceChoice::AtomicReadFile => 30_000,
        ConfirmedServiceChoice::AtomicWriteFile => 60_000,
        ConfirmedServiceChoice::ReinitializeDevice
        | ConfirmedServiceChoice::DeviceCommunicationControl => 30_000,
        ConfirmedServiceChoice::CreateObject
        | ConfirmedServiceChoice::DeleteObject
        | ConfirmedServiceChoice::AddListElement
        | ConfirmedServiceChoice::RemoveListElement => 15_000,
        ConfirmedServiceChoice::AcknowledgeAlarm
        | ConfirmedServiceChoice::GetAlarmSummary
        | ConfirmedServiceChoice::GetEnrollmentSummary
        | ConfirmedServiceChoice::GetEventInformation
        | ConfirmedServiceChoice::ConfirmedEventNotification => 15_000,
        ConfirmedServiceChoice::SubscribeCOV | ConfirmedServiceChoice::SubscribeCOVProperty => 10_000,
        ConfirmedServiceChoice::ReadRange => 20_000,
        ConfirmedServiceChoice::VtOpen
        | ConfirmedServiceChoice::VtClose
        | ConfirmedServiceChoice::VtData => 15_000,
        ConfirmedServiceChoice::Authenticate
        | ConfirmedServiceChoice::RequestKey
        | ConfirmedServiceChoice::AuthRequest => 20_000,
    }
}

/// Milliseconds since the Unix epoch on the wall clock, read with
/// `SystemTime::elapsed` on `UNIX_EPOCH` (0 for a clock set before it).
/// Nothing is claimed of the reading.
#[verifier::external_body]
pub(crate) fn clock_ms() -> u64 {
    match std::time::UNIX_EPOCH.elapsed() {
        Ok(d) => d.as_millis() as u64,
        Err(_) => 0,
    }
}

/// Key of a transaction: invoke ID and MS/TP destination address.
#[derive(Debug, Clone, Copy, PartialEq, Eq, Hash, Structural)]
pub struct TransactionKey {
    pub invoke_id: u8,
    pub dest_mac: u8,
}

impl TransactionKey {
    /// A key from its parts.
    pub fn new(invoke_id: u8, dest_mac: u8) -> (r: TransactionKey)
        ensures
            r.invoke_id == invoke_id,
            r.dest_mac == dest_mac,
    {
        TransactionKey { invoke_id, dest_mac }
    }
}

/// A confirmed request forwarded to MS/TP and awaiting its response.
#[derive(Debug, Clone)]
pub struct PendingTransaction {
    pub invoke_id: u8,
    pub source_addr: IpEndpoint,
    pub source_network: Option<u16>,
    pub source_mac: Vec<u8>,
    pub dest_network: u16,
    pub dest_mac: u8,
    pub service: ConfirmedServiceChoice,
    pub segmented: bool,
    /// Clock reading (ms) when the transaction was created or last retried.
    pub created_at_ms: u64,
    /// Timeout in milliseconds.
    pub timeout_ms: u64,
    pub retries: u8,
    pub max_retries: u8,
    /// Routed NPDU kept for retransmission.
    pub original_npdu: Vec<u8>,
}

/// Mathematical view of a pending transaction.
pub struct TxnView {
    pub invoke_id: u8,
    pub source_addr: IpEndpoint,
    pub source_network: Option<u16>,
    pub source_mac: Seq<u8>,
    pub dest_network: u16,
    pub dest_mac: u8,
    pub service: ConfirmedServiceChoice,
    pub segmented: bool,
    pub created_at_ms: u64,
    pub timeout_ms: u64,
    pub retries: u8,
    pub max_retries: u8,
    pub original_npdu: Seq<u8>,
}

impl View for PendingTransaction {
    type V = TxnView;

    open spec fn view(&self) -> TxnView {
        TxnView {
            invoke_id: self.invoke_id,
            source_addr: self.source_addr,
            source_network: self.source_network,
            source_mac: self.source_mac@,
            dest_network: self.dest_network,
            dest_mac: self.dest_mac,
            service: self.service,
            segmented: self.segmented,
            created_at_ms: self.created_at_ms,
            timeout_ms: self.timeout_ms,
            retries: self.retries,
            max_retries: self.max_retries,
            original_npdu: self.original_npdu@,
        }
    }
}

/// Whether a transaction created at `created` with `timeout` has timed out at
/// `now` (more than `timeout` has elapsed; a clock that went back counts as no
/// time elapsed).
pub open spec fn timed_out_at(created: u64, timeout: u64, now: u64) -> bool {
    now > created && now - created > timeout
}

/// Milliseconds left at `now` of a timeout of `timeout` started at `created`
/// (all of it when the clock went back, none once it has passed).
pub open spec fn remaining_at(created: u64, timeout: u64, now: u64) -> u64 {
    if now <= created {
        timeout
    } else if now - created >= timeout {
        0
    } else {
        (timeout - (now - created)) as u64
    }
}

/// A transaction after one more retry at `now`: the retry count grows by one,
/// the timer restarts, and the timeout grows by half.
pub open spec fn retried(t: PendingTransaction, now: u64) -> PendingTransaction {
    PendingTransaction {
        retries: t.retries.saturating_add(1),
        created_at_ms: now,
        timeout_ms: t.timeout_ms.saturating_add(t.timeout_ms / 2),
        ..t
    }
}

impl PendingTransaction {
    /// A new transaction created at clock reading `now_ms`, with the service's
    /// timeout and the default retry limit.
    pub fn new_at(
        invoke_id: u8,
        source_addr: IpEndpoint,
        source_network: Option<u16>,
        source_mac: Vec<u8>,
        dest_network: u16,
        dest_mac: u8,
        service: ConfirmedServiceChoice,
        segmented: bool,
        original_npdu: Vec<u8>,
        now_ms: u64,
    ) -> (r: PendingTransaction)
        ensures
            r.invoke_id == invoke_id,
            r.source_addr == source_addr,
            r.source_network == source_network,
            r.source_mac == source_mac,
            r.dest_network == dest_network,
            r.dest_mac == dest_mac,
            r.service == service,
            r.segmented == segmented,
            r.created_at_ms == now_ms,
            r.timeout_ms == service_timeout_spec(service),
            r.retries == 0,
            r.max_retries == DEFAULT_MAX_RETRIES,
            r.original_npdu == original_npdu,
    {
        let timeout_ms = service_timeout(service);
        PendingTransaction {
            invoke_id,
            source_addr,
            source_network,
            source_mac,
            dest_network,
            dest_mac,
            service,
            segmented,
            created_at_ms: now_ms,
            timeout_ms,
            retries: 0,
            max_retries: DEFAULT_MAX_RETRIES,
            original_npdu,
        }
    }

    /// A new transaction created now (see `new_at`).
    pub fn new(
        invoke_id: u8,
        source_addr: IpEndpoint,
        source_network: Option<u16>,
        source_mac: Vec<u8>,
        dest_network: u16,
        dest_mac: u8,
        service: ConfirmedServiceChoice,
        segmented: bool,
        original_npdu: Vec<u8>,
    ) -> (r: PendingTransaction)
        ensures
            r.invoke_id == invoke_id,
            r.source_addr == source_addr,
            r.source_network == source_network,
            r.source_mac == source_mac,
            r.dest_network == dest_network,
            r.dest_mac == dest_mac,
            r.service == service,
            r.segmented == segmented,
            r.timeout_ms == service_timeout_spec(service),
            r.retries == 0,
            r.max_retries == DEFAULT_MAX_RETRIES,
            r.original_npdu == original_npdu,
    {
        Self::new_at(
            invoke_id,
            source_addr,
            source_network,
            source_mac,
            dest_network,
            dest_mac,
            service,
            segmented,
            original_npdu,
            clock_ms(),
        )
    }

    /// Whether the transaction has timed out at clock reading `now_ms`.
    pub fn is_timed_out_at(&self, now_ms: u64) -> (r: bool)
        ensures
            r == timed_out_at(self.created_at_ms, self.timeout_ms, now_ms),
    {
        now_ms > self.created_at_ms && now_ms - self.created_at_ms > self.timeout_ms
    }

    /// Whether the transaction has timed out now (at some clock reading).
    pub fn is_timed_out(&self) -> (r: bool)
        ensures
            exists|now: u64| r == timed_out_at(self.created_at_ms, self.timeout_ms, now),
    {
        let now = clock_ms();
        let r = self.is_timed_out_at(now);
        assert(r == timed_out_at(self.created_at_ms, self.timeout_ms, now));
        r
    }

    /// Milliseconds left until the timeout at clock reading `now_ms` (zero once
    /// it has passed).
    pub fn remaining_time_at(&self, now_ms: u64) -> (r: u64)
        ensures
            r == remaining_at(self.created_at_ms, self.timeout_ms, now_ms),
    {
        let elapsed = if now_ms > self.created_at_ms {
            now_ms - self.created_at_ms
        } else {
            0
        };
        if elapsed >= self.timeout_ms {
            0
        } else {
            self.timeout_ms - elapsed
        }
    }

    /// Milliseconds left until the timeout now (at some clock reading).
    pub fn remaining_time(&self) -> (r: u64)
        ensures
            exists|now: u64| r == remaining_at(self.created_at_ms, self.timeout_ms, now),
    {
        let now = clock_ms();
        let r = self.remaining_time_at(now);
        assert(r == remaining_at(self.created_at_ms, self.timeout_ms, now));
        r
    }

    /// Whether all retries have been used.
    pub fn retries_exhausted(&self) -> (r: bool)
        ensures
            r == (self.retries >= self.max_retries),
    {
        self.retries >= self.max_retries
    }

    /// Count one more retry at clock reading `now_ms`: restart the timer and
    /// grow the timeout by half (exponential backoff).
    pub fn retry_at(&mut self, now_ms: u64)
        ensures
            *final(self) == retried(*old(self), now_ms),
    {
        self.retries = self.retries.saturating_add(1);
        self.created_at_ms = now_ms;
        self.timeout_ms = self.timeout_ms.saturating_add(self.timeout_ms / 2);
    }

    /// Count one more retry now (see `retry_at`).
    pub fn retry(&mut self)
        ensures
            exists|now: u64| *final(self) == retried(*old(self), now),
    {
        let now = clock_ms();
        self.retry_at(now);
        assert(*self == retried(*old(self), now));
    }
}

/// Statistics of a transaction table.
#[derive(Debug, Clone, Copy, Default, PartialEq, Eq, Structural)]
pub struct TransactionStats {
    pub total_created: u64,
    pub total_completed: u64,
    pub total_timed_out: u64,
    pub total_retries: u64,
    pub active_count: usize,
}

/// Table of pending transactions, at most one per (invoke ID, destination).
pub struct TransactionTable {
    transactions: Vec<PendingTransaction>,
    max_transactions: usize,
    stats: TransactionStats,
}

/// Key of a transaction.
pub open spec fn key_of(t: PendingTransaction) -> (u8, u8) {
    (t.invoke_id, t.dest_mac)
}

/// No two transactions share a key.
pub open spec fn keys_unique(s: Seq<PendingTransaction>) -> bool {
    forall|i: int, j: int| 0 <= i < j < s.len() ==> key_of(s[i]) != key_of(s[j])
}

/// Whether some transaction has key `k`.
pub open spec fn has_key(s: Seq<PendingTransaction>, k: (u8, u8)) -> bool {
    exists|i: int| 0 <= i < s.len() && key_of(s[i]) == k
}

/// Index of the first transaction keyed `k` at or after `i`.
pub open spec fn key_index_from(s: Seq<PendingTransaction>, k: (u8, u8), i: int) -> Option<int>
    decreases s.len() - i,
{
    if i < 0 || i >= s.len() {
        None
    } else if key_of(s[i]) == k {
        Some(i)
    } else {
        key_index_from(s, k, i + 1)
    }
}

/// Index of the transaction keyed `k`.
pub open spec fn key_index(s: Seq<PendingTransaction>, k: (u8, u8)) -> Option<int> {
    key_index_from(s, k, 0)
}

/// With unique keys, the transaction keyed `k` is found at its index, and
/// none is found where no transaction has that key.
pub proof fn lemma_key_index(s: Seq<PendingTransaction>, k: (u8, u8), from: int)
    requires
        0 <= from,
    ensures
        (exists|j: int| from <= j < s.len() && key_of(s[j]) == k) ==> key_index_from(s, k, from) is Some,
        key_index_from(s, k, from) matches Some(i) ==> from <= i < s.len() && key_of(s[i]) == k,
        keys_unique(s) ==> forall|j: int|
            from <= j < s.len() && key_of(#[trigger] s[j]) == k ==> key_index_from(s, k, from) == Some(j),
        !(exists|j: int| from <= j < s.len() && key_of(s[j]) == k) ==> key_index_from(s, k, from) is None,
    decreases s.len() - from,
{
    if from < s.len() {
        lemma_key_index(s, k, from + 1);
        if key_of(s[from]) != k {
            if exists|j: int| from <= j < s.len() && key_of(s[j]) == k {
                let j = choose|j: int| from <= j < s.len() && key_of(s[j]) == k;
                assert(from + 1 <= j);
            }
        }
    }
}

/// The transactions of `s` that have timed out at `now`, in order.
pub open spec fn timed_out_of(s: Seq<PendingTransaction>, now: u64) -> Seq<PendingTransaction>
    decreases s.len(),
{
    if s.len() == 0 {
        s
    } else if timed_out_at(s.last().created_at_ms, s.last().timeout_ms, now) {
        timed_out_of(s.drop_last(), now).push(s.last())
    } else {
        timed_out_of(s.drop_last(), now)
    }
}

/// The transactions of `s` that have not timed out at `now`, in order.
pub open spec fn live_of(s: Seq<PendingTransaction>, now: u64) -> Seq<PendingTransaction>
    decreases s.len(),
{
    if s.len() == 0 {
        s
    } else if timed_out_at(s.last().created_at_ms, s.last().timeout_ms, now) {
        live_of(s.drop_last(), now)
    } else {
        live_of(s.drop_last(), now).push(s.last())
    }
}

proof fn lemma_live_subset(s: Seq<PendingTransaction>, now: u64)
    ensures
        forall|i: int|
            0 <= i < live_of(s, now).len() ==> exists|j: int|
                0 <= j < s.len() && #[trigger] live_of(s, now)[i] == s[j],
        live_of(s, now).len() <= s.len(),
    decreases s.len(),
{
    if s.len() > 0 {
        lemma_live_subset(s.drop_last(), now);
        let l = live_of(s.drop_last(), now);
        assert forall|i: int| 0 <= i < live_of(s, now).len() implies exists|j: int|
            0 <= j < s.len() && #[trigger] live_of(s, now)[i] == s[j] by {
            if i < l.len() {
                let j = choose|j: int| 0 <= j < s.drop_last().len() && l[i] == s.drop_last()[j];
                assert(s[j] == s.drop_last()[j]);
            } else {
                assert(live_of(s, now)[i] == s[s.len() - 1]);
            }
        }
    }
}

proof fn lemma_live_unique(s: Seq<PendingTransaction>, now: u64)
    requires
        keys_unique(s),
    ensures
        keys_unique(live_of(s, now)),
    decreases s.len(),
{
    if s.len() > 0 {
        let d = s.drop_last();
        assert(keys_unique(d));
        lemma_live_unique(d, now);
        lemma_live_subset(d, now);
        let l = live_of(d, now);
        if !timed_out_at(s.last().created_at_ms, s.last().timeout_ms, now) {
            assert forall|i: int, j: int| 0 <= i < j < l.push(s.last()).len() implies key_of(
                l.push(s.last())[i],
            ) != key_of(l.push(s.last())[j]) by {
                if j == l.len() {
                    let k = choose|k: int| 0 <= k < d.len() && #[trigger] l[i] == d[k];
                    assert(d[k] == s[k]);
                }
            }
        }
    }
}

/// The keys of a well-formed table are unique.
pub proof fn lemma_table_keys_unique(t: &TransactionTable)
    requires
        t.wf(),
    ensures
        keys_unique(t.entries()),
{
}

/// `result` is `entries` with `t`, retried at `now`, stored under its key:
/// in place of the one with that key, or at the end.
pub open spec fn retried_into(
    entries: Seq<PendingTransaction>,
    t: PendingTransaction,
    now: u64,
    result: Seq<PendingTransaction>,
) -> bool {
    &&& has_key(entries, key_of(t)) ==> exists|i: int|
        0 <= i < entries.len() && key_of(entries[i]) == key_of(t) && result == entries.update(
            i,
            retried(t, now),
        )
    &&& !has_key(entries, key_of(t)) ==> result == entries.push(retried(t, now))
}

impl TransactionTable {
    /// The transactions held, in insertion order.
    pub closed spec fn entries(&self) -> Seq<PendingTransaction> {
        self.transactions@
    }

    /// Capacity of the table.
    pub closed spec fn capacity(&self) -> usize {
        self.max_transactions
    }

    /// Current statistics.
    pub closed spec fn stats_view(&self) -> TransactionStats {
        self.stats
    }

    /// Well-formedness: keys are unique and the active count is the size.
    pub closed spec fn wf(&self) -> bool {
        &&& keys_unique(self.transactions@)
        &&& self.stats.active_count == self.transactions@.len()
    }

    /// A table with the default capacity (256).
    pub fn new() -> (r: TransactionTable)
        ensures
            r.wf(),
            r.entries() == Seq::<PendingTransaction>::empty(),
            r.capacity() == MAX_CONCURRENT_TRANSACTIONS,
            r.stats_view() == TransactionStats::default_spec(),
    {
        Self::with_capacity(MAX_CONCURRENT_TRANSACTIONS)
    }

    /// A table holding at most `max_transactions` transactions.
    pub fn with_capacity(max_transactions: usize) -> (r: TransactionTable)
        ensures
            r.wf(),
            r.entries() == Seq::<PendingTransaction>::empty(),
            r.capacity() == max_transactions,
            r.stats_view() == TransactionStats::default_spec(),
    {
        let r = TransactionTable {
            transactions: Vec::new(),
            max_transactions,
            stats: TransactionStats {
                total_created: 0,
                total_completed: 0,
                total_timed_out: 0,
                total_retries: 0,
                active_count: 0,
            },
        };
        assert(r.transactions@ =~= Seq::<PendingTransaction>::empty());
        r
    }

    fn find(&self, invoke_id: u8, dest_mac: u8) -> (r: Option<usize>)
        ensures
            match r {
                Some(i) => i < self.transactions@.len() && key_of(self.transactions@[i as int])
                    == (invoke_id, dest_mac),
                None => !has_key(self.transactions@, (invoke_id, dest_mac)),
            },
    {
        let mut i: usize = 0;
        while i < self.transactions.len()
            invariant
                i <= self.transactions@.len(),
                forall|j: int|
                    0 <= j < i ==> key_of(#[trigger] self.transactions@[j]) != (
                        invoke_id,
                        dest_mac,
                    ),
            decreases self.transactions@.len() - i,
        {
            if self.transactions[i].invoke_id == invoke_id && self.transactions[i].dest_mac
                == dest_mac {
                return Some(i);
            }
            i = i + 1;
        }
        None
    }

    /// Add a transaction: fails with `TableFull` when the table holds its
    /// capacity, with `DuplicateInvokeId` when its key is present; otherwise
    /// appends it and counts it as created.
    pub fn add(&mut self, transaction: PendingTransaction) -> (r: Result<(), TransactionError>)
        requires
            old(self).wf(),
        ensures
            final(self).wf(),
            final(self).capacity() == old(self).capacity(),
            old(self).entries().len() >= old(self).capacity() ==> r == Err::<(), TransactionError>(
                TransactionError::TableFull,
            ) && final(self).entries() == old(self).entries() && final(self).stats_view()
                == old(self).stats_view(),
            old(self).entries().len() < old(self).capacity() && has_key(
                old(self).entries(),
                key_of(transaction),
            ) ==> r == Err::<(), TransactionError>(TransactionError::DuplicateInvokeId)
                && final(self).entries() == old(self).entries() && final(self).stats_view()
                == old(self).stats_view(),
            old(self).entries().len() < old(self).capacity() && !has_key(
                old(self).entries(),
                key_of(transaction),
            ) ==> r == Ok::<(), TransactionError>(()) && final(self).entries() == old(self).entries().push(transaction) && final(self).stats_view() == (TransactionStats {
                total_created: old(self).stats_view().total_created.saturating_add(1),
                active_count: (old(self).entries().len() + 1) as usize,
                ..old(self).stats_view()
            }),
    {
        if self.transactions.len() >= self.max_transactions {
            return Err(TransactionError::TableFull);
        }
        if self.find(transaction.invoke_id, transaction.dest_mac).is_some() {
            return Err(TransactionError::DuplicateInvokeId);
        }
        let ghost old_entries = self.transactions@;
        self.transactions.push(transaction);
        self.stats.total_created = self.stats.total_created.saturating_add(1);
        self.stats.active_count = self.transactions.len();
        assert forall|i: int, j: int| 0 <= i < j < self.transactions@.len() implies key_of(
            self.transactions@[i],
        ) != key_of(self.transactions@[j]) by {
            if j == old_entries.len() {
                assert(self.transactions@[i] == old_entries[i]);
            }
        }
        Ok(())
    }

    /// The transaction with key (`invoke_id`, `dest_mac`), if any.
    pub fn get(&self, invoke_id: u8, dest_mac: u8) -> (r: Option<&PendingTransaction>)
        requires
            self.wf(),
        ensures
            match r {
                Some(t) => key_of(*t) == (invoke_id, dest_mac) && self.entries().contains(*t),
                None => !has_key(self.entries(), (invoke_id, dest_mac)),
            },
    {
        match self.find(invoke_id, dest_mac) {
            Some(i) => Some(&self.transactions[i]),
            None => None,
        }
    }

    /// Mutable access to the transaction with key (`invoke_id`, `dest_mac`), if
    /// any; what is written through it stays in the table.
    pub fn get_mut(&mut self, invoke_id: u8, dest_mac: u8) -> (r: Option<&mut PendingTransaction>)
        requires
            old(self).wf(),
        ensures
            match r {
                Some(t) => exists|i: int|
                    0 <= i < old(self).entries().len() && old(self).entries()[i] == *t && key_of(*t)
                        == (invoke_id, dest_mac) && final(self).entries() == old(self).entries().update(
                        i,
                        *final(t),
                    ),
                None => !has_key(old(self).entries(), (invoke_id, dest_mac)) && final(self).entries()
                    == old(self).entries(),
            },
            final(self).stats_view() == old(self).stats_view(),
            final(self).capacity() == old(self).capacity(),
    {
        match self.find(invoke_id, dest_mac) {
            Some(i) => {
                assert(old(self).entries()[i as int] == self.transactions@[i as int]);
                Some(&mut self.transactions[i])
            },
            None => None,
        }
    }

    /// Remove and return the transaction with key (`invoke_id`, `dest_mac`),
    /// counting it as completed.
    pub fn remove(&mut self, invoke_id: u8, dest_mac: u8) -> (r: Option<PendingTransaction>)
        requires
            old(self).wf(),
        ensures
            final(self).wf(),
            final(self).capacity() == old(self).capacity(),
            match r {
                Some(t) => exists|i: int|
                    0 <= i < old(self).entries().len() && old(self).entries()[i] == t && key_of(t)
                        == (invoke_id, dest_mac) && final(self).entries() == old(self).entries().remove(i),
                None => !has_key(old(self).entries(), (invoke_id, dest_mac)) && final(self).entries() == old(self).entries(),
            },
            r is Some ==> final(self).stats_view() == (TransactionStats {
                total_completed: old(self).stats_view().total_completed.saturating_add(1),
                active_count: (old(self).entries().len() - 1) as usize,
                ..old(self).stats_view()
            }),
            r is None ==> final(self).stats_view() == old(self).stats_view(),
    {
        match self.find(invoke_id, dest_mac) {
            Some(i) => {
                let ghost old_entries = self.transactions@;
                let t = self.transactions.remove(i);
                self.stats.total_completed = self.stats.total_completed.saturating_add(1);
                self.stats.active_count = self.transactions.len();
                assert(self.transactions@ =~= old_entries.remove(i as int));
                assert forall|a: int, b: int| 0 <= a < b < self.transactions@.len() implies key_of(
                    self.transactions@[a],
                ) != key_of(self.transactions@[b]) by {
                    let a2 = if a < i {
                        a
                    } else {
                        a + 1
                    };
                    let b2 = if b < i {
                        b
                    } else {
                        b + 1
                    };
                    assert(self.transactions@[a] == old_entries[a2]);
                    assert(self.transactions@[b] == old_entries[b2]);
                }
                assert(old(self).entries()[i as int] == t);
                assert(self.entries() == old(self).entries().remove(i as int));
                Some(t)
            },
            None => None,
        }
    }

    /// Remove and return the transactions that have timed out at clock reading
    /// `now_ms`, in insertion order, counting them as timed out.
    pub fn check_timeouts_at(&mut self, now_ms: u64) -> (r: Vec<PendingTransaction>)
        requires
            old(self).wf(),
        ensures
            final(self).wf(),
            final(self).capacity() == old(self).capacity(),
            r@ == timed_out_of(old(self).entries(), now_ms),
            final(self).entries() == live_of(old(self).entries(), now_ms),
            final(self).stats_view() == (TransactionStats {
                total_timed_out: old(self).stats_view().total_timed_out.saturating_add(r@.len() as u64),
                active_count: final(self).entries().len() as usize,
                ..old(self).stats_view()
            }),
    {
        let ghost all = self.transactions@;
        let mut rest: Vec<PendingTransaction> = Vec::new();
        std::mem::swap(&mut rest, &mut self.transactions);
        let mut timed_out: Vec<PendingTransaction> = Vec::new();
        let mut kept: Vec<PendingTransaction> = Vec::new();
        let ghost mut k: int = 0;
        while rest.len() > 0
            invariant
                0 <= k <= all.len(),
                rest@ == all.skip(k),
                timed_out@ == timed_out_of(all.take(k), now_ms),
                kept@ == live_of(all.take(k), now_ms),
            decreases rest@.len(),
        {
            let t = rest.remove(0);
            proof {
                assert(all.take(k + 1).drop_last() =~= all.take(k));
                assert(all.take(k + 1).last() == all[k]);
                assert(t == all[k]);
            }
            if t.is_timed_out_at(now_ms) {
                timed_out.push(t);
            } else {
                kept.push(t);
            }
            proof {
                k = k + 1;
                assert(rest@ =~= all.skip(k));
            }
        }
        assert(all.take(k) =~= all);
        proof {
            lemma_live_unique(all, now_ms);
            lemma_timed_out_len(all, now_ms);
        }
        self.transactions = kept;
        if timed_out.len() > 0 {
            self.stats.total_timed_out = self.stats.total_timed_out.saturating_add(timed_out.len() as u64);
            self.stats.active_count = self.transactions.len();
        }
        timed_out
    }

    /// Remove and return the transactions that have timed out now.
    pub fn check_timeouts(&mut self) -> (r: Vec<PendingTransaction>)
        requires
            old(self).wf(),
        ensures
            final(self).wf(),
            final(self).capacity() == old(self).capacity(),
            exists|now: u64|
                r@ == timed_out_of(old(self).entries(), now) && final(self).entries() == live_of(
                    old(self).entries(),
                    now,
                ),
            final(self).stats_view() == (TransactionStats {
                total_timed_out: old(self).stats_view().total_timed_out.saturating_add(r@.len() as u64),
                active_count: final(self).entries().len() as usize,
                ..old(self).stats_view()
            }),
    {
        let now = clock_ms();
        let r = self.check_timeouts_at(now);
        assert(r@ == timed_out_of(old(self).entries(), now) && self.entries() == live_of(old(self).entries(), now));
        r
    }

    /// Put a transaction back after a retry at clock reading `now_ms`: count the
    /// retry on it and in the statistics, and store it under its key (replacing
    /// one with the same key).
    pub fn retry_at(&mut self, mut transaction: PendingTransaction, now_ms: u64) -> (r: Result<(), TransactionError>)
        requires
            old(self).wf(),
        ensures
            final(self).wf(),
            final(self).capacity() == old(self).capacity(),
            r is Ok,
            final(self).stats_view().total_retries == old(self).stats_view().total_retries.saturating_add(1),
            final(self).stats_view().total_created == old(self).stats_view().total_created,
            final(self).stats_view().total_completed == old(self).stats_view().total_completed,
            final(self).stats_view().total_timed_out == old(self).stats_view().total_timed_out,
            final(self).stats_view().active_count == final(self).entries().len(),
            retried_into(old(self).entries(), transaction, now_ms, final(self).entries()),
    {
        transaction.retry_at(now_ms);
        self.stats.total_retries = self.stats.total_retries.saturating_add(1);
        let ghost t = transaction;
        let ghost old_entries = self.transactions@;
        match self.find(transaction.invoke_id, transaction.dest_mac) {
            Some(i) => {
                self.transactions.set(i, transaction);
                assert(self.transactions@ =~= old_entries.update(i as int, t));
                assert(key_of(old(self).entries()[i as int]) == key_of(t));
                assert forall|a: int, b: int| 0 <= a < b < self.transactions@.len() implies key_of(
                    self.transactions@[a],
                ) != key_of(self.transactions@[b]) by {
                    assert(key_of(self.transactions@[a]) == key_of(old_entries[a]));
                    assert(key_of(self.transactions@[b]) == key_of(old_entries[b]));
                }
            },
            None => {
                self.transactions.push(transaction);
                assert(self.transactions@ =~= old_entries.push(t));
                assert forall|a: int, b: int| 0 <= a < b < self.transactions@.len() implies key_of(
                    self.transactions@[a],
                ) != key_of(self.transactions@[b]) by {
                    if b == old_entries.len() {
                        assert(self.transactions@[a] == old_entries[a]);
                    }
                }
            },
        }
        self.stats.active_count = self.transactions.len();
        Ok(())
    }

    /// Put a transaction back after a retry now (see `retry_at`).
    pub fn retry(&mut self, transaction: PendingTransaction) -> (r: Result<(), TransactionError>)
        requires
            old(self).wf(),
        ensures
            final(self).wf(),
            final(self).capacity() == old(self).capacity(),
            r is Ok,
            exists|now: u64| retried_into(old(self).entries(), transaction, now, final(self).entries()),
            final(self).stats_view().total_retries == old(self).stats_view().total_retries.saturating_add(1),
    {
        let ghost t = transaction;
        let now = clock_ms();
        let r = self.retry_at(transaction, now);
        assert(retried_into(old(self).entries(), t, now, self.entries()));
        r
    }

    /// Current statistics.
    pub fn stats(&self) -> (r: &TransactionStats)
        ensures
            *r == self.stats_view(),
    {
        &self.stats
    }

    /// Number of pending transactions.
    pub fn len(&self) -> (r: usize)
        ensures
            r == self.entries().len(),
    {
        self.transactions.len()
    }

    /// Whether no transaction is pending.
    pub fn is_empty(&self) -> (r: bool)
        ensures
            r == (self.entries().len() == 0),
    {
        self.transactions.len() == 0
    }

    /// Drop all pending transactions (counters other than the active count stay).
    pub fn clear(&mut self)
        requires
            old(self).wf(),
        ensures
            final(self).wf(),
            final(self).capacity() == old(self).capacity(),
            final(self).entries() == Seq::<PendingTransaction>::empty(),
            final(self).stats_view() == (TransactionStats { active_count: 0, ..old(self).stats_view() }),
    {
        self.transactions.clear();
        self.stats.active_count = 0;
    }
}

proof fn lemma_timed_out_len(s: Seq<PendingTransaction>, now: u64)
    ensures
        timed_out_of(s, now).len() + live_of(s, now).len() == s.len(),
    decreases s.len(),
{
    if s.len() > 0 {
        lemma_timed_out_len(s.drop_last(), now);
    }
}

/// A timeout check splits the transactions: every one handed out has timed
/// out, every one kept has not, and none is lost.
pub proof fn lemma_timeouts_partition(s: Seq<PendingTransaction>, now: u64)
    ensures
        timed_out_of(s, now).len() + live_of(s, now).len() == s.len(),
        forall|i: int| 0 <= i < timed_out_of(s, now).len() ==> timed_out_at(
            #[trigger] timed_out_of(s, now)[i].created_at_ms,
            timed_out_of(s, now)[i].timeout_ms,
            now,
        ),
        forall|i: int| 0 <= i < live_of(s, now).len() ==> !timed_out_at(
            #[trigger] live_of(s, now)[i].created_at_ms,
            live_of(s, now)[i].timeout_ms,
            now,
        ),
    decreases s.len(),
{
    lemma_timed_out_len(s, now);
    if s.len() > 0 {
        lemma_timeouts_partition(s.drop_last(), now);
        let d = s.drop_last();
        assert forall|i: int| 0 <= i < timed_out_of(s, now).len() implies timed_out_at(
            #[trigger] timed_out_of(s, now)[i].created_at_ms,
            timed_out_of(s, now)[i].timeout_ms,
            now,
        ) by {
            if i < timed_out_of(d, now).len() {
                assert(timed_out_of(s, now)[i] == timed_out_of(d, now)[i]);
            }
        }
        assert forall|i: int| 0 <= i < live_of(s, now).len() implies !timed_out_at(
            #[trigger] live_of(s, now)[i].created_at_ms,
            live_of(s, now)[i].timeout_ms,
            now,
        ) by {
            if i < live_of(d, now).len() {
                assert(live_of(s, now)[i] == live_of(d, now)[i]);
            }
        }
    }
}

/// A transaction added under a key no other holds is the only one found
/// under that key afterwards, and keys stay unique.
pub proof fn lemma_added_is_found(s: Seq<PendingTransaction>, t: PendingTransaction)
    requires
        keys_unique(s),
        !has_key(s, key_of(t)),
    ensures
        keys_unique(s.push(t)),
        has_key(s.push(t), key_of(t)),
        forall|x: PendingTransaction| #[trigger] s.push(t).contains(x) && key_of(x) == key_of(t) ==> x == t,
{
    let u = s.push(t);
    assert(u[s.len() as int] == t);
    assert forall|i: int, j: int| 0 <= i < j < u.len() implies key_of(u[i]) != key_of(u[j]) by {
        if j == s.len() {
            assert(u[i] == s[i]);
        } else {
            assert(u[i] == s[i] && u[j] == s[j]);
        }
    }
    assert forall|x: PendingTransaction| #[trigger] u.contains(x) && key_of(x) == key_of(t) implies x == t by {
        let k = choose|k: int| 0 <= k < u.len() && u[k] == x;
        if k < s.len() {
            assert(u[k] == s[k]);
        }
    }
}

/// Once the transaction at `i` is removed, none is found under its key.
pub proof fn lemma_removed_is_gone(s: Seq<PendingTransaction>, i: int)
    requires
        keys_unique(s),
        0 <= i < s.len(),
    ensures
        !has_key(s.remove(i), key_of(s[i])),
        keys_unique(s.remove(i)),
{
    let r = s.remove(i);
    assert forall|j: int| 0 <= j < r.len() implies key_of(#[trigger] r[j]) != key_of(s[i]) by {
        if j < i {
            assert(r[j] == s[j]);
        } else {
            assert(r[j] == s[j + 1]);
        }
    }
    assert forall|a: int, b: int| 0 <= a < b < r.len() implies key_of(r[a]) != key_of(r[b]) by {
        let a2 = if a < i { a } else { a + 1 };
        let b2 = if b < i { b } else { b + 1 };
        assert(r[a] == s[a2] && r[b] == s[b2]);
    }
}

/// A retry counts one more attempt, restarts the timer and lengthens the
/// timeout, for timeouts of at least 2 ms short of the largest value.
pub proof fn lemma_retry_backs_off(t: PendingTransaction, now: u64)
    requires
        2 <= t.timeout_ms < u64::MAX,
        t.retries < u8::MAX,
    ensures
        retried(t, now).timeout_ms > t.timeout_ms,
        retried(t, now).retries == t.retries + 1,
        retried(t, now).created_at_ms == now,
{
}

impl TransactionStats {
    /// All counters zero.
    pub open spec fn default_spec() -> TransactionStats {
        TransactionStats {
            total_created: 0,
            total_completed: 0,
            total_timed_out: 0,
            total_retries: 0,
            active_count: 0,
        }
    }
}

} // verus!
