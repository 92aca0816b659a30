//! Where a session stands with respect to transactions.
use vstd::prelude::*;

verus! {

/// Transaction state as a ReadyForQuery message reports it.
#[derive(Debug, Clone, Copy, PartialEq, Eq, Structural)]
pub enum TransactionState {
    /// `I`: not in a transaction.
    Idle,
    /// `T`: in a transaction block.
    InTransaction,
    /// `E`: in a failed transaction block.
    InError,
}

/// `I`
pub const STATUS_IDLE: u8 = 0x49;

/// `T`
pub const STATUS_IN_TRANSACTION: u8 = 0x54;

/// `E`
pub const STATUS_IN_ERROR: u8 = 0x45;

/// The status byte that reports a state.
pub open spec fn status_of(state: TransactionState) -> u8 {
    match state {
        TransactionState::Idle => STATUS_IDLE,
        TransactionState::InTransaction => STATUS_IN_TRANSACTION,
        TransactionState::InError => STATUS_IN_ERROR,
    }
}

/// The state after a status byte: the one that it reports, or `current` where it reports none.
pub open spec fn next_state(current: TransactionState, status: u8) -> TransactionState {
    if status == status_of(TransactionState::Idle) {
        TransactionState::Idle
    } else if status == status_of(TransactionState::InTransaction) {
        TransactionState::InTransaction
    } else if status == status_of(TransactionState::InError) {
        TransactionState::InError
    } else {
        current
    }
}

/// Tracks the transaction state of a session.
#[derive(Debug)]
pub struct TransactionTracker {
    state: TransactionState,
}

impl TransactionTracker {
    /// The state that was last reported.
    pub closed spec fn view(&self) -> TransactionState {
        self.state
    }

    /// A session that is idle.
    pub fn new() -> (r: Self)
        ensures
            r@ == TransactionState::Idle,
    {
        TransactionTracker { state: TransactionState::Idle }
    }

    /// Take in the status byte of a ReadyForQuery message.
    pub fn update_from_ready_for_query(&mut self, status: u8)
        ensures
            final(self)@ == next_state(old(self)@, status),
    {
        if status == STATUS_IDLE {
            self.state = TransactionState::Idle;
        } else if status == STATUS_IN_TRANSACTION {
            self.state = TransactionState::InTransaction;
        } else if status == STATUS_IN_ERROR {
            self.state = TransactionState::InError;
        }
    }

    /// The state that was last reported.
    pub fn state(&self) -> (r: TransactionState)
        ensures
            r == self@,
    {
        self.state
    }

    /// Whether the session is in a transaction, failed or not.
    pub fn is_in_transaction(&self) -> (r: bool)
        ensures
            r == (self@ != TransactionState::Idle),
    {
        match self.state {
            TransactionState::Idle => false,
            TransactionState::InTransaction | TransactionState::InError => true,
        }
    }

    /// Whether the session is outside transactions.
    pub fn is_idle(&self) -> (r: bool)
        ensures
            r == (self@ == TransactionState::Idle),
    {
        self.state == TransactionState::Idle
    }
}

impl Default for TransactionTracker {
    fn default() -> (r: Self)
        ensures
            r@ == TransactionState::Idle,
    {
        TransactionTracker::new()
    }
}

/// The status byte of a state leads any session to that state.
pub proof fn law_status_reports_state(current: TransactionState, state: TransactionState)
    ensures
        next_state(current, status_of(state)) == state,
{
}

/// The bytes `I`, `T` and `E` report that a session is idle, in a transaction
/// and in a failed one; any other byte changes nothing.
pub proof fn law_what_bytes_report(current: TransactionState, status: u8)
    ensures
        status == 0x49 ==> next_state(current, status) == TransactionState::Idle,
        status == 0x54 ==> next_state(current, status) == TransactionState::InTransaction,
        status == 0x45 ==> next_state(current, status) == TransactionState::InError,
        status != 0x49 && status != 0x54 && status != 0x45 ==> next_state(current, status)
            == current,
{
}

/// A session is in a transaction exactly where it is not idle, and a failed
/// transaction is one.
pub proof fn law_failed_transaction_is_one(
    t: &mut TransactionTracker,
    status: u8,
    after: TransactionTracker,
    inside: bool,
    idle: bool,
)
    requires
        call_ensures(TransactionTracker::update_from_ready_for_query, (t, status), ()),
        after@ == final(t)@,
        call_ensures(TransactionTracker::is_in_transaction, (&after,), inside),
        call_ensures(TransactionTracker::is_idle, (&after,), idle),
    ensures
        inside == !idle,
        status == 0x49 ==> idle,
        status == 0x54 || status == 0x45 ==> inside,
        status != 0x49 && status != 0x54 && status != 0x45 ==> final(t)@ == old(t)@,
{
}

} // verus!
