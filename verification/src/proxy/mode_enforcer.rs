//! What a pooling mode forbids.
//!
//! Session pooling gives each client a connection of its own, and hybrid
//! pooling keeps a connection with the client while the session holds state:
//! both allow everything. Transaction pooling hands the connection on after
//! every transaction, so it refuses commands whose effect outlives one.
use crate::protocol::command;
use crate::protocol::command::{CommandDetector, DetectedCommand};
use crate::protocol::wire;
use vstd::prelude::*;

verus! {

/// Pooling mode that is enforced.
#[derive(Debug, Clone, Copy, PartialEq, Eq, Structural)]
pub enum PoolingMode {
    /// A connection for the whole session of a client.
    Session,
    /// A connection for each transaction.
    Transaction,
    /// A connection for each transaction, kept while the session holds state.
    Hybrid,
}

/// Why `mode` refuses a command, if it does.
pub open spec fn refusal(
    mode: PoolingMode,
    detected: Option<command::Command>,
    in_transaction: bool,
) -> Option<Seq<char>> {
    if mode != PoolingMode::Transaction {
        None
    } else {
        match detected {
            Some(command::Command::SetVariable { name, value }) => if in_transaction {
                None
            } else {
                Some("session variables not supported in transaction pooling mode"@)
            },
            Some(command::Command::CreateTempTable { name }) => Some(
                "temporary tables not supported in transaction pooling mode"@,
            ),
            Some(command::Command::DeclareCursor { name, with_hold }) => if with_hold {
                Some("cursors WITH HOLD not supported in transaction pooling mode"@)
            } else {
                None
            },
            Some(command::Command::AdvisoryLock { key }) => Some(
                "advisory locks not supported in transaction pooling mode"@,
            ),
            _ => None,
        }
    }
}

/// Enforces a pooling mode on SQL commands.
pub struct ModeEnforcer {
    mode: PoolingMode,
}

impl ModeEnforcer {
    /// The mode that is enforced.
    pub closed spec fn view(&self) -> PoolingMode {
        self.mode
    }

    /// An enforcer of `mode`.
    pub fn new(mode: PoolingMode) -> (r: Self)
        ensures
            r@ == mode,
    {
        ModeEnforcer { mode }
    }

    /// Whether `sql` is allowed; if not, why.
    pub fn validate(&self, sql: &str, in_transaction: bool) -> (r: Result<(), String>)
        ensures
            r is Ok <==> refusal(self@, command::detect(sql@), in_transaction) is None,
            r matches Err(m) ==> refusal(self@, command::detect(sql@), in_transaction) == Some(m@),
    {
        if self.mode != PoolingMode::Transaction {
            return Ok(());
        }
        self.validate_detected(&CommandDetector::detect(sql), in_transaction)
    }

    /// Whether a command that has been read is allowed; if not, why.
    pub fn validate_detected(
        &self,
        detected: &Option<DetectedCommand>,
        in_transaction: bool,
    ) -> (r: Result<(), String>)
        ensures
            r is Ok <==> refusal(self@, command::view_of(*detected), in_transaction) is None,
            r matches Err(m) ==> refusal(self@, command::view_of(*detected), in_transaction)
                == Some(m@),
    {
        if self.mode != PoolingMode::Transaction {
            return Ok(());
        }
        match detected {
            Some(DetectedCommand::SetVariable { .. }) => {
                if in_transaction {
                    Ok(())
                } else {
                    Err("session variables not supported in transaction pooling mode".to_owned())
                }
            },
            Some(DetectedCommand::CreateTempTable { .. }) => Err(
                "temporary tables not supported in transaction pooling mode".to_owned(),
            ),
            Some(DetectedCommand::DeclareCursor { with_hold, .. }) => {
                if *with_hold {
                    Err("cursors WITH HOLD not supported in transaction pooling mode".to_owned())
                } else {
                    Ok(())
                }
            },
            Some(DetectedCommand::AdvisoryLock { .. }) => Err(
                "advisory locks not supported in transaction pooling mode".to_owned(),
            ),
            _ => Ok(()),
        }
    }

    /// The ErrorResponse that refuses a command: SQLSTATE 0A000, feature not supported.
    pub fn build_error_response(message: &str) -> (r: Vec<u8>)
        ensures
            r@ == wire::error_response("ERROR"@, "0A000"@, message@, None),
    {
        wire::build_error("ERROR", "0A000", message, None)
    }
}

/// Session and hybrid pooling allow everything.
pub proof fn law_only_transaction_mode_refuses(
    mode: PoolingMode,
    detected: Option<command::Command>,
    in_transaction: bool,
)
    ensures
        refusal(mode, detected, in_transaction) is Some ==> mode == PoolingMode::Transaction,
{
}

/// What is refused inside a transaction is refused outside one.
pub proof fn law_transaction_allows_more(mode: PoolingMode, detected: Option<command::Command>)
    ensures
        refusal(mode, detected, true) is Some ==> refusal(mode, detected, false) is Some,
{
}

/// Letter case does not matter to what is refused.
pub proof fn law_case_does_not_matter(
    mode: PoolingMode,
    a: Seq<char>,
    b: Seq<char>,
    in_transaction: bool,
)
    requires
        crate::text::lower_all(a) == crate::text::lower_all(b),
    ensures
        refusal(mode, command::detect(a), in_transaction) == refusal(
            mode,
            command::detect(b),
            in_transaction,
        ),
{
    command::lemma_words_ignore_case(a, b);
}

/// Transaction pooling refuses temporary tables, cursors that outlive the
/// transaction and advisory locks always, and variables outside a transaction;
/// everything else it allows, as the other modes allow everything.
pub proof fn law_what_transaction_mode_refuses(
    mode: PoolingMode,
    name: Seq<char>,
    value: Seq<char>,
    key: Option<i64>,
    with_hold: bool,
    other: Option<command::Command>,
    in_transaction: bool,
)
    ensures
        refusal(
            mode,
            Some(command::Command::SetVariable { name, value }),
            in_transaction,
        ) is Some <==> mode == PoolingMode::Transaction && !in_transaction,
        refusal(mode, Some(command::Command::CreateTempTable { name }), in_transaction) is Some
            <==> mode == PoolingMode::Transaction,
        refusal(
            mode,
            Some(command::Command::DeclareCursor { name, with_hold }),
            in_transaction,
        ) is Some <==> mode == PoolingMode::Transaction && with_hold,
        refusal(mode, Some(command::Command::AdvisoryLock { key }), in_transaction) is Some
            <==> mode == PoolingMode::Transaction,
        match other {
            Some(c) => !(c is SetVariable || c is CreateTempTable || c is DeclareCursor
                || c is AdvisoryLock) ==> refusal(mode, other, in_transaction) is None,
            None => refusal(mode, other, in_transaction) is None,
        },
{
}

/// Each kind of command is refused for a reason of its own, which does not
/// depend on what the command names.
pub proof fn law_refusals_say_why(
    a: Seq<char>,
    b: Seq<char>,
    key: Option<i64>,
    in_transaction: bool,
)
    ensures
        refusal(
            PoolingMode::Transaction,
            Some(command::Command::SetVariable { name: a, value: b }),
            false,
        ) == Some("session variables not supported in transaction pooling mode"@),
        refusal(
            PoolingMode::Transaction,
            Some(command::Command::CreateTempTable { name: a }),
            in_transaction,
        ) == Some("temporary tables not supported in transaction pooling mode"@),
        refusal(
            PoolingMode::Transaction,
            Some(command::Command::DeclareCursor { name: a, with_hold: true }),
            in_transaction,
        ) == Some("cursors WITH HOLD not supported in transaction pooling mode"@),
        refusal(
            PoolingMode::Transaction,
            Some(command::Command::AdvisoryLock { key }),
            in_transaction,
        ) == Some("advisory locks not supported in transaction pooling mode"@),
{
}

/// What an enforcer refuses depends on its mode, on what the command is and on
/// whether it comes inside a transaction, and on nothing else: commands that are
/// the same command are refused alike, with the same words.
pub proof fn law_same_command_is_refused_alike(
    e: ModeEnforcer,
    a: &str,
    b: &str,
    in_transaction: bool,
    x: Result<(), String>,
    y: Result<(), String>,
)
    requires
        command::detect(a@) == command::detect(b@),
        call_ensures(ModeEnforcer::validate, (&e, a, in_transaction), x),
        call_ensures(ModeEnforcer::validate, (&e, b, in_transaction), y),
    ensures
        x is Ok <==> y is Ok,
        x matches Err(m) ==> (y matches Err(n) && m@ == n@),
        x is Err ==> e@ == PoolingMode::Transaction,
        command::detect(a@) is None ==> x is Ok,
{
}

} // verus!
