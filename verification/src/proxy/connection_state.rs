//! What a client has left behind in its backend session, and what follows
//! from it: whether the client must keep its connection, and what can be set
//! up again on another one.
use crate::names::{NameMap, NameSet};
use crate::protocol::command;
use crate::protocol::command::{CommandClass, CommandDetector, DetectedCommand};
use std::collections::HashSet;
use vstd::prelude::*;

verus! {

broadcast use vstd::std_specs::hash::group_hash_axioms;

/// Why a client must keep its connection.
#[derive(Debug, Clone, Copy, PartialEq, Eq, Hash, Structural)]
pub enum PinReason {
    PreparedStatement,
    SessionVariable,
    TempTable,
    Cursor,
    AdvisoryLock,
    /// A `LISTEN` registration is active. It cannot be moved: notifications
    /// sent in between would be lost.
    Listen,
    /// A command was seen that is not known to leave the session clean.
    UnknownCommand,
}

impl PinReason {
    /// Whether what is held cannot be set up again elsewhere.
    pub open spec fn cannot_be_replayed(self) -> bool {
        self != PinReason::PreparedStatement && self != PinReason::SessionVariable
    }

    /// Whether what is held cannot be set up again elsewhere.
    pub fn is_unsafe(&self) -> (r: bool)
        ensures
            r == self.cannot_be_replayed(),
    {
        match self {
            PinReason::PreparedStatement | PinReason::SessionVariable => false,
            PinReason::TempTable
            | PinReason::Cursor
            | PinReason::AdvisoryLock
            | PinReason::Listen
            | PinReason::UnknownCommand => true,
        }
    }
}

/// A set of reasons.
#[derive(Debug)]
pub struct PinReasons {
    reasons: Vec<PinReason>,
}

impl PinReasons {
    /// The reasons in the set.
    pub closed spec fn view(&self) -> Set<PinReason> {
        self.reasons@.to_set()
    }

    fn new() -> (r: Self)
        ensures
            r@ == Set::<PinReason>::empty(),
    {
        let r = PinReasons { reasons: Vec::new() };
        assert(r@ =~= Set::<PinReason>::empty());
        r
    }

    fn insert(&mut self, reason: PinReason)
        ensures
            final(self)@ == old(self)@.insert(reason),
    {
        let ghost before = self.reasons@;
        self.reasons.push(reason);
        proof {
            assert forall|x: PinReason| self@.contains(x) <==> old(self)@.insert(reason).contains(
                x,
            ) by {
                if before.contains(x) {
                    let i = before.index_of(x);
                    assert(self.reasons@[i] == x);
                }
                assert(self.reasons@[before.len() as int] == reason);
            }
            assert(self@ =~= old(self)@.insert(reason));
        }
    }

    /// Whether `reason` is in the set.
    pub fn contains(&self, reason: &PinReason) -> (r: bool)
        ensures
            r == self@.contains(*reason),
    {
        let mut i: usize = 0;
        while i < self.reasons.len()
            invariant
                i <= self.reasons@.len(),
                forall|j: int| 0 <= j < i ==> self.reasons@[j] != *reason,
            decreases self.reasons.len() - i,
        {
            if self.reasons[i] == *reason {
                assert(self.reasons@.contains(*reason));
                return true;
            }
            i += 1;
        }
        false
    }

    /// Whether there is no reason.
    pub fn is_empty(&self) -> (r: bool)
        ensures
            r == (self@ == Set::<PinReason>::empty()),
    {
        proof {
            if self.reasons@.len() == 0 {
                assert(self@ =~= Set::<PinReason>::empty());
            } else {
                assert(self@.contains(self.reasons@[0]));
            }
        }
        self.reasons.len() == 0
    }
}

/// A prepared statement as it is set up again.
#[derive(Debug, Clone)]
pub struct PreparedStatementInfo {
    pub name: String,
    pub query: String,
    pub param_oids: Vec<u32>,
}

/// What can be set up again on another connection.
#[derive(Debug, Clone)]
pub struct ReplayableState {
    pub prepared_statements: Vec<PreparedStatementInfo>,
    pub session_variables: NameMap<String>,
}

impl ReplayableState {
    /// Each variable is held once.
    pub open spec fn wf(&self) -> bool {
        self.session_variables.wf()
    }

    /// The variables and their values.
    pub open spec fn variables(&self) -> Map<Seq<char>, Seq<char>> {
        self.session_variables@.map_values(|v: String| v@)
    }

    /// Whether the statements are those of `prepared`, each once.
    pub open spec fn holds(&self, prepared: Map<Seq<char>, (Seq<char>, Seq<u32>)>) -> bool {
        let ps = self.prepared_statements@;
        &&& prepared.dom().finite()
        &&& ps.len() == prepared.dom().len()
        &&& forall|name: Seq<char>| #[trigger]
            prepared.dom().contains(name) ==> exists|i: int|
                0 <= i < ps.len() && (#[trigger] ps[i]).name@ == name
        &&& forall|i: int|
            0 <= i < ps.len() ==> {
                &&& prepared.dom().contains((#[trigger] ps[i]).name@)
                &&& prepared[ps[i].name@] == (ps[i].query@, ps[i].param_oids@)
            }
        &&& forall|i: int, j: int|
            0 <= i < j < ps.len() ==> (#[trigger] ps[i]).name@ != (#[trigger] ps[j]).name@
    }
}

impl Default for ReplayableState {
    fn default() -> (r: Self)
        ensures
            r.wf(),
            r.prepared_statements@ == Seq::<PreparedStatementInfo>::empty(),
            r.session_variables@ == Map::<Seq<char>, String>::empty(),
    {
        ReplayableState { prepared_statements: Vec::new(), session_variables: NameMap::new() }
    }
}

/// What a session holds.
#[verifier::ext_equal]
pub struct SessionState {
    /// Prepared statements by name: query and types of the parameters.
    pub prepared: Map<Seq<char>, (Seq<char>, Seq<u32>)>,
    /// Session variables and their values.
    pub variables: Map<Seq<char>, Seq<char>>,
    pub temp_tables: Set<Seq<char>>,
    pub cursors: Set<Seq<char>>,
    pub locks: Set<i64>,
    pub channels: Set<Seq<char>>,
    /// A command was seen that is not known to leave the session clean.
    pub unknown: bool,
}

impl SessionState {
    /// A session that holds nothing.
    pub open spec fn clean() -> SessionState {
        SessionState {
            prepared: Map::empty(),
            variables: Map::empty(),
            temp_tables: Set::empty(),
            cursors: Set::empty(),
            locks: Set::empty(),
            channels: Set::empty(),
            unknown: false,
        }
    }

    /// The session holds finitely many things.
    pub open spec fn finite(self) -> bool {
        &&& self.prepared.dom().finite()
        &&& self.variables.dom().finite()
        &&& self.temp_tables.finite()
        &&& self.cursors.finite()
        &&& self.locks.finite()
        &&& self.channels.finite()
    }

    /// Why a client with this session must keep its connection.
    pub open spec fn reasons(self) -> Set<PinReason> {
        Set::new(
            |r: PinReason|
                match r {
                    PinReason::PreparedStatement => self.prepared != Map::<
                        Seq<char>,
                        (Seq<char>, Seq<u32>),
                    >::empty(),
                    PinReason::SessionVariable => self.variables != Map::<
                        Seq<char>,
                        Seq<char>,
                    >::empty(),
                    PinReason::TempTable => self.temp_tables != Set::<Seq<char>>::empty(),
                    PinReason::Cursor => self.cursors != Set::<Seq<char>>::empty(),
                    PinReason::AdvisoryLock => self.locks != Set::<i64>::empty(),
                    PinReason::Listen => self.channels != Set::<Seq<char>>::empty(),
                    PinReason::UnknownCommand => self.unknown,
                },
        )
    }

    /// The session holds something.
    pub open spec fn pinned(self) -> bool {
        exists|r: PinReason| #[trigger] self.reasons().contains(r)
    }

    /// The session holds something that cannot be set up again elsewhere.
    pub open spec fn has_unsafe(self) -> bool {
        exists|r: PinReason| #[trigger] self.reasons().contains(r) && r.cannot_be_replayed()
    }

    /// The session after a tracked command. A lock whose key cannot be read is
    /// one that is not known to be given up again.
    pub open spec fn after_command(self, c: command::Command) -> SessionState {
        match c {
            command::Command::SetVariable { name, value } => SessionState {
                variables: self.variables.insert(name, value),
                ..self
            },
            command::Command::Reset { name } => SessionState {
                variables: self.variables.remove(name),
                ..self
            },
            command::Command::ResetAll => SessionState { variables: Map::empty(), ..self },
            command::Command::CreateTempTable { name } => SessionState {
                temp_tables: self.temp_tables.insert(name),
                ..self
            },
            command::Command::DropTable { name } => SessionState {
                temp_tables: self.temp_tables.remove(name),
                ..self
            },
            command::Command::DeclareCursor { name, with_hold } => SessionState {
                cursors: self.cursors.insert(name),
                ..self
            },
            command::Command::CloseCursor { name } => SessionState {
                cursors: self.cursors.remove(name),
                ..self
            },
            command::Command::AdvisoryLock { key } => match key {
                Some(k) => SessionState { locks: self.locks.insert(k), ..self },
                None => SessionState { unknown: true, ..self },
            },
            command::Command::AdvisoryUnlock { key } => match key {
                Some(k) => SessionState { locks: self.locks.remove(k), ..self },
                None => self,
            },
            command::Command::DiscardAll => SessionState::clean(),
            command::Command::Deallocate { name } => SessionState {
                prepared: self.prepared.remove(name),
                ..self
            },
            command::Command::DeallocateAll => SessionState { prepared: Map::empty(), ..self },
            command::Command::Listen { channel } => SessionState {
                channels: self.channels.insert(channel),
                ..self
            },
            command::Command::Unlisten { channel } => match channel {
                Some(c) => SessionState { channels: self.channels.remove(c), ..self },
                None => SessionState { channels: Set::empty(), ..self },
            },
            command::Command::Notify { channel } => self,
        }
    }

    /// The session after a command of class `c`.
    pub open spec fn after(self, c: command::Class) -> SessionState {
        match c {
            command::Class::Clean => self,
            command::Class::Unknown => SessionState { unknown: true, ..self },
            command::Class::Stateful(cmd) => self.after_command(cmd),
        }
    }
}

/// Tracks what a client has left behind in its session.
#[derive(Debug)]
pub struct ConnectionState {
    prepared_statements: NameMap<(String, Vec<u32>)>,
    session_variables: NameMap<String>,
    temp_tables: NameSet,
    cursors: NameSet,
    advisory_locks: HashSet<i64>,
    listen_channels: NameSet,
    unknown_command: bool,
    max_prepared_statements: usize,
}

impl ConnectionState {
    /// What the session holds.
    pub closed spec fn view(&self) -> SessionState {
        SessionState {
            prepared: self.prepared_statements@.map_values(
                |v: (String, Vec<u32>)| (v.0@, v.1@),
            ),
            variables: self.session_variables@.map_values(|v: String| v@),
            temp_tables: self.temp_tables@,
            cursors: self.cursors@,
            locks: self.advisory_locks@,
            channels: self.listen_channels@,
            unknown: self.unknown_command,
        }
    }

    /// The limit that was set on prepared statements. Nothing is evicted by it.
    pub closed spec fn limit(&self) -> usize {
        self.max_prepared_statements
    }

    /// Each name is held once, and there are finitely many.
    pub open spec fn wf(&self) -> bool {
        self.names_once() && self@.finite()
    }

    /// Each name is held once.
    pub closed spec fn names_once(&self) -> bool {
        &&& self.prepared_statements.wf()
        &&& self.session_variables.wf()
        &&& self.temp_tables.wf()
        &&& self.cursors.wf()
        &&& self.listen_channels.wf()
    }

    /// A session that holds nothing.
    pub fn new(max_prepared_statements: usize) -> (r: Self)
        ensures
            r.wf(),
            r@ == SessionState::clean(),
            r.limit() == max_prepared_statements,
    {
        let r = ConnectionState {
            prepared_statements: NameMap::new(),
            session_variables: NameMap::new(),
            temp_tables: NameSet::new(),
            cursors: NameSet::new(),
            advisory_locks: HashSet::new(),
            listen_channels: NameSet::new(),
            unknown_command: false,
            max_prepared_statements,
        };
        assert(r@ =~= SessionState::clean());
        r
    }

    /// Whether no advisory lock is held.
    fn lock_free(&self) -> (r: bool)
        ensures
            r == (self@.locks == Set::<i64>::empty()),
    {
        let r = self.advisory_locks.is_empty();
        assert(self@.locks.is_empty() == (self@.locks =~= Set::<i64>::empty()));
        r
    }

    /// Whether no prepared statement is held.
    fn statement_free(&self) -> (r: bool)
        requires
            self.wf(),
        ensures
            r == (self@.prepared == Map::<Seq<char>, (Seq<char>, Seq<u32>)>::empty()),
    {
        let r = self.prepared_statements.is_empty();
        proof {
            if r {
                assert(self@.prepared =~= Map::<Seq<char>, (Seq<char>, Seq<u32>)>::empty());
            } else {
                assert(self@.prepared.dom() =~= self.prepared_statements@.dom());
                assert(Map::<Seq<char>, (Seq<char>, Seq<u32>)>::empty().dom().len() == 0);
            }
        }
        r
    }

    /// Whether no session variable is held.
    fn variable_free(&self) -> (r: bool)
        requires
            self.wf(),
        ensures
            r == (self@.variables == Map::<Seq<char>, Seq<char>>::empty()),
    {
        let r = self.session_variables.is_empty();
        proof {
            if r {
                assert(self@.variables =~= Map::<Seq<char>, Seq<char>>::empty());
            } else {
                assert(self@.variables.dom() =~= self.session_variables@.dom());
                assert(Map::<Seq<char>, Seq<char>>::empty().dom().len() == 0);
            }
        }
        r
    }

    /// Whether the client must keep its connection.
    pub fn is_pinned(&self) -> (r: bool)
        requires
            self.wf(),
        ensures
            r == self@.pinned(),
    {
        let r = self.unknown_command || !self.statement_free() || !self.variable_free()
            || !self.temp_tables.is_empty() || !self.cursors.is_empty() || !self.lock_free()
            || !self.listen_channels.is_empty();
        proof {
            let x = self@.reasons();
            if r {
                assert(x.contains(PinReason::UnknownCommand) || x.contains(
                    PinReason::PreparedStatement,
                ) || x.contains(PinReason::SessionVariable) || x.contains(PinReason::TempTable)
                    || x.contains(PinReason::Cursor) || x.contains(PinReason::AdvisoryLock)
                    || x.contains(PinReason::Listen));
            }
        }
        r
    }

    /// Whether the session holds something that cannot be set up again elsewhere.
    pub fn has_unsafe_state(&self) -> (r: bool)
        requires
            self.wf(),
        ensures
            r == self@.has_unsafe(),
    {
        let r = self.unknown_command || !self.temp_tables.is_empty() || !self.cursors.is_empty()
            || !self.lock_free() || !self.listen_channels.is_empty();
        proof {
            let x = self@.reasons();
            if r {
                assert(x.contains(PinReason::UnknownCommand) || x.contains(PinReason::TempTable)
                    || x.contains(PinReason::Cursor) || x.contains(PinReason::AdvisoryLock)
                    || x.contains(PinReason::Listen));
            }
        }
        r
    }

    /// Record a command that is not known to leave the session clean.
    pub fn mark_unknown_command(&mut self)
        requires
            old(self).wf(),
        ensures
            final(self).wf(),
            final(self).limit() == old(self).limit(),
            final(self)@ == (SessionState { unknown: true, ..old(self)@ }),
    {
        self.unknown_command = true;
    }

    /// Record what a command of class `class` does.
    pub fn apply_class(&mut self, class: CommandClass)
        requires
            old(self).wf(),
        ensures
            final(self).wf(),
            final(self).limit() == old(self).limit(),
            final(self)@ == old(self)@.after(class@),
    {
        match class {
            CommandClass::Clean => {},
            CommandClass::Unknown => self.mark_unknown_command(),
            CommandClass::Stateful(cmd) => match cmd {
                DetectedCommand::SetVariable { name, value } => self.add_session_variable(
                    name,
                    value,
                ),
                DetectedCommand::Reset { name } => self.remove_session_variable(name.as_str()),
                DetectedCommand::ResetAll => self.clear_session_variables(),
                DetectedCommand::CreateTempTable { name } => self.add_temp_table(name),
                DetectedCommand::DropTable { name } => self.remove_temp_table(name.as_str()),
                DetectedCommand::DeclareCursor { name, with_hold: _ } => self.add_cursor(name),
                DetectedCommand::CloseCursor { name } => self.remove_cursor(name.as_str()),
                DetectedCommand::AdvisoryLock { key } => match key {
                    Some(k) => self.add_advisory_lock(k),
                    None => self.mark_unknown_command(),
                },
                DetectedCommand::AdvisoryUnlock { key } => {
                    if let Some(k) = key {
                        self.remove_advisory_lock(k);
                    }
                },
                DetectedCommand::DiscardAll => self.clear_all(),
                DetectedCommand::Deallocate { name } => self.remove_prepared_statement(
                    name.as_str(),
                ),
                DetectedCommand::DeallocateAll => self.clear_prepared_statements(),
                DetectedCommand::Listen { channel } => self.add_listen_channel(channel),
                DetectedCommand::Unlisten { channel } => match channel {
                    Some(name) => self.remove_listen_channel(name.as_str()),
                    None => self.clear_listen_channels(),
                },
                DetectedCommand::Notify { channel: _ } => {},
            },
        }
    }

    /// Record what `query` does to the session. A command that is not known to
    /// leave the session clean pins the connection.
    pub fn apply_query(&mut self, query: &str)
        requires
            old(self).wf(),
        ensures
            final(self).wf(),
            final(self).limit() == old(self).limit(),
            final(self)@ == old(self)@.after(command::classify(query@)),
    {
        self.apply_class(CommandDetector::classify(query));
    }

    /// Why the client must keep its connection.
    pub fn pin_reasons(&self) -> (r: PinReasons)
        requires
            self.wf(),
        ensures
            r@ == self@.reasons(),
    {
        let mut reasons = PinReasons::new();
        if !self.statement_free() {
            reasons.insert(PinReason::PreparedStatement);
        }
        if !self.variable_free() {
            reasons.insert(PinReason::SessionVariable);
        }
        if !self.temp_tables.is_empty() {
            reasons.insert(PinReason::TempTable);
        }
        if !self.cursors.is_empty() {
            reasons.insert(PinReason::Cursor);
        }
        if !self.lock_free() {
            reasons.insert(PinReason::AdvisoryLock);
        }
        if !self.listen_channels.is_empty() {
            reasons.insert(PinReason::Listen);
        }
        if self.unknown_command {
            reasons.insert(PinReason::UnknownCommand);
        }
        assert(reasons@ =~= self@.reasons());
        reasons
    }

    /// Record a prepared statement.
    pub fn add_prepared_statement(&mut self, name: String, query: String, param_oids: Vec<u32>)
        requires
            old(self).wf(),
        ensures
            final(self).wf(),
            final(self).limit() == old(self).limit(),
            final(self)@ == (SessionState {
                prepared: old(self)@.prepared.insert(name@, (query@, param_oids@)),
                ..old(self)@
            }),
    {
        self.prepared_statements.insert(name, (query, param_oids));
        assert(self@.prepared =~= old(self)@.prepared.insert(name@, (query@, param_oids@)));
    }

    /// Forget a prepared statement.
    pub fn remove_prepared_statement(&mut self, name: &str)
        requires
            old(self).wf(),
        ensures
            final(self).wf(),
            final(self).limit() == old(self).limit(),
            final(self)@ == (SessionState {
                prepared: old(self)@.prepared.remove(name@),
                ..old(self)@
            }),
    {
        let _ = self.prepared_statements.remove(name);
        assert(self@.prepared =~= old(self)@.prepared.remove(name@));
    }

    /// Forget every prepared statement.
    pub fn clear_prepared_statements(&mut self)
        requires
            old(self).wf(),
        ensures
            final(self).wf(),
            final(self).limit() == old(self).limit(),
            final(self)@ == (SessionState { prepared: Map::empty(), ..old(self)@ }),
    {
        self.prepared_statements.clear();
        assert(self@.prepared =~= Map::<Seq<char>, (Seq<char>, Seq<u32>)>::empty());
    }

    /// Record a session variable.
    pub fn add_session_variable(&mut self, name: String, value: String)
        requires
            old(self).wf(),
        ensures
            final(self).wf(),
            final(self).limit() == old(self).limit(),
            final(self)@ == (SessionState {
                variables: old(self)@.variables.insert(name@, value@),
                ..old(self)@
            }),
    {
        self.session_variables.insert(name, value);
        assert(self@.variables =~= old(self)@.variables.insert(name@, value@));
    }

    /// Forget a session variable.
    pub fn remove_session_variable(&mut self, name: &str)
        requires
            old(self).wf(),
        ensures
            final(self).wf(),
            final(self).limit() == old(self).limit(),
            final(self)@ == (SessionState {
                variables: old(self)@.variables.remove(name@),
                ..old(self)@
            }),
    {
        let _ = self.session_variables.remove(name);
        assert(self@.variables =~= old(self)@.variables.remove(name@));
    }

    /// Forget every session variable.
    pub fn clear_session_variables(&mut self)
        requires
            old(self).wf(),
        ensures
            final(self).wf(),
            final(self).limit() == old(self).limit(),
            final(self)@ == (SessionState { variables: Map::empty(), ..old(self)@ }),
    {
        self.session_variables.clear();
        assert(self@.variables =~= Map::<Seq<char>, Seq<char>>::empty());
    }

    /// Record a temporary table.
    pub fn add_temp_table(&mut self, name: String)
        requires
            old(self).wf(),
        ensures
            final(self).wf(),
            final(self).limit() == old(self).limit(),
            final(self)@ == (SessionState {
                temp_tables: old(self)@.temp_tables.insert(name@),
                ..old(self)@
            }),
    {
        self.temp_tables.insert(name);
    }

    /// Forget a temporary table.
    pub fn remove_temp_table(&mut self, name: &str)
        requires
            old(self).wf(),
        ensures
            final(self).wf(),
            final(self).limit() == old(self).limit(),
            final(self)@ == (SessionState {
                temp_tables: old(self)@.temp_tables.remove(name@),
                ..old(self)@
            }),
    {
        self.temp_tables.remove(name);
    }

    /// Record an open cursor.
    pub fn add_cursor(&mut self, name: String)
        requires
            old(self).wf(),
        ensures
            final(self).wf(),
            final(self).limit() == old(self).limit(),
            final(self)@ == (SessionState {
                cursors: old(self)@.cursors.insert(name@),
                ..old(self)@
            }),
    {
        self.cursors.insert(name);
    }

    /// Forget a cursor.
    pub fn remove_cursor(&mut self, name: &str)
        requires
            old(self).wf(),
        ensures
            final(self).wf(),
            final(self).limit() == old(self).limit(),
            final(self)@ == (SessionState {
                cursors: old(self)@.cursors.remove(name@),
                ..old(self)@
            }),
    {
        self.cursors.remove(name);
    }

    /// Record an advisory lock.
    pub fn add_advisory_lock(&mut self, key: i64)
        requires
            old(self).wf(),
        ensures
            final(self).wf(),
            final(self).limit() == old(self).limit(),
            final(self)@ == (SessionState {
                locks: old(self)@.locks.insert(key),
                ..old(self)@
            }),
    {
        let _ = self.advisory_locks.insert(key);
        assert(self@.locks =~= old(self)@.locks.insert(key));
    }

    /// Forget an advisory lock.
    pub fn remove_advisory_lock(&mut self, key: i64)
        requires
            old(self).wf(),
        ensures
            final(self).wf(),
            final(self).limit() == old(self).limit(),
            final(self)@ == (SessionState {
                locks: old(self)@.locks.remove(key),
                ..old(self)@
            }),
    {
        let _ = self.advisory_locks.remove(&key);
        assert(self@.locks =~= old(self)@.locks.remove(key));
    }

    /// Record a channel that is listened to.
    pub fn add_listen_channel(&mut self, channel: String)
        requires
            old(self).wf(),
        ensures
            final(self).wf(),
            final(self).limit() == old(self).limit(),
            final(self)@ == (SessionState {
                channels: old(self)@.channels.insert(channel@),
                ..old(self)@
            }),
    {
        self.listen_channels.insert(channel);
    }

    /// Forget a channel.
    pub fn remove_listen_channel(&mut self, channel: &str)
        requires
            old(self).wf(),
        ensures
            final(self).wf(),
            final(self).limit() == old(self).limit(),
            final(self)@ == (SessionState {
                channels: old(self)@.channels.remove(channel@),
                ..old(self)@
            }),
    {
        self.listen_channels.remove(channel);
    }

    /// Forget every channel.
    pub fn clear_listen_channels(&mut self)
        requires
            old(self).wf(),
        ensures
            final(self).wf(),
            final(self).limit() == old(self).limit(),
            final(self)@ == (SessionState { channels: Set::empty(), ..old(self)@ }),
    {
        self.listen_channels.clear();
    }

    /// What can be set up again on another connection.
    pub fn get_replayable_state(&self) -> (r: ReplayableState)
        requires
            self.wf(),
        ensures
            r.wf(),
            r.variables() == self@.variables,
            r.holds(self@.prepared),
            self@.reasons().contains(PinReason::PreparedStatement)
                <==> r.prepared_statements@.len() > 0,
            self@.reasons().contains(PinReason::SessionVariable) <==> r.session_variables@ != Map::<
                Seq<char>,
                String,
            >::empty(),
    {
        let mut prepared: Vec<PreparedStatementInfo> = Vec::new();
        let ghost m = self.prepared_statements;
        let mut i: usize = 0;
        while i < self.prepared_statements.len()
            invariant
                self.wf(),
                m == self.prepared_statements,
                i <= m.names().len(),
                prepared@.len() == i,
                forall|k: int|
                    0 <= k < i ==> {
                        &&& (#[trigger] prepared@[k]).name@ == m.names()[k]
                        &&& prepared@[k].query@ == m.values()[k].0@
                        &&& prepared@[k].param_oids@ == m.values()[k].1@
                    },
            decreases m.names().len() - i,
        {
            let stmt = self.prepared_statements.value_at(i);
            prepared.push(
                PreparedStatementInfo {
                    name: self.prepared_statements.name_at(i).clone(),
                    query: stmt.0.clone(),
                    param_oids: copy_oids(&stmt.1),
                },
            );
            i += 1;
        }
        let r = ReplayableState {
            prepared_statements: prepared,
            session_variables: copy_texts(&self.session_variables),
        };
        proof {
            m.lemma_len();
            assert(self@.prepared.dom() =~= m@.dom());
            assert forall|k: int| 0 <= k < r.prepared_statements@.len() implies {
                &&& self@.prepared.dom().contains((#[trigger] r.prepared_statements@[k]).name@)
                &&& self@.prepared[r.prepared_statements@[k].name@] == (
                    r.prepared_statements@[k].query@,
                    r.prepared_statements@[k].param_oids@,
                )
            } by {
                m.lemma_at(k);
            }
            assert forall|name: Seq<char>| #[trigger]
                self@.prepared.dom().contains(name) implies exists|k: int|
                0 <= k < r.prepared_statements@.len() && (
                #[trigger] r.prepared_statements@[k]).name@ == name by {
                let k = m.names().index_of(name);
                assert(r.prepared_statements@[k].name@ == name);
            }
            law_replay_covers_the_pins(r, self@);
        }
        r
    }

    /// Forget everything.
    pub fn clear_all(&mut self)
        requires
            old(self).wf(),
        ensures
            final(self).wf(),
            final(self).limit() == old(self).limit(),
            final(self)@ == SessionState::clean(),
    {
        self.prepared_statements.clear();
        self.session_variables.clear();
        self.temp_tables.clear();
        self.cursors.clear();
        self.advisory_locks.clear();
        self.listen_channels.clear();
        self.unknown_command = false;
        assert(self@ =~= SessionState::clean());
    }
}

/// A copy of a list of type numbers.
pub fn copy_oids(oids: &Vec<u32>) -> (r: Vec<u32>)
    ensures
        r@ == oids@,
{
    let mut out: Vec<u32> = Vec::new();
    out.extend_from_slice(oids.as_slice());
    assert(out@ =~= oids@);
    out
}

/// A copy of a map from names to texts.
pub fn copy_texts(m: &NameMap<String>) -> (r: NameMap<String>)
    requires
        m.wf(),
    ensures
        r.wf(),
        r@ == m@,
{
    let mut out: NameMap<String> = NameMap::new();
    let mut i: usize = 0;
    assert(out.names() =~= m.names().take(0));
    assert(out.values() =~= m.values().take(0));
    while i < m.len()
        invariant
            m.wf(),
            out.wf(),
            i <= m.names().len(),
            out.names() == m.names().take(i as int),
            out.values() == m.values().take(i as int),
        decreases m.names().len() - i,
    {
        assert(!out@.dom().contains(m.names()[i as int])) by {
            let k = m.names()[i as int];
            if out.names().contains(k) {
                let j = out.names().index_of(k);
                assert(m.names()[j] == k);
            }
        }
        out.insert(m.name_at(i).clone(), m.value_at(i).clone());
        i += 1;
        assert(out.names() =~= m.names().take(i as int));
        assert(out.values() =~= m.values().take(i as int));
    }
    assert(out.names() =~= m.names());
    assert(out.values() =~= m.values());
    out
}

/// A session with state that cannot be set up again is pinned, and one with
/// nothing but statements and variables has no such state.
pub proof fn law_unsafe_is_pinned(s: SessionState)
    ensures
        s.has_unsafe() ==> s.pinned(),
        s.has_unsafe() <==> !s.reasons().subset_of(
            set![PinReason::PreparedStatement, PinReason::SessionVariable],
        ),
{
    let safe = set![PinReason::PreparedStatement, PinReason::SessionVariable];
    if s.has_unsafe() {
        let r = choose|r: PinReason| #[trigger] s.reasons().contains(r) && r.cannot_be_replayed();
        assert(s.reasons().contains(r));
        assert(!safe.contains(r));
    }
    if !s.reasons().subset_of(safe) {
        let r = choose|r: PinReason| #[trigger] s.reasons().contains(r) && !safe.contains(r);
        assert(r.cannot_be_replayed());
    }
}

/// What is set up again is what pins: there is a statement to set up exactly
/// where statements pin the session, and a variable exactly where variables do.
pub proof fn law_replay_covers_the_pins(r: ReplayableState, s: SessionState)
    requires
        r.variables() == s.variables,
        r.holds(s.prepared),
    ensures
        s.reasons().contains(PinReason::PreparedStatement) <==> r.prepared_statements@.len() > 0,
        s.reasons().contains(PinReason::SessionVariable) <==> r.session_variables@ != Map::<
            Seq<char>,
            String,
        >::empty(),
        forall|name: Seq<char>| #[trigger]
            s.prepared.dom().contains(name) ==> exists|i: int|
                0 <= i < r.prepared_statements@.len() && (
                #[trigger] r.prepared_statements@[i]).name@ == name && s.prepared[name] == (
                    r.prepared_statements@[i].query@,
                    r.prepared_statements@[i].param_oids@,
                ),
{
    let none = Map::<Seq<char>, (Seq<char>, Seq<u32>)>::empty();
    let ps = r.prepared_statements@;
    if ps.len() == 0 {
        assert(s.prepared =~= none);
    } else {
        assert(s.prepared.dom().contains(ps[0].name@));
        assert(s.prepared != none);
    }
    let unset = Map::<Seq<char>, String>::empty();
    let m = r.session_variables@;
    assert(s.variables.dom() =~= m.dom());
    if s.variables == Map::<Seq<char>, Seq<char>>::empty() {
        assert(m =~= unset);
    }
    if m == unset {
        assert(s.variables =~= Map::<Seq<char>, Seq<char>>::empty());
    }
    assert forall|name: Seq<char>| #[trigger] s.prepared.dom().contains(name) implies exists|i: int|
        0 <= i < ps.len() && (#[trigger] ps[i]).name@ == name && s.prepared[name] == (
            ps[i].query@,
            ps[i].param_oids@,
        ) by {
        let i = choose|i: int| 0 <= i < ps.len() && (#[trigger] ps[i]).name@ == name;
        assert(ps[i].name@ == name);
    }
}

/// Only a session that holds nothing is not pinned.
pub proof fn law_unpinned_is_clean(s: SessionState)
    ensures
        s.pinned() <==> s != SessionState::clean(),
{
    let c = SessionState::clean();
    let x = s.reasons();
    if !s.pinned() {
        assert(!x.contains(PinReason::PreparedStatement));
        assert(!x.contains(PinReason::SessionVariable));
        assert(!x.contains(PinReason::TempTable));
        assert(!x.contains(PinReason::Cursor));
        assert(!x.contains(PinReason::AdvisoryLock));
        assert(!x.contains(PinReason::Listen));
        assert(!x.contains(PinReason::UnknownCommand));
        assert(s =~= c);
    }
}

/// A command that is not known to leave the session clean pins the connection,
/// and it stays pinned, with state that cannot be set up again, whatever is
/// run after it short of `DISCARD ALL`.
pub proof fn law_unknown_pins(s: SessionState, c: command::Class)
    ensures
        s.after(command::Class::Unknown).pinned(),
        s.after(command::Class::Unknown).has_unsafe(),
        s.unknown && c != command::Class::Stateful(command::Command::DiscardAll) ==> s.after(
            c,
        ).unknown,
        s.after(command::Class::Stateful(command::Command::DiscardAll)) == SessionState::clean(),
{
    let t = s.after(command::Class::Unknown);
    assert(t.reasons().contains(PinReason::UnknownCommand));
}

/// An advisory lock pins the connection, with state that cannot be set up
/// again, whether its key can be read or not.
pub proof fn law_advisory_lock_pins(s: SessionState, key: Option<i64>)
    ensures
        s.after_command(command::Command::AdvisoryLock { key }).pinned(),
        s.after_command(command::Command::AdvisoryLock { key }).has_unsafe(),
{
    let t = s.after_command(command::Command::AdvisoryLock { key });
    match key {
        Some(k) => {
            assert(t.locks.contains(k));
            assert(t.reasons().contains(PinReason::AdvisoryLock));
        },
        None => {
            assert(t.reasons().contains(PinReason::UnknownCommand));
        },
    }
}

/// A clean command and `NOTIFY` change nothing.
pub proof fn law_clean_keeps_state(s: SessionState, channel: Seq<char>)
    ensures
        s.after(command::Class::Clean) == s,
        s.after(command::Class::Stateful(command::Command::Notify { channel })) == s,
{
}

/// What is listened to anew and given up again is as before, and giving up all
/// channels leaves no `LISTEN` pin.
pub proof fn law_unlisten_undoes_listen(s: SessionState, channel: Seq<char>)
    requires
        !s.channels.contains(channel),
    ensures
        s.after_command(command::Command::Listen { channel }).after_command(
            command::Command::Unlisten { channel: Some(channel) },
        ) == s,
        !s.after_command(command::Command::Unlisten { channel: None }).reasons().contains(
            PinReason::Listen,
        ),
{
    let t = s.after_command(command::Command::Listen { channel }).after_command(
        command::Command::Unlisten { channel: Some(channel) },
    );
    assert(t =~= s);
}

/// What is given up again after it was taken anew leaves the session as it
/// was: a variable, a temporary table, a cursor and an advisory lock.
pub proof fn law_release_undoes_hold(
    s: SessionState,
    name: Seq<char>,
    value: Seq<char>,
    with_hold: bool,
    key: i64,
)
    ensures
        !s.variables.dom().contains(name) ==> s.after_command(
            command::Command::SetVariable { name, value },
        ).after_command(command::Command::Reset { name }) == s,
        !s.temp_tables.contains(name) ==> s.after_command(
            command::Command::CreateTempTable { name },
        ).after_command(command::Command::DropTable { name }) == s,
        !s.cursors.contains(name) ==> s.after_command(
            command::Command::DeclareCursor { name, with_hold },
        ).after_command(command::Command::CloseCursor { name }) == s,
        !s.locks.contains(key) ==> s.after_command(
            command::Command::AdvisoryLock { key: Some(key) },
        ).after_command(command::Command::AdvisoryUnlock { key: Some(key) }) == s,
{
    if !s.variables.dom().contains(name) {
        assert(s.after_command(command::Command::SetVariable { name, value }).after_command(
            command::Command::Reset { name },
        ) =~= s);
    }
    if !s.temp_tables.contains(name) {
        assert(s.after_command(command::Command::CreateTempTable { name }).after_command(
            command::Command::DropTable { name },
        ) =~= s);
    }
    if !s.cursors.contains(name) {
        assert(s.after_command(
            command::Command::DeclareCursor { name, with_hold },
        ).after_command(command::Command::CloseCursor { name }) =~= s);
    }
    if !s.locks.contains(key) {
        assert(s.after_command(command::Command::AdvisoryLock { key: Some(key) }).after_command(
            command::Command::AdvisoryUnlock { key: Some(key) },
        ) =~= s);
    }
}

/// Giving up prepared statements touches nothing else: the variables, temporary
/// tables, cursors, locks and channels are those before, and so are the other
/// reasons to keep the connection.
pub proof fn law_deallocating_touches_statements_alone(s: SessionState, name: Seq<char>)
    ensures
        ({
            let t = s.after_command(command::Command::DeallocateAll);
            &&& forall|n: Seq<char>| !t.prepared.dom().contains(n)
            &&& t.variables == s.variables
            &&& t.temp_tables == s.temp_tables
            &&& t.cursors == s.cursors
            &&& t.locks == s.locks
            &&& t.channels == s.channels
            &&& t.unknown == s.unknown
            &&& t.reasons() == s.reasons().remove(PinReason::PreparedStatement)
        }),
        ({
            let t = s.after_command(command::Command::Deallocate { name });
            &&& t.prepared == s.prepared.remove(name)
            &&& t.variables == s.variables
            &&& t.temp_tables == s.temp_tables
            &&& t.cursors == s.cursors
            &&& t.locks == s.locks
            &&& t.channels == s.channels
            &&& t.unknown == s.unknown
            &&& t.reasons().insert(PinReason::PreparedStatement) == s.reasons().insert(
                PinReason::PreparedStatement,
            )
        }),
{
    let t = s.after_command(command::Command::DeallocateAll);
    assert(t.reasons() =~= s.reasons().remove(PinReason::PreparedStatement));
    let t = s.after_command(command::Command::Deallocate { name });
    assert(t.reasons().insert(PinReason::PreparedStatement) =~= s.reasons().insert(
        PinReason::PreparedStatement,
    ));
}

/// Resetting variables touches nothing else: the prepared statements, temporary
/// tables, cursors, locks and channels are those before, and so are the other
/// reasons to keep the connection.
pub proof fn law_resetting_touches_variables_alone(s: SessionState, name: Seq<char>)
    ensures
        ({
            let t = s.after_command(command::Command::ResetAll);
            &&& forall|n: Seq<char>| !t.variables.dom().contains(n)
            &&& t.prepared == s.prepared
            &&& t.temp_tables == s.temp_tables
            &&& t.cursors == s.cursors
            &&& t.locks == s.locks
            &&& t.channels == s.channels
            &&& t.unknown == s.unknown
            &&& t.reasons() == s.reasons().remove(PinReason::SessionVariable)
        }),
        ({
            let t = s.after_command(command::Command::Reset { name });
            &&& t.variables == s.variables.remove(name)
            &&& t.prepared == s.prepared
            &&& t.temp_tables == s.temp_tables
            &&& t.cursors == s.cursors
            &&& t.locks == s.locks
            &&& t.channels == s.channels
            &&& t.unknown == s.unknown
            &&& t.reasons().insert(PinReason::SessionVariable) == s.reasons().insert(
                PinReason::SessionVariable,
            )
        }),
{
    let t = s.after_command(command::Command::ResetAll);
    assert(t.reasons() =~= s.reasons().remove(PinReason::SessionVariable));
    let t = s.after_command(command::Command::Reset { name });
    assert(t.reasons().insert(PinReason::SessionVariable) =~= s.reasons().insert(
        PinReason::SessionVariable,
    ));
}

/// Ceasing to listen touches nothing but channels: all of them where none is
/// named, and otherwise the one that is named.
pub proof fn law_unlistening_touches_channels_alone(s: SessionState, channel: Seq<char>)
    ensures
        ({
            let t = s.after_command(command::Command::Unlisten { channel: None });
            &&& forall|c: Seq<char>| !t.channels.contains(c)
            &&& t == (SessionState { channels: t.channels, ..s })
            &&& t.reasons() == s.reasons().remove(PinReason::Listen)
        }),
        ({
            let t = s.after_command(command::Command::Unlisten { channel: Some(channel) });
            &&& t.channels == s.channels.remove(channel)
            &&& t == (SessionState { channels: t.channels, ..s })
        }),
{
    let t = s.after_command(command::Command::Unlisten { channel: None });
    assert(t.reasons() =~= s.reasons().remove(PinReason::Listen));
}

/// Dropping a table, closing a cursor and giving up a lock each give up the one
/// that is named, and nothing else.
pub proof fn law_what_is_named_is_given_up(s: SessionState, name: Seq<char>, key: i64)
    ensures
        s.after_command(command::Command::DropTable { name }) == (SessionState {
            temp_tables: s.temp_tables.remove(name),
            ..s
        }),
        s.after_command(command::Command::CloseCursor { name }) == (SessionState {
            cursors: s.cursors.remove(name),
            ..s
        }),
        s.after_command(command::Command::AdvisoryUnlock { key: Some(key) }) == (SessionState {
            locks: s.locks.remove(key),
            ..s
        }),
        s.after_command(command::Command::AdvisoryUnlock { key: None }) == s,
{
}

/// Taking something up adds that one thing and a reason of its own to keep the
/// connection; whatever else the session holds stays, and so does every other
/// reason.
pub proof fn law_what_is_taken_up_is_held(
    s: SessionState,
    name: Seq<char>,
    value: Seq<char>,
    with_hold: bool,
    key: i64,
)
    ensures
        ({
            let t = s.after_command(command::Command::SetVariable { name, value });
            &&& t == (SessionState { variables: t.variables, ..s })
            &&& t.variables.dom() == s.variables.dom().insert(name)
            &&& t.variables[name] == value
            &&& forall|n: Seq<char>| #[trigger]
                s.variables.dom().contains(n) && n != name ==> t.variables[n] == s.variables[n]
            &&& t.reasons() == s.reasons().insert(PinReason::SessionVariable)
        }),
        ({
            let t = s.after_command(command::Command::CreateTempTable { name });
            &&& t == (SessionState { temp_tables: t.temp_tables, ..s })
            &&& t.temp_tables == s.temp_tables.insert(name)
            &&& t.reasons() == s.reasons().insert(PinReason::TempTable)
        }),
        ({
            let t = s.after_command(command::Command::DeclareCursor { name, with_hold });
            &&& t == (SessionState { cursors: t.cursors, ..s })
            &&& t.cursors == s.cursors.insert(name)
            &&& t.reasons() == s.reasons().insert(PinReason::Cursor)
        }),
        ({
            let t = s.after_command(command::Command::AdvisoryLock { key: Some(key) });
            &&& t == (SessionState { locks: t.locks, ..s })
            &&& t.locks == s.locks.insert(key)
            &&& t.reasons() == s.reasons().insert(PinReason::AdvisoryLock)
        }),
        ({
            let t = s.after_command(command::Command::AdvisoryLock { key: None });
            &&& t == (SessionState { unknown: true, ..s })
            &&& t.reasons() == s.reasons().insert(PinReason::UnknownCommand)
        }),
        ({
            let t = s.after_command(command::Command::Listen { channel: name });
            &&& t == (SessionState { channels: t.channels, ..s })
            &&& t.channels == s.channels.insert(name)
            &&& t.reasons() == s.reasons().insert(PinReason::Listen)
        }),
        s.after_command(command::Command::Notify { channel: name }) == s,
{
    let t = s.after_command(command::Command::SetVariable { name, value });
    assert(t.variables.dom() =~= s.variables.dom().insert(name));
    assert(t.variables.dom().contains(name));
    assert(t.reasons() =~= s.reasons().insert(PinReason::SessionVariable));
    let t = s.after_command(command::Command::CreateTempTable { name });
    assert(t.temp_tables.contains(name));
    assert(t.reasons() =~= s.reasons().insert(PinReason::TempTable));
    let t = s.after_command(command::Command::DeclareCursor { name, with_hold });
    assert(t.cursors.contains(name));
    assert(t.reasons() =~= s.reasons().insert(PinReason::Cursor));
    let t = s.after_command(command::Command::AdvisoryLock { key: Some(key) });
    assert(t.locks.contains(key));
    assert(t.reasons() =~= s.reasons().insert(PinReason::AdvisoryLock));
    let t = s.after_command(command::Command::AdvisoryLock { key: None });
    assert(t.reasons() =~= s.reasons().insert(PinReason::UnknownCommand));
    let t = s.after_command(command::Command::Listen { channel: name });
    assert(t.channels.contains(name));
    assert(t.reasons() =~= s.reasons().insert(PinReason::Listen));
}

/// `DISCARD ALL` leaves nothing behind: no reason to keep the connection, and
/// nothing to set up again.
pub proof fn law_discarding_gives_up_everything(s: SessionState, name: Seq<char>, key: i64)
    ensures
        ({
            let t = s.after_command(command::Command::DiscardAll);
            &&& !t.prepared.dom().contains(name)
            &&& !t.variables.dom().contains(name)
            &&& !t.temp_tables.contains(name)
            &&& !t.cursors.contains(name)
            &&& !t.locks.contains(key)
            &&& !t.channels.contains(name)
            &&& !t.unknown
            &&& t.reasons() == Set::<PinReason>::empty()
            &&& !t.pinned()
        }),
{
    let t = s.after_command(command::Command::DiscardAll);
    assert(t.reasons() =~= Set::<PinReason>::empty());
}

/// Each reason to keep a connection stands for one kind of thing that the
/// session holds, and is there exactly while it holds one.
pub proof fn law_reasons_say_what_is_held(s: SessionState)
    ensures
        s.reasons().contains(PinReason::PreparedStatement) <==> exists|n: Seq<char>| #[trigger]
            s.prepared.dom().contains(n),
        s.reasons().contains(PinReason::SessionVariable) <==> exists|n: Seq<char>| #[trigger]
            s.variables.dom().contains(n),
        s.reasons().contains(PinReason::TempTable) <==> exists|n: Seq<char>| #[trigger]
            s.temp_tables.contains(n),
        s.reasons().contains(PinReason::Cursor) <==> exists|n: Seq<char>| #[trigger]
            s.cursors.contains(n),
        s.reasons().contains(PinReason::AdvisoryLock) <==> exists|k: i64| #[trigger]
            s.locks.contains(k),
        s.reasons().contains(PinReason::Listen) <==> exists|n: Seq<char>| #[trigger]
            s.channels.contains(n),
        s.reasons().contains(PinReason::UnknownCommand) <==> s.unknown,
{
    if forall|n: Seq<char>| !s.prepared.dom().contains(n) {
        assert(s.prepared =~= Map::<Seq<char>, (Seq<char>, Seq<u32>)>::empty());
    }
    if forall|n: Seq<char>| !s.variables.dom().contains(n) {
        assert(s.variables =~= Map::<Seq<char>, Seq<char>>::empty());
    }
    if forall|n: Seq<char>| !s.temp_tables.contains(n) {
        assert(s.temp_tables =~= Set::<Seq<char>>::empty());
    }
    if forall|n: Seq<char>| !s.cursors.contains(n) {
        assert(s.cursors =~= Set::<Seq<char>>::empty());
    }
    if forall|k: i64| !s.locks.contains(k) {
        assert(s.locks =~= Set::<i64>::empty());
    }
    if forall|n: Seq<char>| !s.channels.contains(n) {
        assert(s.channels =~= Set::<Seq<char>>::empty());
    }
}

/// A connection is kept exactly while there is a reason to; what it is kept for
/// can be set up elsewhere exactly while prepared statements and variables are
/// the only reasons.
pub proof fn law_only_statements_and_variables_are_replayed(s: SessionState)
    ensures
        s.pinned() <==> s.reasons() != Set::<PinReason>::empty(),
        s.has_unsafe() <==> (s.reasons().contains(PinReason::TempTable) || s.reasons().contains(
            PinReason::Cursor,
        ) || s.reasons().contains(PinReason::AdvisoryLock) || s.reasons().contains(
            PinReason::Listen,
        ) || s.reasons().contains(PinReason::UnknownCommand)),
{
    if !s.pinned() {
        assert(s.reasons() =~= Set::<PinReason>::empty());
    } else {
        let r = choose|r: PinReason| #[trigger] s.reasons().contains(r);
        assert(!Set::<PinReason>::empty().contains(r));
    }
}

/// A command of no known class is remembered as such and changes nothing else;
/// one that is clean changes nothing.
pub proof fn law_classes_are_applied(s: SessionState, c: command::Command)
    ensures
        s.after(command::Class::Clean) == s,
        s.after(command::Class::Unknown) == (SessionState { unknown: true, ..s }),
        s.after(command::Class::Unknown).reasons() == s.reasons().insert(
            PinReason::UnknownCommand,
        ),
        s.after(command::Class::Stateful(c)) == s.after_command(c),
{
    assert(s.after(command::Class::Unknown).reasons() =~= s.reasons().insert(
        PinReason::UnknownCommand,
    ));
}

/// The last value that a variable was set to is the one that counts, and
/// variables of different names do not disturb each other.
pub proof fn law_later_value_counts(
    s: SessionState,
    a: Seq<char>,
    b: Seq<char>,
    v: Seq<char>,
    w: Seq<char>,
)
    ensures
        s.after_command(command::Command::SetVariable { name: a, value: v }).after_command(
            command::Command::SetVariable { name: a, value: w },
        ) == s.after_command(command::Command::SetVariable { name: a, value: w }),
        a != b ==> s.after_command(
            command::Command::SetVariable { name: a, value: v },
        ).after_command(command::Command::SetVariable { name: b, value: w }) == s.after_command(
            command::Command::SetVariable { name: b, value: w },
        ).after_command(command::Command::SetVariable { name: a, value: v }),
{
    let x = s.variables;
    assert(x.insert(a, v).insert(a, w) =~= x.insert(a, w));
    if a != b {
        assert(x.insert(a, v).insert(b, w) =~= x.insert(b, w).insert(a, v));
    }
}

/// What is set up again holds each prepared statement with its query and types,
/// and no other.
pub proof fn law_each_statement_is_replayed(
    r: ReplayableState,
    s: SessionState,
    name: Seq<char>,
    i: int,
)
    requires
        r.holds(s.prepared),
    ensures
        s.prepared.dom().contains(name) ==> exists|k: int|
            #![trigger r.prepared_statements@[k]]
            0 <= k < r.prepared_statements@.len() && r.prepared_statements@[k].name@ == name
                && r.prepared_statements@[k].query@ == s.prepared[name].0
                && r.prepared_statements@[k].param_oids@ == s.prepared[name].1,
        0 <= i < r.prepared_statements@.len() ==> s.prepared.dom().contains(
            r.prepared_statements@[i].name@,
        ),
        r.prepared_statements@.len() == s.prepared.dom().len(),
{
    let ps = r.prepared_statements@;
    if s.prepared.dom().contains(name) {
        let k = choose|k: int| 0 <= k < ps.len() && (#[trigger] ps[k]).name@ == name;
        assert(s.prepared.dom().contains(ps[k].name@));
    }
    if 0 <= i < ps.len() {
        assert(s.prepared.dom().contains(ps[i].name@));
    }
}

/// `DEALLOCATE ALL` leaves no prepared statement, and everything else as it was.
pub proof fn law_deallocate_all_keeps_the_rest(s: &mut ConnectionState)
    requires
        call_ensures(
            ConnectionState::apply_class,
            (s, CommandClass::Stateful(DetectedCommand::DeallocateAll)),
            (),
        ),
    ensures
        forall|n: Seq<char>| !final(s)@.prepared.dom().contains(n),
        final(s)@.variables == old(s)@.variables,
        final(s)@.temp_tables == old(s)@.temp_tables,
        final(s)@.cursors == old(s)@.cursors,
        final(s)@.locks == old(s)@.locks,
        final(s)@.channels == old(s)@.channels,
        final(s)@.unknown == old(s)@.unknown,
        final(s)@.reasons() == old(s)@.reasons().remove(PinReason::PreparedStatement),
{
    assert(final(s)@.reasons() =~= old(s)@.reasons().remove(PinReason::PreparedStatement));
}

/// `RESET ALL` leaves no variable, and everything else as it was.
pub proof fn law_reset_all_keeps_the_rest(s: &mut ConnectionState)
    requires
        call_ensures(
            ConnectionState::apply_class,
            (s, CommandClass::Stateful(DetectedCommand::ResetAll)),
            (),
        ),
    ensures
        forall|n: Seq<char>| !final(s)@.variables.dom().contains(n),
        final(s)@.prepared == old(s)@.prepared,
        final(s)@.temp_tables == old(s)@.temp_tables,
        final(s)@.cursors == old(s)@.cursors,
        final(s)@.locks == old(s)@.locks,
        final(s)@.channels == old(s)@.channels,
        final(s)@.unknown == old(s)@.unknown,
        final(s)@.reasons() == old(s)@.reasons().remove(PinReason::SessionVariable),
{
    assert(final(s)@.reasons() =~= old(s)@.reasons().remove(PinReason::SessionVariable));
}

/// Commands that give up what they name touch no other kind of thing.
pub proof fn law_named_commands_keep_the_rest(
    a: &mut ConnectionState,
    b: &mut ConnectionState,
    c: &mut ConnectionState,
    d: &mut ConnectionState,
    name: String,
)
    requires
        call_ensures(
            ConnectionState::apply_class,
            (a, CommandClass::Stateful(DetectedCommand::Deallocate { name })),
            (),
        ),
        call_ensures(
            ConnectionState::apply_class,
            (b, CommandClass::Stateful(DetectedCommand::Reset { name })),
            (),
        ),
        call_ensures(
            ConnectionState::apply_class,
            (c, CommandClass::Stateful(DetectedCommand::DropTable { name })),
            (),
        ),
        call_ensures(
            ConnectionState::apply_class,
            (d, CommandClass::Stateful(DetectedCommand::CloseCursor { name })),
            (),
        ),
    ensures
        final(a)@ == (SessionState { prepared: old(a)@.prepared.remove(name@), ..old(a)@ }),
        final(b)@ == (SessionState { variables: old(b)@.variables.remove(name@), ..old(b)@ }),
        final(c)@ == (SessionState { temp_tables: old(c)@.temp_tables.remove(name@), ..old(c)@ }),
        final(d)@ == (SessionState { cursors: old(d)@.cursors.remove(name@), ..old(d)@ }),
{
}

} // verus!
