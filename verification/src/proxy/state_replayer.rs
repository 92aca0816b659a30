//! Sets up a session's statements and variables again on another connection.
use crate::protocol::command;
use crate::protocol::wire;
use crate::proxy::connection_state::ReplayableState;
use crate::text;
use crate::text::{chars_of, eq_ignore_ascii_case};
use vstd::prelude::*;
use vstd::string::*;

verus! {

/// What a backend's answer to a command amounts to.
pub enum Reply {
    /// A message begins whose header is not there yet.
    HeaderMissing,
    /// A message states a length that does not cover the length itself.
    Malformed,
    /// A message begins whose body is not there yet.
    BodyMissing,
    /// The messages are whole, but none says that the backend is ready.
    NotReady,
    /// The backend is ready; whether the command succeeded.
    Done(bool),
}

/// What the messages of `data` from `offset` on amount to, when `failed` says
/// whether one before them was an error. A length above `i32::MAX` is one that
/// no message can have.
pub open spec fn reply(data: Seq<u8>, offset: int, failed: bool) -> Reply
    decreases data.len() - offset,
{
    if offset < 0 || offset >= data.len() {
        Reply::NotReady
    } else if offset + 5 > data.len() {
        Reply::HeaderMissing
    } else {
        let length = wire::be32_at(data, offset + 1);
        if length < 4 {
            Reply::Malformed
        } else if length > i32::MAX || offset + 1 + length > data.len() {
            Reply::BodyMissing
        } else if data[offset] == wire::TAG_READY {
            Reply::Done(!failed)
        } else {
            reply(data, offset + 1 + length, failed || data[offset] == wire::TAG_ERROR)
        }
    }
}

/// Each quote doubled.
pub open spec fn double_quotes(v: Seq<char>) -> Seq<char>
    decreases v.len(),
{
    if v.len() == 0 {
        Seq::empty()
    } else if v.last() == '\'' {
        double_quotes(v.drop_last()) + seq!['\'', '\'']
    } else {
        double_quotes(v.drop_last()).push(v.last())
    }
}

/// The command that sets a session variable.
pub open spec fn set_sql(name: Seq<char>, value: Seq<char>) -> Seq<char> {
    if text::lower_all(name) == text::lower_all("search_path"@) {
        "SET search_path TO "@ + value
    } else {
        "SET "@ + name + " = '"@ + double_quotes(value) + "'"@
    }
}

/// The command that prepares a statement.
pub open spec fn prepare_sql(name: Seq<char>, query: Seq<char>) -> Seq<char> {
    "PREPARE "@ + name + " AS "@ + query
}

/// The simple Query message for a command.
pub open spec fn query_message(query: Seq<char>) -> Seq<u8> {
    wire::message(wire::TAG_QUERY, wire::utf8(query) + seq![0u8])
}

/// What could not be set up again.
#[derive(Debug, Clone)]
pub enum ReplayError {
    PreparedStatement { name: String, error: String },
    SessionVariable { name: String, error: String },
}

/// What could and could not be set up again.
#[derive(Debug)]
pub struct ReplayResult {
    pub prepared_statements_replayed: usize,
    pub session_variables_replayed: usize,
    pub errors: Vec<ReplayError>,
}

impl Default for ReplayResult {
    fn default() -> (r: Self)
        ensures
            r.prepared_statements_replayed == 0,
            r.session_variables_replayed == 0,
            r.errors@ == Seq::<ReplayError>::empty(),
    {
        ReplayResult {
            prepared_statements_replayed: 0,
            session_variables_replayed: 0,
            errors: Vec::new(),
        }
    }
}

impl ReplayResult {
    /// Whether everything could be set up.
    pub fn is_success(&self) -> (r: bool)
        ensures
            r == (self.errors@.len() == 0),
    {
        self.errors.len() == 0
    }

    /// How many things were set up.
    pub fn total_replayed(&self) -> (r: usize)
        requires
            self.prepared_statements_replayed + self.session_variables_replayed <= usize::MAX,
        ensures
            r == self.prepared_statements_replayed + self.session_variables_replayed,
    {
        self.prepared_statements_replayed + self.session_variables_replayed
    }
}

/// Builds the commands and reads the answers.
pub struct StateReplayer {}

impl StateReplayer {
    /// A replayer.
    pub fn new() -> Self {
        StateReplayer {  }
    }

    /// The simple Query message for a command.
    pub fn build_query_message(query: &str) -> (r: Vec<u8>)
        ensures
            r@ == query_message(query@),
    {
        let mut body: Vec<u8> = Vec::new();
        body.extend_from_slice(query.as_bytes());
        body.push(0);
        assert(body@ =~= wire::utf8(query@) + seq![0u8]);
        wire::build_message(wire::TAG_QUERY, body.as_slice())
    }

    /// Whether the command that `data` answers succeeded; an error where the
    /// answer is malformed or not whole.
    pub fn parse_response(data: &[u8]) -> (r: Result<bool, String>)
        ensures
            match reply(data@, 0, false) {
                Reply::HeaderMissing => r matches Err(m) && m@ == "Incomplete message header"@,
                Reply::Malformed => r matches Err(m) && m@ == "Malformed message length"@,
                Reply::BodyMissing => r matches Err(m) && m@ == "Incomplete message body"@,
                Reply::NotReady => r matches Err(m) && m@ == "No ReadyForQuery received"@,
                Reply::Done(success) => r == Ok::<bool, String>(success),
            },
    {
        let mut offset: usize = 0;
        let mut saw_error: bool = false;
        while offset < data.len()
            invariant
                offset <= data@.len(),
                reply(data@, 0, false) == reply(data@, offset as int, saw_error),
            decreases data.len() - offset,
        {
            if data.len() - offset < 5 {
                return Err("Incomplete message header".to_owned());
            }
            let tag = data[offset];
            let length = wire::read_be32(data, offset + 1);
            if length < 4 {
                return Err("Malformed message length".to_owned());
            }
            if length > i32::MAX as u32 || data.len() - offset - 1 < length as usize {
                return Err("Incomplete message body".to_owned());
            }
            if tag == wire::TAG_READY {
                return Ok(!saw_error);
            }
            if tag == wire::TAG_ERROR {
                saw_error = true;
            }
            offset = offset + 1 + length as usize;
        }
        Err("No ReadyForQuery received".to_owned())
    }

    /// `PREPARE name AS query`.
    pub fn build_prepare_sql(name: &str, query: &str) -> (r: String)
        ensures
            r@ == prepare_sql(name@, query@),
    {
        let mut sql = "PREPARE ".to_owned();
        sql.append(name);
        sql.append(" AS ");
        sql.append(query);
        sql
    }

    /// `SET name = 'value'`; the search path is set with `TO` and without quotes.
    pub fn build_set_sql(name: &str, value: &str) -> (r: String)
        ensures
            r@ == set_sql(name@, value@),
    {
        if eq_ignore_ascii_case(name, "search_path") {
            let mut sql = "SET search_path TO ".to_owned();
            sql.append(value);
            return sql;
        }
        let mut sql = "SET ".to_owned();
        sql.append(name);
        sql.append(" = '");
        let escaped = escape(value);
        sql.append(escaped.as_str());
        sql.append("'");
        sql
    }
}

impl Default for StateReplayer {
    fn default() -> Self {
        StateReplayer::new()
    }
}

/// Each quote doubled.
fn escape(value: &str) -> (r: String)
    ensures
        r@ == double_quotes(value@),
{
    let chars = chars_of(value);
    let mut out = String::new();
    let mut i: usize = 0;
    assert(value@.take(0) =~= Seq::empty());
    while i < chars.len()
        invariant
            chars@ == value@,
            i <= chars@.len(),
            out@ == double_quotes(value@.take(i as int)),
        decreases chars.len() - i,
    {
        let c = chars[i];
        let ghost before = out@;
        out.push(c);
        if c == '\'' {
            out.push(c);
        }
        i += 1;
        proof {
            let t = value@.take(i as int);
            assert(t.last() == c);
            assert(t.drop_last() =~= value@.take(i - 1));
            if c == '\'' {
                assert(out@ =~= before + seq!['\'', '\'']);
            }
        }
    }
    assert(value@.take(i as int) =~= value@);
    out
}

/// What came of one read of a backend's answer.
#[derive(Debug)]
pub enum ReadStep {
    /// More has to be read.
    More,
    /// The answer is whole; whether the command succeeded.
    Done(bool),
    /// The backend closed the connection before the answer was whole.
    Closed,
}

/// An answer that is being read.
#[derive(Debug)]
pub struct ResponseReader {
    buffer: Vec<u8>,
}

impl ResponseReader {
    /// What has been read.
    pub closed spec fn view(&self) -> Seq<u8> {
        self.buffer@
    }

    /// Nothing has been read.
    pub fn new() -> (r: Self)
        ensures
            r@ == Seq::<u8>::empty(),
    {
        ResponseReader { buffer: Vec::new() }
    }

    /// Take in what a read brought. A read that brought nothing is the end of
    /// the connection.
    pub fn receive(&mut self, chunk: &[u8]) -> (r: ReadStep)
        ensures
            final(self)@ == old(self)@ + chunk@,
            r == if chunk@.len() == 0 {
                ReadStep::Closed
            } else {
                match reply(old(self)@ + chunk@, 0, false) {
                    Reply::Done(success) => ReadStep::Done(success),
                    _ => ReadStep::More,
                }
            },
    {
        self.buffer.extend_from_slice(chunk);
        assert(self.buffer@ =~= old(self)@ + chunk@);
        if chunk.len() == 0 {
            return ReadStep::Closed;
        }
        match StateReplayer::parse_response(self.buffer.as_slice()) {
            Ok(success) => ReadStep::Done(success),
            Err(_) => ReadStep::More,
        }
    }
}

/// A session that is being set up again: first the variables, which the
/// statements may depend on, and then the statements.
#[derive(Debug)]
pub struct Replay {
    state: ReplayableState,
    done: usize,
    result: ReplayResult,
}

impl Replay {
    /// What is set up.
    pub closed spec fn state(&self) -> ReplayableState {
        self.state
    }

    /// How many things have been answered for.
    pub closed spec fn done(&self) -> nat {
        self.done as nat
    }

    /// What has come of it so far.
    pub closed spec fn result(&self) -> ReplayResult {
        self.result
    }

    /// How many variables there are.
    pub open spec fn variable_count(&self) -> nat {
        self.state().session_variables.names().len()
    }

    /// How many things there are.
    pub open spec fn total(&self) -> nat {
        self.variable_count() + self.state().prepared_statements@.len()
    }

    /// The command that sets up the thing at place `i`.
    pub open spec fn command(&self, i: int) -> Seq<char> {
        let vars = self.state().session_variables;
        if i < self.variable_count() {
            set_sql(vars.names()[i], vars.values()[i]@)
        } else {
            let stmt = self.state().prepared_statements@[i - self.variable_count()];
            prepare_sql(stmt.name@, stmt.query@)
        }
    }

    /// Each thing that was answered for was set up or is among the errors.
    pub open spec fn wf(&self) -> bool {
        &&& self.state().wf()
        &&& self.done() <= self.total()
        &&& self.result().session_variables_replayed + self.result().prepared_statements_replayed
            + self.result().errors@.len() == self.done()
        &&& self.result().session_variables_replayed <= self.variable_count()
        &&& self.result().prepared_statements_replayed + self.variable_count() <= self.done()
            || self.result().prepared_statements_replayed == 0
        &&& self.total() <= usize::MAX
    }

    /// Begin to set up `state`.
    pub fn new(state: ReplayableState) -> (r: Self)
        requires
            state.wf(),
            state.session_variables.names().len() + state.prepared_statements@.len() <= usize::MAX,
        ensures
            r.wf(),
            r.state() == state,
            r.done() == 0,
            r.result().errors@.len() == 0,
    {
        Replay { state, done: 0, result: ReplayResult::default() }
    }

    /// The message to send next; none where everything has been answered for.
    pub fn next_message(&self) -> (r: Option<Vec<u8>>)
        requires
            self.wf(),
        ensures
            r is Some <==> self.done() < self.total(),
            r matches Some(m) ==> m@ == query_message(self.command(self.done() as int)),
    {
        let vars = self.state.session_variables.len();
        if self.done < vars {
            let sql = StateReplayer::build_set_sql(
                self.state.session_variables.name_at(self.done).as_str(),
                self.state.session_variables.value_at(self.done).as_str(),
            );
            Some(StateReplayer::build_query_message(sql.as_str()))
        } else if self.done - vars < self.state.prepared_statements.len() {
            let stmt = &self.state.prepared_statements[self.done - vars];
            let sql = StateReplayer::build_prepare_sql(stmt.name.as_str(), stmt.query.as_str());
            Some(StateReplayer::build_query_message(sql.as_str()))
        } else {
            None
        }
    }

    /// Take in whether the command that was sent last succeeded.
    pub fn record(&mut self, success: bool)
        requires
            old(self).wf(),
            old(self).done() < old(self).total(),
        ensures
            final(self).wf(),
            final(self).state() == old(self).state(),
            final(self).done() == old(self).done() + 1,
            recorded(
                old(self).state(),
                old(self).done() as int,
                success,
                old(self).result(),
                final(self).result(),
            ),
    {
        let vars = self.state.session_variables.len();
        if self.done < vars {
            if success {
                self.result.session_variables_replayed =
                self.result.session_variables_replayed + 1;
            } else {
                let name = self.state.session_variables.name_at(self.done);
                let value = self.state.session_variables.value_at(self.done);
                let mut error = "Failed to replay SET ".to_owned();
                error.append(name.as_str());
                error.append(" = '");
                error.append(value.as_str());
                error.append("'");
                self.result.errors.push(
                    ReplayError::SessionVariable { name: name.clone(), error },
                );
            }
        } else {
            if success {
                self.result.prepared_statements_replayed =
                self.result.prepared_statements_replayed + 1;
            } else {
                let stmt = &self.state.prepared_statements[self.done - vars];
                let mut error = "Failed to replay PREPARE ".to_owned();
                error.append(stmt.name.as_str());
                error.append(" AS ");
                error.append(stmt.query.as_str());
                self.result.errors.push(
                    ReplayError::PreparedStatement { name: stmt.name.clone(), error },
                );
            }
        }
        self.done = self.done + 1;
        proof {
            if !success {
                assert(self.result.errors@.drop_last() =~= old(self).result.errors@);
            }
        }
    }

    /// What came of it.
    pub fn finish(self) -> (r: ReplayResult)
        ensures
            r == self.result(),
    {
        self.result
    }
}

/// Whether `new` is `old` with the answer for the thing at place `i` taken in.
pub open spec fn recorded(
    state: ReplayableState,
    i: int,
    success: bool,
    old: ReplayResult,
    new: ReplayResult,
) -> bool {
    let vars = state.session_variables;
    let n = vars.names().len();
    if i < n {
        if success {
            &&& new.session_variables_replayed == old.session_variables_replayed + 1
            &&& new.prepared_statements_replayed == old.prepared_statements_replayed
            &&& new.errors@ == old.errors@
        } else {
            &&& new.session_variables_replayed == old.session_variables_replayed
            &&& new.prepared_statements_replayed == old.prepared_statements_replayed
            &&& new.errors@.len() == old.errors@.len() + 1
            &&& new.errors@.drop_last() == old.errors@
            &&& new.errors@.last() matches ReplayError::SessionVariable { name, error }
            &&& name@ == vars.names()[i]
            &&& error@ == "Failed to replay SET "@ + vars.names()[i] + " = '"@ + vars.values()[i]@
                + "'"@
        }
    } else {
        let stmt = state.prepared_statements@[i - n];
        if success {
            &&& new.session_variables_replayed == old.session_variables_replayed
            &&& new.prepared_statements_replayed == old.prepared_statements_replayed + 1
            &&& new.errors@ == old.errors@
        } else {
            &&& new.session_variables_replayed == old.session_variables_replayed
            &&& new.prepared_statements_replayed == old.prepared_statements_replayed
            &&& new.errors@.len() == old.errors@.len() + 1
            &&& new.errors@.drop_last() == old.errors@
            &&& new.errors@.last() matches ReplayError::PreparedStatement { name, error }
            &&& name@ == stmt.name@
            &&& error@ == "Failed to replay PREPARE "@ + stmt.name@ + " AS "@ + stmt.query@
        }
    }
}

/// An answer that is whole stays what it is when more is read.
pub proof fn law_more_data_keeps_the_answer(
    data: Seq<u8>,
    more: Seq<u8>,
    offset: int,
    failed: bool,
)
    requires
        reply(data, offset, failed) is Done,
    ensures
        reply(data + more, offset, failed) == reply(data, offset, failed),
    decreases data.len() - offset,
{
    let d = data + more;
    assert(d[offset] == data[offset]);
    assert(d[offset + 1] == data[offset + 1]);
    assert(d[offset + 2] == data[offset + 2]);
    assert(d[offset + 3] == data[offset + 3]);
    assert(d[offset + 4] == data[offset + 4]);
    let length = wire::be32_at(data, offset + 1);
    if data[offset] != wire::TAG_READY {
        law_more_data_keeps_the_answer(
            data,
            more,
            offset + 1 + length,
            failed || data[offset] == wire::TAG_ERROR,
        );
    }
}

/// Messages one after the other.
pub open spec fn joined(messages: Seq<(u8, Seq<u8>)>) -> Seq<u8>
    decreases messages.len(),
{
    if messages.len() == 0 {
        Seq::empty()
    } else {
        wire::message(messages[0].0, messages[0].1) + joined(messages.skip(1))
    }
}

/// What messages amount to does not depend on what stands before them.
proof fn lemma_reply_shift(before: Seq<u8>, data: Seq<u8>, offset: int, failed: bool)
    requires
        0 <= offset,
    ensures
        reply(before + data, before.len() + offset, failed) == reply(data, offset, failed),
    decreases data.len() - offset,
{
    let d = before + data;
    let o = before.len() + offset;
    if offset < data.len() && offset + 5 <= data.len() {
        assert(d[o] == data[offset]);
        assert(d[o + 1] == data[offset + 1]);
        assert(d[o + 2] == data[offset + 2]);
        assert(d[o + 3] == data[offset + 3]);
        assert(d[o + 4] == data[offset + 4]);
        let length = wire::be32_at(data, offset + 1);
        assert(wire::be32_at(d, o + 1) == length);
        if 4 <= length <= i32::MAX && offset + 1 + length <= data.len() && data[offset]
            != wire::TAG_READY {
            lemma_reply_shift(
                before,
                data,
                offset + 1 + length,
                failed || data[offset] == wire::TAG_ERROR,
            );
        }
    }
}

/// An answer of whole messages that ends with ReadyForQuery means success
/// exactly where none of the messages is an ErrorResponse.
pub proof fn law_answer_is_success_without_error(
    messages: Seq<(u8, Seq<u8>)>,
    status: Seq<u8>,
    failed: bool,
)
    requires
        forall|i: int|
            0 <= i < messages.len() ==> (#[trigger] messages[i]).0 != wire::TAG_READY
                && messages[i].1.len() + 4 <= i32::MAX,
        status.len() + 4 <= i32::MAX,
    ensures
        reply(joined(messages) + wire::message(wire::TAG_READY, status), 0, failed) == Reply::Done(
            !failed && forall|i: int|
                0 <= i < messages.len() ==> (#[trigger] messages[i]).0 != wire::TAG_ERROR,
        ),
    decreases messages.len(),
{
    let end = wire::message(wire::TAG_READY, status);
    let data = joined(messages) + end;
    if messages.len() == 0 {
        assert(data =~= end);
        wire::lemma_message_length(wire::TAG_READY, status);
    } else {
        let m = wire::message(messages[0].0, messages[0].1);
        let rest = messages.skip(1);
        let tail = joined(rest) + end;
        wire::lemma_message_length(messages[0].0, messages[0].1);
        assert(data =~= m + tail);
        assert(wire::be32_at(data, 1) == wire::be32_at(m, 1));
        assert(data[0] == m[0]);
        let failed2 = failed || messages[0].0 == wire::TAG_ERROR;
        assert(reply(data, 0, failed) == reply(data, m.len() as int, failed2));
        lemma_reply_shift(m, tail, 0, failed2);
        assert forall|i: int| 0 <= i < rest.len() implies (#[trigger] rest[i]).0
            != wire::TAG_READY && rest[i].1.len() + 4 <= i32::MAX by {
            assert(rest[i] == messages[i + 1]);
        }
        law_answer_is_success_without_error(rest, status, failed2);
        let all = forall|i: int|
            0 <= i < messages.len() ==> (#[trigger] messages[i]).0 != wire::TAG_ERROR;
        let others = forall|i: int|
            0 <= i < rest.len() ==> (#[trigger] rest[i]).0 != wire::TAG_ERROR;
        assert(all == (messages[0].0 != wire::TAG_ERROR && others)) by {
            if messages[0].0 != wire::TAG_ERROR && others {
                assert forall|i: int| 0 <= i < messages.len() implies (#[trigger] messages[i]).0
                    != wire::TAG_ERROR by {
                    if i > 0 {
                        assert(rest[i - 1] == messages[i]);
                    }
                }
            }
            if all {
                assert forall|i: int| 0 <= i < rest.len() implies (#[trigger] rest[i]).0
                    != wire::TAG_ERROR by {
                    assert(rest[i] == messages[i + 1]);
                }
                assert(messages[0].0 != wire::TAG_ERROR);
            }
        }
    }
}

proof fn lemma_undouble_prefix(v: Seq<char>, w: Seq<char>, i: int)
    requires
        command::quotes_doubled(v, i),
        0 <= i <= v.len(),
    ensures
        command::undouble(v + w, i) == command::undouble(v, i) + command::undouble(
            v + w,
            v.len() as int,
        ),
        command::quotes_doubled(v + w, i) == command::quotes_doubled(v + w, v.len() as int),
    decreases v.len() - i,
{
    let d = v + w;
    let tail = command::undouble(d, v.len() as int);
    if i < v.len() {
        assert(d[i] == v[i]);
        if v[i] == '\'' {
            assert(d[i + 1] == v[i + 1]);
            lemma_undouble_prefix(v, w, i + 2);
            assert(command::undouble(d, i) =~= command::undouble(v, i) + tail);
        } else {
            lemma_undouble_prefix(v, w, i + 1);
            assert(command::undouble(d, i) =~= command::undouble(v, i) + tail);
        }
    } else {
        assert(command::undouble(v, i) + tail =~= tail);
    }
}

/// Doubling the quotes of a value is undone when the value is read back.
pub proof fn law_quotes_round_trip(v: Seq<char>)
    ensures
        command::quotes_doubled(double_quotes(v), 0),
        command::undouble(double_quotes(v), 0) == v,
    decreases v.len(),
{
    if v.len() > 0 {
        let d = double_quotes(v.drop_last());
        law_quotes_round_trip(v.drop_last());
        let w = if v.last() == '\'' {
            seq!['\'', '\'']
        } else {
            seq![v.last()]
        };
        assert(double_quotes(v) =~= d + w);
        lemma_undouble_prefix(d, w, 0);
        let n = d.len() as int;
        assert((d + w)[n] == w[0]);
        if v.last() == '\'' {
            assert((d + w)[n + 1] == w[1]);
            assert(command::undouble(d + w, n + 2) =~= Seq::empty());
            assert(command::quotes_doubled(d + w, n + 2));
            assert(command::undouble(d + w, n) =~= seq!['\'']);
        } else {
            assert(command::undouble(d + w, n + 1) =~= Seq::empty());
            assert(command::quotes_doubled(d + w, n + 1));
            assert(command::undouble(d + w, n) =~= seq![v.last()]);
        }
        assert(v =~= v.drop_last() + seq![v.last()]);
    }
}

/// The value in `SET name = 'value'` reads back as the value that was set.
pub proof fn law_set_value_reads_back(v: Seq<char>)
    ensures
        command::value_of("'"@ + double_quotes(v) + "'"@) == v,
{
    reveal_strlit("'");
    let d = double_quotes(v);
    let q = "'"@ + d + "'"@;
    law_quotes_round_trip(v);
    assert(q.subrange(1, q.len() - 1) =~= d);
    assert(q[0] == '\'' && q.last() == '\'');
}

/// When everything has been answered for, there is no error exactly where
/// every variable and every statement is set up again.
pub proof fn law_replay_without_errors_is_complete(replay: Replay)
    requires
        replay.wf(),
        replay.done() == replay.total(),
    ensures
        replay.result().errors@.len() == 0 <==> {
            &&& replay.result().session_variables_replayed == replay.variable_count()
            &&& replay.result().prepared_statements_replayed
                == replay.state().prepared_statements@.len()
        },
{
}

/// Doubling quotes leaves everything else as it is, and in its place.
proof fn lemma_double_quotes_chars(v: Seq<char>, c: char)
    requires
        forall|k: int| 0 <= k < v.len() ==> #[trigger] v[k] != c,
        c != '\'',
    ensures
        forall|k: int| 0 <= k < double_quotes(v).len() ==> #[trigger] double_quotes(v)[k] != c,
    decreases v.len(),
{
    if v.len() > 0 {
        let head = v.drop_last();
        assert forall|k: int| 0 <= k < head.len() implies #[trigger] head[k] != c by {
            assert(v[k] != c);
        }
        lemma_double_quotes_chars(head, c);
        let d = double_quotes(v);
        assert forall|k: int| 0 <= k < d.len() implies #[trigger] d[k] != c by {
            if k < double_quotes(head).len() {
                assert(d[k] == double_quotes(head)[k]);
            }
        }
    }
}

/// Values are quoted piece by piece, and a value without quotes stays as it is.
pub proof fn law_quoting_doubles_quotes_alone(a: Seq<char>, b: Seq<char>)
    ensures
        double_quotes(a + b) == double_quotes(a) + double_quotes(b),
        double_quotes(seq!['\'']) == seq!['\'', '\''],
        (forall|k: int| 0 <= k < a.len() ==> #[trigger] a[k] != '\'') ==> double_quotes(a) == a,
    decreases a.len() + b.len(),
{
    let q = seq!['\''];
    assert(q.drop_last() =~= Seq::empty());
    assert(double_quotes(q.drop_last()) =~= Seq::empty());
    assert(double_quotes(q) =~= seq!['\'', '\'']);
    if b.len() > 0 {
        let s = a + b;
        assert(s.drop_last() =~= a + b.drop_last());
        assert(s.last() == b.last());
        law_quoting_doubles_quotes_alone(a, b.drop_last());
        assert(double_quotes(s) =~= double_quotes(a) + double_quotes(b));
    } else {
        assert(a + b =~= a);
        assert(double_quotes(a) + double_quotes(b) =~= double_quotes(a));
        if a.len() > 0 && (forall|k: int| 0 <= k < a.len() ==> #[trigger] a[k] != '\'') {
            let head = a.drop_last();
            assert forall|k: int| 0 <= k < head.len() implies #[trigger] head[k] != '\'' by {
                assert(a[k] != '\'');
            }
            law_quoting_doubles_quotes_alone(head, Seq::empty());
            assert(a.last() == a[a.len() - 1]);
            assert(double_quotes(a) =~= a);
        }
    }
}

/// The words of the start of a command that sets a variable.
proof fn lemma_set_words(name: Seq<char>)
    requires
        name.len() > 0,
        forall|k: int| 0 <= k < name.len() ==> command::is_word_char(#[trigger] name[k]),
    ensures
        command::words("SET "@ + name + " = "@) == seq!["set"@, text::lower_all(name), "="@],
        command::words("SET search_path TO "@) == seq!["set"@, "search_path"@, "to"@],
        "SET "@ == seq!['S', 'E', 'T'] + seq![' '],
        " = "@ == seq![' ', '=', ' '],
        forall|k: int|
            0 <= k < ("SET "@ + name + " = "@).len() ==> #[trigger] ("SET "@ + name + " = "@)[k]
                != ';',
        forall|k: int|
            0 <= k < "SET search_path TO "@.len() ==> #[trigger] "SET search_path TO "@[k] != ';',
        "SET search_path TO "@.last() == ' ',
{
    reveal_strlit("SET ");
    reveal_strlit(" = ");
    reveal_strlit("set");
    reveal_strlit("=");
    reveal_strlit("to");
    reveal_strlit("search_path");
    reveal_strlit("SET search_path TO ");
    let blank = seq![' '];
    let set = seq!['S', 'E', 'T'];
    let eq = seq!['='];
    command::law_symbols_stand_alone(' ');
    command::law_symbols_stand_alone('=');
    command::law_a_word_is_one_word(set);
    command::law_a_word_is_one_word(name);
    assert(text::lower_all(set) =~= "set"@);
    assert("="@ =~= eq);
    let a = set + blank;
    command::law_words_add_up(set, blank);
    assert(command::words(a) =~= seq!["set"@]);
    assert("SET "@ =~= a);
    let b = a + name;
    command::law_words_add_up(a, name);
    assert(command::words(b) =~= seq!["set"@, text::lower_all(name)]);
    let c = b + blank;
    command::law_words_add_up(b, blank);
    assert(command::words(c) =~= seq!["set"@, text::lower_all(name)]);
    let d = c + eq;
    command::law_words_add_up(c, eq);
    assert(command::words(d) =~= seq!["set"@, text::lower_all(name), "="@]);
    let e = d + blank;
    command::law_words_add_up(d, blank);
    assert(command::words(e) =~= seq!["set"@, text::lower_all(name), "="@]);
    assert(" = "@ =~= seq![' ', '=', ' ']);
    assert(e =~= "SET "@ + name + " = "@);
    let path = "search_path"@;
    let to = seq!['T', 'O'];
    command::law_a_word_is_one_word(path);
    command::law_a_word_is_one_word(to);
    assert(text::lower_all(path) =~= path);
    assert(text::lower_all(to) =~= "to"@);
    let f = a + path;
    command::law_words_add_up(a, path);
    assert(command::words(f) =~= seq!["set"@, path]);
    let g = f + blank;
    command::law_words_add_up(f, blank);
    assert(command::words(g) =~= seq!["set"@, path]);
    let h = g + to;
    command::law_words_add_up(g, to);
    assert(command::words(h) =~= seq!["set"@, path, "to"@]);
    let i = h + blank;
    command::law_words_add_up(h, blank);
    assert(command::words(i) =~= seq!["set"@, path, "to"@]);
    assert(i =~= "SET search_path TO "@);
}

/// The command that sets up a variable again is one that sets that variable to
/// that value: what was recorded of the session is recorded of it again. The
/// search path is a list that is set as it was written.
pub proof fn law_replayed_variable_is_set_to_its_value(name: Seq<char>, value: Seq<char>)
    requires
        name.len() > 0,
        forall|k: int| 0 <= k < name.len() ==> command::is_word_char(#[trigger] name[k]),
        text::lower_all(name) == name,
        name != "session"@,
        forall|k: int| 0 <= k < value.len() ==> #[trigger] value[k] != ';',
    ensures
        name != "search_path"@ ==> command::detect(set_sql(name, value)) == Some(
            command::Command::SetVariable { name, value },
        ),
        name == "search_path"@ && value.len() > 0 && !command::is_space(value[0])
            && !command::is_space(value.last()) && !command::is_literal(value)
            ==> command::detect(set_sql(name, value)) == Some(
            command::Command::SetVariable { name, value },
        ),
{
    reveal_strlit("search_path");
    reveal_strlit("session");
    assert(text::lower_all("search_path"@) =~= "search_path"@);
    lemma_set_words(name);
    if name != "search_path"@ {
        let p = "SET "@ + name + " = "@;
        let v = "'"@ + double_quotes(value) + "'"@;
        reveal_strlit("'");
        reveal_strlit(" = '");
        assert(" = '"@ =~= " = "@ + "'"@);
        assert(set_sql(name, value) =~= p + v);
        law_set_value_reads_back(value);
        lemma_double_quotes_chars(value, ';');
        assert(v[0] == '\'' && v.last() == '\'');
        assert(p.last() == ' ');
        assert(command::is_name(name));
        command::law_set_keeps_its_value(p, name, v);
    } else if value.len() > 0 && !command::is_space(value[0]) && !command::is_space(value.last())
        && !command::is_literal(value) {
        reveal_strlit("SET search_path TO ");
        assert("SET search_path TO "@.len() > 0);
        command::law_set_keeps_its_value("SET search_path TO "@, name, value);
    }
}

/// Without quotes in it, a value that is not one string literal is set up again
/// as it was read: what a client set unquoted, the backend is told as the same
/// text.
pub proof fn law_unquoted_value_is_replayed(v: Seq<char>)
    requires
        !command::is_literal(v),
    ensures
        command::value_of("'"@ + double_quotes(command::value_of(v)) + "'"@) == v,
{
    law_set_value_reads_back(command::value_of(v));
}

/// A name in any letter case that is the search path's is set without quotes,
/// and any other with them; the statement that is prepared again has its name
/// and query.
pub proof fn law_replayed_commands_hold_name_and_text(
    name: Seq<char>,
    value: Seq<char>,
    query: Seq<char>,
)
    ensures
        text::lower_all(name) == "search_path"@ ==> set_sql(name, value) == "SET search_path TO "@
            + value,
        text::lower_all(name) != "search_path"@ ==> set_sql(name, value) == "SET "@ + name
            + " = '"@ + double_quotes(value) + "'"@,
        prepare_sql(name, query) == "PREPARE "@ + name + " AS "@ + query,
{
    reveal_strlit("search_path");
    assert(text::lower_all("search_path"@) =~= "search_path"@);
}

/// A command is sent as the bytes of its text with a zero byte behind them, in a
/// message that says their number.
pub proof fn law_query_message_holds_the_text(query: Seq<char>)
    requires
        wire::utf8(query).len() + 5 < 0x1_0000_0000,
    ensures
        query_message(query)[0] == 0x51,
        wire::be32_at(query_message(query), 1) == wire::utf8(query).len() + 5,
        query_message(query).skip(5) == wire::utf8(query) + seq![0u8],
{
    wire::law_message_says_its_length(wire::TAG_QUERY, wire::utf8(query) + seq![0u8]);
}

/// An answer of whole messages none of which says that the backend is ready is
/// not complete.
pub proof fn law_no_answer_without_ready(messages: Seq<(u8, Seq<u8>)>, failed: bool)
    requires
        forall|i: int|
            0 <= i < messages.len() ==> (#[trigger] messages[i]).0 != wire::TAG_READY
                && messages[i].1.len() + 4 <= i32::MAX,
    ensures
        reply(joined(messages), 0, failed) == Reply::NotReady,
    decreases messages.len(),
{
    let data = joined(messages);
    if messages.len() > 0 {
        let m = wire::message(messages[0].0, messages[0].1);
        let rest = messages.skip(1);
        wire::lemma_message_length(messages[0].0, messages[0].1);
        assert(wire::be32_at(data, 1) == wire::be32_at(m, 1));
        assert(data[0] == m[0]);
        let failed2 = failed || messages[0].0 == wire::TAG_ERROR;
        lemma_reply_shift(m, joined(rest), 0, failed2);
        assert forall|i: int| 0 <= i < rest.len() implies (#[trigger] rest[i]).0
            != wire::TAG_READY && rest[i].1.len() + 4 <= i32::MAX by {
            assert(rest[i] == messages[i + 1]);
        }
        law_no_answer_without_ready(rest, failed2);
    }
}

/// A message whose length does not cover itself is malformed; one that is cut
/// off is waited for.
pub proof fn law_broken_messages(data: Seq<u8>, failed: bool)
    requires
        data.len() > 0,
    ensures
        data.len() < 5 ==> reply(data, 0, failed) == Reply::HeaderMissing,
        data.len() >= 5 && wire::be32_at(data, 1) < 4 ==> reply(data, 0, failed)
            == Reply::Malformed,
        data.len() >= 5 && wire::be32_at(data, 1) + 1 > data.len() && wire::be32_at(data, 1) >= 4
            ==> reply(data, 0, failed) == Reply::BodyMissing,
{
}

/// Variables are set up before statements, each by its own name: the thing at
/// place `i` is a variable exactly where there are more than `i` variables.
pub proof fn law_variables_are_replayed_first(replay: Replay, i: int)
    requires
        0 <= i < replay.total(),
    ensures
        i < replay.state().session_variables.names().len() ==> replay.command(i) == set_sql(
            replay.state().session_variables.names()[i],
            replay.state().session_variables.values()[i]@,
        ),
        i >= replay.state().session_variables.names().len() ==> {
            let k = i - replay.state().session_variables.names().len();
            replay.command(i) == "PREPARE "@ + replay.state().prepared_statements@[k].name@
                + " AS "@ + replay.state().prepared_statements@[k].query@
        },
        replay.total() == replay.state().session_variables.names().len()
            + replay.state().prepared_statements@.len(),
{
}

/// An answer counts once: a success for its own kind, a failure as an error that
/// names what failed; nothing that was counted before is lost.
pub proof fn law_each_answer_counts_once(
    state: ReplayableState,
    i: int,
    success: bool,
    old: ReplayResult,
    new: ReplayResult,
)
    requires
        recorded(state, i, success, old, new),
    ensures
        ({
            let variable = i < state.session_variables.names().len();
            &&& new.session_variables_replayed == old.session_variables_replayed + if success
                && variable {
                1int
            } else {
                0
            }
            &&& new.prepared_statements_replayed == old.prepared_statements_replayed + if success
                && !variable {
                1int
            } else {
                0
            }
            &&& new.errors@.len() == old.errors@.len() + if success {
                0int
            } else {
                1
            }
            &&& !success ==> match new.errors@.last() {
                ReplayError::SessionVariable { name, .. } => variable && name@
                    == state.session_variables.names()[i],
                ReplayError::PreparedStatement { name, .. } => !variable && name@
                    == state.prepared_statements@[i - state.session_variables.names().len()].name@,
            }
        }),
        forall|k: int| 0 <= k < old.errors@.len() ==> #[trigger] new.errors@[k] == old.errors@[k],
{
    if !success {
        assert forall|k: int| 0 <= k < old.errors@.len() implies #[trigger] new.errors@[k]
            == old.errors@[k] by {
            assert(new.errors@.drop_last()[k] == new.errors@[k]);
        }
    }
}

/// It does not matter in how many reads an answer comes: two reads one after the
/// other amount to what one read of both amounts to.
pub proof fn law_reads_add_up(
    a: &mut ResponseReader,
    first: &[u8],
    x: ReadStep,
    b: &mut ResponseReader,
    second: &[u8],
    y: ReadStep,
    c: &mut ResponseReader,
    both: &[u8],
    z: ReadStep,
)
    requires
        both@ == first@ + second@,
        second@.len() > 0,
        old(c)@ == old(a)@,
        old(b)@ == final(a)@,
        call_ensures(ResponseReader::receive, (a, first), x),
        call_ensures(ResponseReader::receive, (b, second), y),
        call_ensures(ResponseReader::receive, (c, both), z),
    ensures
        y == z,
        final(b)@ == final(c)@,
        x matches ReadStep::Done(success) ==> y == ReadStep::Done(success),
        y !is Closed,
        x is Closed <==> first@.len() == 0,
{
    assert(old(a)@ + both@ =~= (old(a)@ + first@) + second@);
    if x is Done {
        law_more_data_keeps_the_answer(old(a)@ + first@, second@, 0, false);
    }
}

/// A step of a setting-up that succeeded goes on with the next thing, and one
/// that failed too; when all are done there is nothing more to send.
pub proof fn law_replay_goes_on(
    r: &mut Replay,
    success: bool,
    after: Replay,
    message: Option<Vec<u8>>,
)
    requires
        call_ensures(Replay::record, (r, success), ()),
        after == *final(r),
        call_ensures(Replay::next_message, (&after,), message),
    ensures
        final(r).done() == old(r).done() + 1,
        final(r).state() == old(r).state(),
        message is None <==> final(r).done() >= final(r).total(),
        success ==> final(r).result().errors@ == old(r).result().errors@,
        !success ==> final(r).result().errors@.len() == old(r).result().errors@.len() + 1,
{
}

} // verus!
