//! Who is let into the admin console, and what is asked of it there.
use crate::config::AdminConfig;
use crate::protocol::wire;
use crate::proxy::connection;
use crate::proxy::connection::ConnectionHandler;
use crate::proxy::state_replayer;
use crate::proxy::transaction::TransactionState;
use vstd::prelude::*;

verus! {

/// Tag of a Terminate message.
pub const TAG_TERMINATE: u8 = 0x58;

/// Whether two byte strings are equal, found in a time that does not depend on
/// where they differ.
pub fn constant_time_eq(a: &[u8], b: &[u8]) -> (r: bool)
    ensures
        r == (a@ == b@),
{
    if a.len() != b.len() {
        return false;
    }
    let mut diff: u8 = 0;
    let mut i: usize = 0;
    assert(a@.take(0) =~= b@.take(0));
    while i < a.len()
        invariant
            a@.len() == b@.len(),
            i <= a@.len(),
            diff == 0 <==> a@.take(i as int) == b@.take(i as int),
        decreases a.len() - i,
    {
        let x: u8 = a[i];
        let y: u8 = b[i];
        proof {
            assert((diff | (x ^ y)) == 0 <==> diff == 0 && x == y) by (bit_vector);
            let s = a@.take(i + 1);
            let t = b@.take(i + 1);
            assert(s =~= a@.take(i as int).push(x));
            assert(t =~= b@.take(i as int).push(y));
            if s == t {
                assert(a@.take(i as int) =~= s.drop_last());
                assert(b@.take(i as int) =~= t.drop_last());
                assert(s.last() == x && t.last() == y);
            }
        }
        diff = diff | (x ^ y);
        i += 1;
    }
    assert(a@.take(i as int) =~= a@);
    assert(b@.take(i as int) =~= b@);
    diff == 0
}

/// The password that opens the console. Without one, or where the console is
/// not enabled, nothing does.
pub open spec fn key(config: AdminConfig) -> Option<Seq<char>> {
    if config.enabled && config.admin_password is Some && config.admin_password->0@.len() > 0 {
        Some(config.admin_password->0@)
    } else {
        None
    }
}

/// What a client is told when nothing opens the console.
pub open spec fn disabled_error() -> Seq<u8> {
    wire::error_response(
        "FATAL"@,
        "28000"@,
        "administrative console is disabled on this server"@,
        None,
    )
}

/// What a client is told that does not know the password.
pub open spec fn login_error() -> Seq<u8> {
    wire::error_response("FATAL"@, "28P01"@, "admin authentication failed"@, None)
}

/// The request for a password in clear text.
pub open spec fn password_request() -> Seq<u8> {
    wire::message(wire::TAG_AUTHENTICATION, seq![0u8, 0u8, 0u8, 3u8])
}

/// What a client is told that is authenticated.
pub open spec fn authenticated() -> Seq<u8> {
    wire::message(wire::TAG_AUTHENTICATION, seq![0u8, 0u8, 0u8, 0u8])
}

/// What a client is told that is let in: that it is authenticated, and that the
/// console is ready.
pub open spec fn welcome() -> Seq<u8> {
    authenticated() + connection::ready_message(TransactionState::Idle)
}

/// What a client is told that is authenticated.
pub fn authentication_ok() -> (r: Vec<u8>)
    ensures
        r@ == authenticated(),
{
    let body: [u8; 4] = [0, 0, 0, 0];
    assert(body@ =~= seq![0u8, 0u8, 0u8, 0u8]);
    wire::build_message(wire::TAG_AUTHENTICATION, &body)
}

/// The password that opens the console.
fn key_of(config: &AdminConfig) -> (r: Option<&str>)
    ensures
        match r {
            Some(p) => key(*config) == Some(p@),
            None => key(*config) is None,
        },
{
    match &config.admin_password {
        Some(p) => {
            if config.enabled && p.as_str().unicode_len() > 0 {
                Some(p.as_str())
            } else {
                None
            }
        },
        None => None,
    }
}

/// What is sent to a client that comes to the console: a request for its
/// password, or an error that ends the connection.
#[derive(Debug)]
pub enum AdminGreeting {
    AskPassword(Vec<u8>),
    Refuse(Vec<u8>),
}

/// What is sent to a client that comes to the console.
pub fn admin_greeting(config: &AdminConfig) -> (r: AdminGreeting)
    ensures
        match r {
            AdminGreeting::AskPassword(b) => key(*config) is Some && b@ == password_request(),
            AdminGreeting::Refuse(b) => key(*config) is None && b@ == disabled_error(),
        },
{
    if key_of(config).is_some() {
        let body: [u8; 4] = [0, 0, 0, 3];
        assert(body@ =~= seq![0u8, 0u8, 0u8, 3u8]);
        AdminGreeting::AskPassword(wire::build_message(wire::TAG_AUTHENTICATION, &body))
    } else {
        AdminGreeting::Refuse(
            wire::build_error(
                "FATAL",
                "28000",
                "administrative console is disabled on this server",
                None,
            ),
        )
    }
}

/// What is sent to a client after its password came: a welcome, or an error
/// that ends the connection.
#[derive(Debug)]
pub enum AdminLogin {
    Welcome(Vec<u8>),
    Refuse(Vec<u8>),
}

/// Whether a client that gave the password `provided`, or none, is let in.
pub open spec fn lets_in(config: AdminConfig, provided: Option<Seq<char>>) -> bool {
    key(config) is Some && provided == key(config)
}

/// What is sent to a client that gave the password `provided`, or none.
pub fn admin_login(config: &AdminConfig, provided: Option<&str>) -> (r: AdminLogin)
    ensures
        ({
            let given: Option<Seq<char>> = match provided {
                Some(p) => Some(p@),
                None => None,
            };
            match r {
                AdminLogin::Welcome(b) => lets_in(*config, given) && b@ == welcome(),
                AdminLogin::Refuse(b) => !lets_in(*config, given) && b@ == (if key(
                    *config,
                ) is None {
                    disabled_error()
                } else {
                    login_error()
                }),
            }
        }),
{
    let expected: &str = match key_of(config) {
        Some(p) => p,
        None => {
            return AdminLogin::Refuse(
                wire::build_error(
                    "FATAL",
                    "28000",
                    "administrative console is disabled on this server",
                    None,
                ),
            );
        },
    };
    let known: bool = match provided {
        Some(p) => {
            proof {
                vstd::utf8::encode_utf8_decode_utf8(p@);
                vstd::utf8::encode_utf8_decode_utf8(expected@);
            }
            constant_time_eq(p.as_bytes(), expected.as_bytes())
        },
        None => false,
    };
    if known {
        let mut out = authentication_ok();
        let ready = ConnectionHandler::build_ready_for_query(TransactionState::Idle);
        out.extend_from_slice(ready.as_slice());
        assert(out@ =~= welcome());
        AdminLogin::Welcome(out)
    } else {
        AdminLogin::Refuse(
            wire::build_error("FATAL", "28P01", "admin authentication failed", None),
        )
    }
}

/// The number that a message gives as its length.
pub open spec fn stated_length(data: Seq<u8>) -> int {
    wire::be32_at(data, 1)
}

/// Whether `data` starts with the head of a Query message.
pub open spec fn is_query_head(data: Seq<u8>) -> bool {
    data.len() >= 5 && data[0] == wire::TAG_QUERY
}

/// Whether `data` holds a whole Query message.
pub open spec fn is_query(data: Seq<u8>) -> bool {
    is_query_head(data) && 5 <= stated_length(data) < 0x8000_0000 && data.len() > stated_length(
        data,
    )
}

/// Whether `data` starts with a Query message whose length leaves no room for
/// a command.
pub open spec fn is_malformed(data: Seq<u8>) -> bool {
    is_query_head(data) && stated_length(data) < 5
}

/// The command in a Query message: what follows the length, without the zero
/// byte at the end.
pub open spec fn query_bytes(data: Seq<u8>) -> Seq<u8> {
    data.subrange(5, stated_length(data))
}

/// What the client of the console sent.
#[derive(Debug)]
pub enum AdminFrame {
    /// Nothing: it has closed the connection.
    Closed,
    /// That it leaves.
    Terminate,
    /// A command.
    Query(Vec<u8>),
    /// A command whose length cannot be right.
    Malformed,
    /// Something that the console does not answer.
    Ignored,
}

/// What the client of the console sent when `data` was read from it.
pub fn admin_frame(data: &[u8]) -> (r: AdminFrame)
    ensures
        match r {
            AdminFrame::Closed => data@.len() == 0,
            AdminFrame::Terminate => data@.len() > 0 && data@[0] == TAG_TERMINATE,
            AdminFrame::Query(q) => is_query(data@) && q@ == query_bytes(data@),
            AdminFrame::Malformed => is_malformed(data@),
            AdminFrame::Ignored => data@.len() > 0 && data@[0] != TAG_TERMINATE && !is_query(data@)
                && !is_malformed(data@),
        },
{
    let n: usize = data.len();
    if n == 0 {
        return AdminFrame::Closed;
    }
    if data[0] == TAG_TERMINATE {
        return AdminFrame::Terminate;
    }
    if data[0] != wire::TAG_QUERY || n < 5 {
        return AdminFrame::Ignored;
    }
    let length: u32 = wire::read_be32(data, 1);
    if length < 5 {
        return AdminFrame::Malformed;
    }
    if length >= 0x8000_0000 || n <= length as usize {
        return AdminFrame::Ignored;
    }
    let mut q: Vec<u8> = Vec::new();
    let end: usize = length as usize;
    let mut i: usize = 5;
    while i < end
        invariant
            5 <= i <= end,
            end < data@.len(),
            q@ == data@.subrange(5, i as int),
        decreases end - i,
    {
        q.push(data[i]);
        i += 1;
        assert(q@ =~= data@.subrange(5, i as int));
    }
    AdminFrame::Query(q)
}

/// The text that `String::from_utf8_lossy` makes of bytes.
pub uninterp spec fn lossy_utf8(bytes: Seq<u8>) -> Seq<char>;

/// `String::from_utf8_lossy` reads bytes as UTF-8. Bytes that are UTF-8 are
/// read as the text that they write; in others, what cannot be read is
/// replaced. The text depends on the bytes alone.
#[verifier::external_body]
fn text_of(bytes: &[u8]) -> (r: String)
    ensures
        r@ == lossy_utf8(bytes@),
        vstd::utf8::valid_utf8(bytes@) ==> r@ == vstd::utf8::decode_utf8(bytes@),
{
    String::from_utf8_lossy(bytes).into_owned()
}

/// What the client of the console wants.
#[derive(Debug)]
pub enum AdminRequest {
    /// To leave, or it has left.
    Leave,
    /// To have a command done.
    Execute(String),
    /// What cannot be understood.
    Malformed,
    /// Nothing that is answered.
    Ignore,
}

/// What the client wants that sent `frame`.
pub fn admin_wants(frame: AdminFrame) -> (r: AdminRequest)
    ensures
        match frame {
            AdminFrame::Closed | AdminFrame::Terminate => r is Leave,
            AdminFrame::Query(q) => r matches AdminRequest::Execute(t) && t@ == lossy_utf8(q@) && (
            vstd::utf8::valid_utf8(q@) ==> t@ == vstd::utf8::decode_utf8(q@)),
            AdminFrame::Malformed => r is Malformed,
            AdminFrame::Ignored => r is Ignore,
        },
{
    match frame {
        AdminFrame::Closed => AdminRequest::Leave,
        AdminFrame::Terminate => AdminRequest::Leave,
        AdminFrame::Query(q) => AdminRequest::Execute(text_of(q.as_slice())),
        AdminFrame::Malformed => AdminRequest::Malformed,
        AdminFrame::Ignored => AdminRequest::Ignore,
    }
}

/// Whatever password a client gives, a console that is not enabled, or that
/// has no password, lets no one in.
pub proof fn law_console_fails_closed(config: AdminConfig, provided: Option<Seq<char>>)
    ensures
        !config.enabled ==> !lets_in(config, provided),
        config.admin_password is None ==> !lets_in(config, provided),
        config.admin_password is Some && config.admin_password->0@.len() == 0 ==> !lets_in(
            config,
            provided,
        ),
        provided is None ==> !lets_in(config, provided),
{
}

/// A command that is sent to the console in a Query message is read there as
/// it was written.
pub proof fn law_command_reads_back(command: Seq<char>)
    requires
        wire::utf8(command).len() + 5 < 0x8000_0000,
    ensures
        is_query(state_replayer::query_message(command)),
        query_bytes(state_replayer::query_message(command)) == wire::utf8(command),
        vstd::utf8::valid_utf8(query_bytes(state_replayer::query_message(command))),
        vstd::utf8::decode_utf8(query_bytes(state_replayer::query_message(command))) == command,
{
    let body = wire::utf8(command) + seq![0u8];
    let m = state_replayer::query_message(command);
    wire::lemma_message_length(wire::TAG_QUERY, body);
    vstd::utf8::encode_utf8_valid_utf8(command);
    vstd::utf8::encode_utf8_decode_utf8(command);
    assert(query_bytes(m) =~= wire::utf8(command)) by {
        let rest = m.subrange(5, m.len() as int);
        assert(rest == body);
        assert(query_bytes(m) =~= rest.subrange(0, rest.len() - 1));
        assert(rest.subrange(0, rest.len() - 1) =~= wire::utf8(command));
    }
}

/// A client is let in exactly where the console is enabled and has a password
/// that is not empty, and that password is the one that it gives.
pub proof fn law_only_the_password_opens(config: AdminConfig, provided: Seq<char>)
    ensures
        lets_in(config, Some(provided)) <==> {
            &&& config.enabled
            &&& config.admin_password matches Some(p)
            &&& p@.len() > 0
            &&& p@ == provided
        },
        key(config) is Some ==> lets_in(config, key(config)),
{
}

/// What follows a Query message does not change how it is read.
pub proof fn law_query_ends_where_it_says(data: Seq<u8>, more: Seq<u8>)
    requires
        is_query(data),
    ensures
        is_query(data + more),
        query_bytes(data + more) == query_bytes(data),
        !is_malformed(data + more),
{
    let d = data + more;
    assert(d[0] == data[0]);
    assert(d[1] == data[1] && d[2] == data[2] && d[3] == data[3] && d[4] == data[4]);
    assert(query_bytes(d) =~= query_bytes(data));
}

/// A Query message is whole exactly where it is there up to the end that it
/// states, and malformed where that end leaves no room for a command.
pub proof fn law_what_a_query_is(data: Seq<u8>)
    requires
        data.len() >= 5,
    ensures
        data[0] == 0x51 && wire::be32_at(data, 1) < 5 ==> is_malformed(data) && !is_query(data),
        data[0] == 0x51 && 5 <= wire::be32_at(data, 1) < 0x8000_0000 ==> !is_malformed(data) && (
        is_query(data) <==> data.len() >= wire::be32_at(data, 1) + 1),
        data[0] != 0x51 ==> !is_query(data) && !is_malformed(data),
{
}

/// The console asks for a password in clear text, and welcomes a client that
/// knows it as authenticated and with a session that is idle.
pub proof fn law_what_the_console_says()
    ensures
        password_request() == seq![0x52u8, 0u8, 0u8, 0u8, 8u8, 0u8, 0u8, 0u8, 3u8],
        welcome() == seq![0x52u8, 0u8, 0u8, 0u8, 8u8, 0u8, 0u8, 0u8, 0u8] + seq![
            0x5au8,
            0u8,
            0u8,
            0u8,
            5u8,
            0x49u8,
        ],
{
    wire::lemma_message_length(wire::TAG_AUTHENTICATION, seq![0u8, 0u8, 0u8, 3u8]);
    assert(password_request() =~= seq![0x52u8, 0u8, 0u8, 0u8, 8u8, 0u8, 0u8, 0u8, 3u8]);
    assert(authenticated() =~= seq![0x52u8, 0u8, 0u8, 0u8, 8u8, 0u8, 0u8, 0u8, 0u8]);
    assert(connection::ready_message(TransactionState::Idle) =~= seq![
        0x5au8,
        0u8,
        0u8,
        0u8,
        5u8,
        0x49u8,
    ]);
}

/// A client is welcomed exactly where it gives the password of a console that is
/// enabled and has one.
pub proof fn law_login_needs_the_password(
    config: &AdminConfig,
    provided: Option<&str>,
    r: AdminLogin,
)
    requires
        call_ensures(admin_login, (config, provided), r),
    ensures
        r is Welcome <==> {
            &&& config.enabled
            &&& config.admin_password matches Some(p)
            &&& p@.len() > 0
            &&& provided matches Some(q)
            &&& q@ == p@
        },
{
}

/// A client that has closed its connection, or says that it leaves, leaves; a
/// command that it sends is what is done.
pub proof fn law_what_the_client_of_the_console_wants(
    data: &[u8],
    frame: AdminFrame,
    r: AdminRequest,
    command: Seq<char>,
)
    requires
        call_ensures(admin_frame, (data,), frame),
        call_ensures(admin_wants, (frame,), r),
        wire::utf8(command).len() + 5 < 0x8000_0000,
    ensures
        r is Leave <==> data@.len() == 0 || data@[0] == 0x58,
        data@ == state_replayer::query_message(command) ==> (r matches AdminRequest::Execute(t)
            && t@ == command),
        r is Malformed ==> data@.len() >= 5 && data@[0] == 0x51 && wire::be32_at(data@, 1) < 5,
{
    law_command_reads_back(command);
    let m = state_replayer::query_message(command);
    wire::lemma_message_length(wire::TAG_QUERY, wire::utf8(command) + seq![0u8]);
    assert(m[0] == 0x51);
}

} // verus!
