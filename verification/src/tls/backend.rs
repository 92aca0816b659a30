//! How a connection to a backend begins: with or without TLS.
use crate::config::TlsSslMode;
use crate::protocol::wire;
use crate::tls::startup;
use vstd::prelude::*;
use vstd::string::*;

verus! {

/// The message that asks a backend for TLS.
pub const SSL_REQUEST: [u8; 8] = [0, 0, 0, 8, 0x04, 0xd2, 0x16, 0x2f];

/// What a backend connection becomes.
#[derive(Debug)]
pub enum BackendSsl {
    /// It goes on with TLS.
    Upgrade,
    /// It goes on without TLS.
    Plain,
    /// It fails, with this error.
    Fail(String),
}

/// What a backend connection becomes, errors aside.
pub enum BackendKind {
    Upgrade,
    Plain,
    Fail,
}

impl BackendSsl {
    /// What the connection becomes, errors aside.
    pub open spec fn kind(&self) -> BackendKind {
        match *self {
            BackendSsl::Upgrade => BackendKind::Upgrade,
            BackendSsl::Plain => BackendKind::Plain,
            BackendSsl::Fail(_) => BackendKind::Fail,
        }
    }
}

/// What a connection becomes when the backend answers `response`, when `named`
/// says whether the backend's name can be verified.
pub open spec fn backend_kind(
    sslmode: TlsSslMode,
    response: u8,
    configured: bool,
    named: bool,
) -> BackendKind {
    if sslmode == TlsSslMode::Disable {
        BackendKind::Plain
    } else if response == startup::SSL_RESPONSE_YES && configured && named {
        BackendKind::Upgrade
    } else if response == startup::SSL_RESPONSE_NO && sslmode == TlsSslMode::Allow {
        BackendKind::Plain
    } else {
        BackendKind::Fail
    }
}

/// The error of a connection that fails when the backend answers `response`.
pub open spec fn backend_error(
    hostname: Seq<char>,
    sslmode: TlsSslMode,
    response: u8,
    configured: bool,
) -> Seq<char> {
    if response == startup::SSL_RESPONSE_YES && !configured {
        "TLS config required but not provided for sslmode "@ + mode_name(sslmode)
    } else if response == startup::SSL_RESPONSE_YES {
        "Invalid hostname for TLS: "@ + hostname
    } else if response == startup::SSL_RESPONSE_NO {
        "Backend does not support SSL but configuration requires it"@
    } else {
        "Unexpected SSL response from backend: "@.push(response as char)
            + " (expected 'S' or 'N')"@
    }
}

/// The name of a mode.
pub open spec fn mode_name(mode: TlsSslMode) -> Seq<char> {
    match mode {
        TlsSslMode::Disable => "Disable"@,
        TlsSslMode::Allow => "Allow"@,
        TlsSslMode::Require => "Require"@,
        TlsSslMode::VerifyCa => "VerifyCa"@,
        TlsSslMode::VerifyFull => "VerifyFull"@,
    }
}

/// The name of a mode.
fn name_of(mode: TlsSslMode) -> (r: &'static str)
    ensures
        r@ == mode_name(mode),
{
    match mode {
        TlsSslMode::Disable => "Disable",
        TlsSslMode::Allow => "Allow",
        TlsSslMode::Require => "Require",
        TlsSslMode::VerifyCa => "VerifyCa",
        TlsSslMode::VerifyFull => "VerifyFull",
    }
}

/// Whether a backend is asked for TLS.
pub fn asks_backend(sslmode: TlsSslMode) -> (r: bool)
    ensures
        r == (sslmode != TlsSslMode::Disable),
{
    sslmode != TlsSslMode::Disable
}

/// Whether `rustls::pki_types::ServerName` can be made from a text.
pub uninterp spec fn is_server_name(hostname: Seq<char>) -> bool;

/// `rustls::pki_types::ServerName::try_from` succeeds where a text is a DNS name
/// or an IP address. Whether it does depends on the text alone.
#[verifier::external_body]
fn names_server(hostname: &str) -> (r: bool)
    ensures
        r == is_server_name(hostname@),
{
    rustls::pki_types::ServerName::try_from(hostname.to_string()).is_ok()
}

/// What a connection becomes when the backend at `hostname` answers `response`
/// to the question for TLS, when `configured` says whether TLS is set up. Where
/// TLS is disabled, it goes on without it whatever the backend says.
pub fn negotiate_backend_ssl(
    hostname: &str,
    sslmode: TlsSslMode,
    response: u8,
    configured: bool,
) -> (r: BackendSsl)
    ensures
        r.kind() == backend_kind(sslmode, response, configured, is_server_name(hostname@)),
        r matches BackendSsl::Fail(m) ==> m@ == backend_error(
            hostname@,
            sslmode,
            response,
            configured,
        ),
{
    backend_answered(hostname, sslmode, response, configured, names_server(hostname))
}

/// What a connection becomes when the backend at `hostname` answers `response`,
/// when `named` says whether that is a name that can be verified.
pub fn backend_answered(
    hostname: &str,
    sslmode: TlsSslMode,
    response: u8,
    configured: bool,
    named: bool,
) -> (r: BackendSsl)
    ensures
        r.kind() == backend_kind(sslmode, response, configured, named),
        r matches BackendSsl::Fail(m) ==> m@ == backend_error(
            hostname@,
            sslmode,
            response,
            configured,
        ),
{
    if sslmode == TlsSslMode::Disable {
        BackendSsl::Plain
    } else if response == startup::SSL_RESPONSE_YES {
        if !configured {
            let mut m = "TLS config required but not provided for sslmode ".to_owned();
            m.append(name_of(sslmode));
            BackendSsl::Fail(m)
        } else if named {
            BackendSsl::Upgrade
        } else {
            let mut m = "Invalid hostname for TLS: ".to_owned();
            m.append(hostname);
            BackendSsl::Fail(m)
        }
    } else if response == startup::SSL_RESPONSE_NO {
        if sslmode == TlsSslMode::Allow {
            BackendSsl::Plain
        } else {
            BackendSsl::Fail(
                "Backend does not support SSL but configuration requires it".to_owned(),
            )
        }
    } else {
        let mut m = "Unexpected SSL response from backend: ".to_owned();
        m.push(response as char);
        m.append(" (expected 'S' or 'N')");
        BackendSsl::Fail(m)
    }
}

/// The message that asks a backend for TLS is one that asks the proxy for TLS.
pub proof fn law_request_is_recognized()
    ensures
        startup::asks_for_tls(SSL_REQUEST@),
{
}

/// Where TLS is disabled, a connection to a backend goes on without it, whatever
/// the backend says.
pub proof fn law_disabled_tls_is_plain(response: u8, configured: bool, named: bool)
    ensures
        backend_kind(TlsSslMode::Disable, response, configured, named) is Plain,
{
}

/// Where TLS is required, no connection to a backend goes on without it,
/// whatever the backend answers.
pub proof fn law_required_tls_is_never_plain(
    sslmode: TlsSslMode,
    response: u8,
    configured: bool,
    named: bool,
)
    requires
        sslmode.demands_tls(),
    ensures
        backend_kind(sslmode, response, configured, named) !is Plain,
{
}

/// A connection to a backend goes on with TLS exactly where TLS is not disabled,
/// the backend agrees, TLS is set up and the backend's name can be verified; it
/// goes on without TLS where TLS is disabled, or where the backend declines and
/// TLS is merely allowed. Otherwise it fails.
pub proof fn law_how_backends_are_reached(
    sslmode: TlsSslMode,
    response: u8,
    configured: bool,
    named: bool,
)
    ensures
        backend_kind(sslmode, response, configured, named) is Upgrade <==> sslmode
            != TlsSslMode::Disable && response == 0x53 && configured && named,
        backend_kind(sslmode, response, configured, named) is Plain <==> sslmode
            == TlsSslMode::Disable || (sslmode == TlsSslMode::Allow && response == 0x4e),
{
}

/// The error of a connection that fails tells the causes apart.
pub proof fn law_backend_errors_say_why(
    hostname: Seq<char>,
    sslmode: TlsSslMode,
    response: u8,
    configured: bool,
)
    ensures
        response == 0x53 && configured ==> backend_error(hostname, sslmode, response, configured)
            == "Invalid hostname for TLS: "@ + hostname,
        response == 0x53 && !configured ==> backend_error(hostname, sslmode, response, configured)
            == "TLS config required but not provided for sslmode "@ + mode_name(sslmode),
        response == 0x4e ==> backend_error(hostname, sslmode, response, configured)
            == "Backend does not support SSL but configuration requires it"@,
        response != 0x53 && response != 0x4e ==> backend_error(
            hostname,
            sslmode,
            response,
            configured,
        ) == "Unexpected SSL response from backend: "@ + seq![response as char]
            + " (expected 'S' or 'N')"@,
{
    assert("Unexpected SSL response from backend: "@.push(response as char)
        =~= "Unexpected SSL response from backend: "@ + seq![response as char]);
}

} // verus!
