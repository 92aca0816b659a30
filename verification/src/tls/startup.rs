//! How a client's connection begins: with or without TLS.
use crate::config::TlsSslMode;
use crate::protocol::wire;
use vstd::prelude::*;

verus! {

/// The code in a message that asks for TLS.
pub const SSL_REQUEST_CODE: i32 = 80877103;

/// The answer that agrees to TLS: `S`.
pub const SSL_RESPONSE_YES: u8 = 0x53;

/// The answer that declines TLS: `N`.
pub const SSL_RESPONSE_NO: u8 = 0x4e;

/// Whether `data` begins with a message that asks for TLS: the length 8 and the code.
pub open spec fn asks_for_tls(data: Seq<u8>) -> bool {
    data.len() >= 8 && wire::be32_at(data, 0) == 8 && wire::be32_at(data, 4) == SSL_REQUEST_CODE
}

/// Whether `data` begins with a message that asks for TLS.
pub fn is_ssl_request(data: &[u8]) -> (r: bool)
    ensures
        r == asks_for_tls(data@),
{
    if data.len() < 8 {
        return false;
    }
    wire::read_be32(data, 0) == 8 && wire::read_be32(data, 4) == SSL_REQUEST_CODE as u32
}

/// What is to be done about a client's first message.
#[derive(Debug)]
pub enum SslStartup {
    /// It is the startup message, and the client is served without TLS.
    Plain,
    /// TLS is declined; the startup message follows without TLS.
    Decline,
    /// TLS is agreed to; the startup message follows with TLS.
    Upgrade,
    /// The client did not ask for TLS, which is required: it gets these bytes,
    /// and the connection is closed.
    Reject(Vec<u8>),
    /// TLS is required but not set up: it is declined, and the connection fails.
    NotConfigured,
}

/// What is to be done about a client's first message, bytes aside.
pub enum StartupKind {
    Plain,
    Decline,
    Upgrade,
    Reject,
    NotConfigured,
}

impl SslStartup {
    /// What is to be done, bytes aside.
    pub open spec fn kind(&self) -> StartupKind {
        match *self {
            SslStartup::Plain => StartupKind::Plain,
            SslStartup::Decline => StartupKind::Decline,
            SslStartup::Upgrade => StartupKind::Upgrade,
            SslStartup::Reject(_) => StartupKind::Reject,
            SslStartup::NotConfigured => StartupKind::NotConfigured,
        }
    }
}

/// What is to be done about a client's first message `first`, when `configured`
/// says whether TLS is set up.
pub open spec fn startup_kind(
    first: Seq<u8>,
    sslmode: TlsSslMode,
    configured: bool,
) -> StartupKind {
    if !asks_for_tls(first) {
        if sslmode.demands_tls() {
            StartupKind::Reject
        } else {
            StartupKind::Plain
        }
    } else if sslmode == TlsSslMode::Disable {
        StartupKind::Decline
    } else if configured {
        StartupKind::Upgrade
    } else if sslmode == TlsSslMode::Allow {
        StartupKind::Decline
    } else {
        StartupKind::NotConfigured
    }
}

/// What a client is told that did not ask for TLS where it is required.
pub open spec fn tls_required_error() -> Seq<u8> {
    wire::error_response("FATAL"@, "28000"@, "SSL connection is required"@, None)
}

/// What is to be done about a client's first message `first`, when `configured`
/// says whether TLS is set up.
pub fn handle_ssl_startup(first: &[u8], sslmode: TlsSslMode, configured: bool) -> (r: SslStartup)
    ensures
        r.kind() == startup_kind(first@, sslmode, configured),
        r matches SslStartup::Reject(b) ==> b@ == tls_required_error(),
{
    let demanded = match sslmode {
        TlsSslMode::Disable | TlsSslMode::Allow => false,
        TlsSslMode::Require | TlsSslMode::VerifyCa | TlsSslMode::VerifyFull => true,
    };
    if !is_ssl_request(first) {
        if demanded {
            SslStartup::Reject(
                wire::build_error("FATAL", "28000", "SSL connection is required", None),
            )
        } else {
            SslStartup::Plain
        }
    } else if sslmode == TlsSslMode::Disable {
        SslStartup::Decline
    } else if configured {
        SslStartup::Upgrade
    } else if demanded {
        SslStartup::NotConfigured
    } else {
        SslStartup::Decline
    }
}

/// Where TLS is required, no client is served without it, whatever it sends.
pub proof fn law_required_tls_is_never_plain(
    first: Seq<u8>,
    sslmode: TlsSslMode,
    configured: bool,
)
    requires
        sslmode.demands_tls(),
    ensures
        startup_kind(first, sslmode, configured) !is Plain,
        startup_kind(first, sslmode, configured) !is Decline,
{
}

/// A client that asks for TLS gets it wherever it is set up and not disabled,
/// and where TLS is disabled every client is served without it.
pub proof fn law_tls_is_given_where_it_is_set_up(first: Seq<u8>, sslmode: TlsSslMode)
    ensures
        asks_for_tls(first) && sslmode != TlsSslMode::Disable ==> startup_kind(first, sslmode, true)
            == StartupKind::Upgrade,
        startup_kind(first, TlsSslMode::Disable, true) is Plain || startup_kind(
            first,
            TlsSslMode::Disable,
            true,
        ) is Decline,
{
}

/// A client asks for TLS exactly with the eight bytes that are reserved for it.
pub proof fn law_what_asks_for_tls(data: Seq<u8>)
    ensures
        asks_for_tls(data) <==> data.len() >= 8 && data.take(8) == seq![
            0u8,
            0u8,
            0u8,
            8u8,
            0x04u8,
            0xd2u8,
            0x16u8,
            0x2fu8,
        ],
{
    let request = seq![0u8, 0u8, 0u8, 8u8, 0x04u8, 0xd2u8, 0x16u8, 0x2fu8];
    if data.len() >= 8 {
        let head = data.take(8);
        if asks_for_tls(data) {
            assert(data[0] == 0 && data[1] == 0 && data[2] == 0 && data[3] == 8);
            assert(data[4] == 0x04 && data[5] == 0xd2 && data[6] == 0x16 && data[7] == 0x2f);
            assert(head =~= request);
        }
        if head == request {
            assert(forall|k: int| 0 <= k < 8 ==> #[trigger] head[k] == data[k]);
            assert(head[0] == 0 && head[1] == 0 && head[2] == 0 && head[3] == 8);
            assert(head[4] == 0x04 && head[5] == 0xd2 && head[6] == 0x16 && head[7] == 0x2f);
        }
    }
}

/// A client that does not ask for TLS is served without it where it may be, and
/// else rejected; one that asks is declined where TLS is disabled, or allowed
/// and not set up, and the connection fails where it is required and not set up.
pub proof fn law_how_clients_begin(first: Seq<u8>, sslmode: TlsSslMode, configured: bool)
    ensures
        !asks_for_tls(first) ==> startup_kind(first, sslmode, configured) == match sslmode {
            TlsSslMode::Disable | TlsSslMode::Allow => StartupKind::Plain,
            _ => StartupKind::Reject,
        },
        asks_for_tls(first) ==> startup_kind(first, sslmode, configured) == match sslmode {
            TlsSslMode::Disable => StartupKind::Decline,
            TlsSslMode::Allow => if configured {
                StartupKind::Upgrade
            } else {
                StartupKind::Decline
            },
            _ => if configured {
                StartupKind::Upgrade
            } else {
                StartupKind::NotConfigured
            },
        },
{
}

/// Where TLS is required, a client that does not ask for it is told so and not
/// served.
pub proof fn law_client_without_tls_is_told(
    first: &[u8],
    sslmode: TlsSslMode,
    configured: bool,
    r: SslStartup,
)
    requires
        call_ensures(handle_ssl_startup, (first, sslmode, configured), r),
    ensures
        r is Reject <==> !asks_for_tls(first@) && sslmode != TlsSslMode::Disable && sslmode
            != TlsSslMode::Allow,
        r matches SslStartup::Reject(b) ==> b@ == tls_required_error(),
        r is Upgrade <==> asks_for_tls(first@) && sslmode != TlsSslMode::Disable && configured,
{
}

} // verus!
