//! What TLS is set up from.
use crate::config::{TlsConfig, TlsSslMode};
use vstd::prelude::*;
use vstd::string::*;

verus! {

/// Why TLS could not be set up.
#[derive(Debug)]
pub enum TlsError {
    CertificateNotConfigured,
    KeyNotConfigured,
    CertificateReadError(String),
    KeyReadError(String),
    NoCertificatesFound(String),
    NoPrivateKeyFound(String),
    ConfigBuildError(String),
    CaReadError(String),
}

impl TlsError {
    /// The error as a text.
    pub fn message(&self) -> (r: String)
        ensures
            r@ == match *self {
                TlsError::CertificateNotConfigured =>
                    "TLS certificate file required but not configured"@,
                TlsError::KeyNotConfigured => "TLS key file required but not configured"@,
                TlsError::CertificateReadError(e) => "Failed to read certificate file: "@ + e@,
                TlsError::KeyReadError(e) => "Failed to read key file: "@ + e@,
                TlsError::NoCertificatesFound(p) => "No certificates found in file: "@ + p@,
                TlsError::NoPrivateKeyFound(p) => "No private key found in file: "@ + p@,
                TlsError::ConfigBuildError(e) => "Failed to build TLS config: "@ + e@,
                TlsError::CaReadError(e) => "Failed to read CA file: "@ + e@,
            },
    {
        let (intro, detail): (&str, &str) = match self {
            TlsError::CertificateNotConfigured => {
                return "TLS certificate file required but not configured".to_owned();
            },
            TlsError::KeyNotConfigured => {
                return "TLS key file required but not configured".to_owned();
            },
            TlsError::CertificateReadError(e) => ("Failed to read certificate file: ", e.as_str()),
            TlsError::KeyReadError(e) => ("Failed to read key file: ", e.as_str()),
            TlsError::NoCertificatesFound(p) => ("No certificates found in file: ", p.as_str()),
            TlsError::NoPrivateKeyFound(p) => ("No private key found in file: ", p.as_str()),
            TlsError::ConfigBuildError(e) => ("Failed to build TLS config: ", e.as_str()),
            TlsError::CaReadError(e) => ("Failed to read CA file: ", e.as_str()),
        };
        let mut m = intro.to_owned();
        m.append(detail);
        m
    }
}

/// The files from which TLS towards clients is set up.
#[derive(Debug)]
pub struct ClientTlsFiles {
    pub cert_file: String,
    pub key_file: String,
    /// Whose certificates clients have to show, if any.
    pub ca_file: Option<String>,
}

/// The files from which TLS towards clients is set up; none where TLS is
/// disabled.
pub fn client_tls_files(config: &TlsConfig) -> (r: Result<Option<ClientTlsFiles>, TlsError>)
    ensures
        r == client_files(*config),
{
    match config.client_tls_sslmode {
        TlsSslMode::Disable => Ok(None),
        TlsSslMode::Allow
        | TlsSslMode::Require
        | TlsSslMode::VerifyCa
        | TlsSslMode::VerifyFull => {
            let cert_file = match &config.client_tls_cert_file {
                Some(f) => f.clone(),
                None => {
                    return Err(TlsError::CertificateNotConfigured);
                },
            };
            let key_file = match &config.client_tls_key_file {
                Some(f) => f.clone(),
                None => {
                    return Err(TlsError::KeyNotConfigured);
                },
            };
            let ca_file = match config.client_tls_sslmode {
                TlsSslMode::VerifyCa | TlsSslMode::VerifyFull => match &config.client_tls_ca_file {
                    Some(f) => Some(f.clone()),
                    None => {
                        return Err(TlsError::CertificateNotConfigured);
                    },
                },
                _ => None,
            };
            Ok(Some(ClientTlsFiles { cert_file, key_file, ca_file }))
        },
    }
}

/// Whether the certificate of the other side is verified.
pub open spec fn verifies(mode: TlsSslMode) -> bool {
    mode == TlsSslMode::VerifyCa || mode == TlsSslMode::VerifyFull
}

/// The files from which TLS towards clients is set up.
pub open spec fn client_files(config: TlsConfig) -> Result<Option<ClientTlsFiles>, TlsError> {
    let mode = config.client_tls_sslmode;
    if mode == TlsSslMode::Disable {
        Ok(None)
    } else if config.client_tls_cert_file is None {
        Err(TlsError::CertificateNotConfigured)
    } else if config.client_tls_key_file is None {
        Err(TlsError::KeyNotConfigured)
    } else if verifies(mode) && config.client_tls_ca_file is None {
        Err(TlsError::CertificateNotConfigured)
    } else {
        Ok(
            Some(
                ClientTlsFiles {
                    cert_file: config.client_tls_cert_file->0,
                    key_file: config.client_tls_key_file->0,
                    ca_file: if verifies(mode) {
                        config.client_tls_ca_file
                    } else {
                        None
                    },
                },
            ),
        )
    }
}

/// How backends are believed.
#[derive(Debug)]
pub enum BackendTrust {
    /// Without looking at their certificate.
    Anything,
    /// With a certificate of these authorities.
    Authorities(String),
    /// With a certificate of the authorities that everyone believes.
    CommonAuthorities,
}

/// From what TLS towards backends is set up.
#[derive(Debug)]
pub struct ServerTlsFiles {
    pub trust: BackendTrust,
    /// Whether the certificate has to be for the host that is connected to.
    pub checks_hostname: bool,
    /// The certificate and key that the proxy shows, if any.
    pub client_auth: Option<(String, String)>,
}

/// Whether a backend's certificate has to be for the host that is connected to.
pub fn checks_hostname(mode: TlsSslMode) -> (r: bool)
    ensures
        r == (mode == TlsSslMode::VerifyFull),
{
    mode == TlsSslMode::VerifyFull
}

/// From what TLS towards backends is set up.
pub open spec fn server_files(config: TlsConfig) -> Option<ServerTlsFiles> {
    let mode = config.server_tls_sslmode;
    if mode == TlsSslMode::Disable {
        None
    } else if !verifies(mode) {
        Some(
            ServerTlsFiles {
                trust: BackendTrust::Anything,
                checks_hostname: false,
                client_auth: None,
            },
        )
    } else {
        Some(
            ServerTlsFiles {
                trust: match config.server_tls_ca_file {
                    Some(f) => BackendTrust::Authorities(f),
                    None => BackendTrust::CommonAuthorities,
                },
                checks_hostname: mode == TlsSslMode::VerifyFull,
                client_auth: match (config.server_tls_cert_file, config.server_tls_key_file) {
                    (Some(c), Some(k)) => Some((c, k)),
                    _ => None,
                },
            },
        )
    }
}

/// From what TLS towards backends is set up; none where TLS is disabled.
pub fn server_tls_files(config: &TlsConfig) -> (r: Option<ServerTlsFiles>)
    ensures
        r == server_files(*config),
{
    match config.server_tls_sslmode {
        TlsSslMode::Disable => None,
        TlsSslMode::Allow | TlsSslMode::Require => Some(
            ServerTlsFiles {
                trust: BackendTrust::Anything,
                checks_hostname: false,
                client_auth: None,
            },
        ),
        TlsSslMode::VerifyCa | TlsSslMode::VerifyFull => {
            let trust = match &config.server_tls_ca_file {
                Some(f) => BackendTrust::Authorities(f.clone()),
                None => BackendTrust::CommonAuthorities,
            };
            let client_auth = match (&config.server_tls_cert_file, &config.server_tls_key_file) {
                (Some(c), Some(k)) => Some((c.clone(), k.clone())),
                _ => None,
            };
            Some(
                ServerTlsFiles {
                    trust,
                    checks_hostname: checks_hostname(config.server_tls_sslmode),
                    client_auth,
                },
            )
        },
    }
}

/// Bytes over sequences, where there are any.
pub open spec fn sections_view(v: Seq<Option<Vec<u8>>>) -> Seq<Option<Seq<u8>>> {
    Seq::new(
        v.len(),
        |i: int|
            match v[i] {
                Some(b) => Some(b@),
                None => None,
            },
    )
}

/// What `rustls_pemfile::certs` finds in a file.
pub uninterp spec fn pem_certificates(pem: Seq<u8>) -> Seq<Option<Seq<u8>>>;

/// `rustls_pemfile::certs` gives the certificates in a PEM file in their order,
/// each as its DER bytes, and an error (here nothing) in the place of each
/// section that it cannot read. What it finds depends on the file alone.
#[verifier::external_body]
fn find_certificates(pem: &[u8]) -> (r: Vec<Option<Vec<u8>>>)
    ensures
        sections_view(r@) == pem_certificates(pem@),
{
    let mut reader: &[u8] = pem;
    rustls_pemfile::certs(&mut reader).map(
        |section| match section {
            Ok(der) => Some(der.to_vec()),
            Err(_) => None,
        },
    ).collect()
}

/// The sections that could be read.
pub open spec fn readable(sections: Seq<Option<Seq<u8>>>) -> Seq<Seq<u8>>
    decreases sections.len(),
{
    if sections.len() == 0 {
        Seq::empty()
    } else {
        match sections.last() {
            Some(b) => readable(sections.drop_last()).push(b),
            None => readable(sections.drop_last()),
        }
    }
}

/// Byte strings over sequences.
pub open spec fn ders_view(v: Seq<Vec<u8>>) -> Seq<Seq<u8>> {
    Seq::new(v.len(), |i: int| v[i]@)
}

/// The sections that could be read.
pub fn readable_sections(sections: Vec<Option<Vec<u8>>>) -> (r: Vec<Vec<u8>>)
    ensures
        ders_view(r@) == readable(sections_view(sections@)),
{
    let mut out: Vec<Vec<u8>> = Vec::new();
    let ghost all = sections_view(sections@);
    let mut i: usize = 0;
    assert(all.take(0) =~= Seq::empty());
    assert(ders_view(out@) =~= Seq::empty());
    while i < sections.len()
        invariant
            all == sections_view(sections@),
            i <= sections@.len(),
            ders_view(out@) == readable(all.take(i as int)),
        decreases sections.len() - i,
    {
        let ghost before = ders_view(out@);
        proof {
            let t = all.take(i + 1);
            assert(t.drop_last() =~= all.take(i as int));
            assert(t.last() == all[i as int]);
        }
        if let Some(der) = &sections[i] {
            let mut copy: Vec<u8> = Vec::new();
            copy.extend_from_slice(der.as_slice());
            assert(copy@ =~= der@);
            out.push(copy);
            assert(ders_view(out@) =~= before.push(der@));
        }
        i += 1;
    }
    assert(all.take(i as int) =~= all);
    out
}

/// The certificates in the PEM file at `path`, whose contents are `pem`; an
/// error where there is none.
pub fn load_certs(path: &str, pem: &[u8]) -> (r: Result<Vec<Vec<u8>>, TlsError>)
    ensures
        match r {
            Ok(certs) => ders_view(certs@) == readable(pem_certificates(pem@)) && certs@.len() > 0,
            Err(TlsError::NoCertificatesFound(p)) => p@ == path@ && readable(
                pem_certificates(pem@),
            ).len() == 0,
            Err(_) => false,
        },
{
    let certs = readable_sections(find_certificates(pem));
    assert(ders_view(certs@).len() == certs@.len());
    if certs.len() == 0 {
        Err(TlsError::NoCertificatesFound(path.to_owned()))
    } else {
        Ok(certs)
    }
}

/// The authorities that `rustls` believes. Nothing is known of how it holds them.
#[verifier::external_type_specification]
#[verifier::external_body]
pub struct ExRootCertStore(rustls::RootCertStore);

/// What a `rustls::RootCertStore` holds: of each authority the subject, the
/// public key and the name constraints, if any, in the order in which they
/// were added.
pub uninterp spec fn authorities(
    store: rustls::RootCertStore,
) -> Seq<(Seq<u8>, Seq<u8>, Option<Seq<u8>>)>;

/// What `rustls::RootCertStore::add` makes of a certificate in DER: the subject,
/// the public key and the name constraints, if any, or the text of its error.
pub uninterp spec fn authority_of(
    der: Seq<u8>,
) -> Result<(Seq<u8>, Seq<u8>, Option<Seq<u8>>), Seq<char>>;

/// `rustls::RootCertStore::empty` holds no authority.
#[verifier::external_body]
fn no_authorities() -> (r: rustls::RootCertStore)
    ensures
        authorities(r) == Seq::<(Seq<u8>, Seq<u8>, Option<Seq<u8>>)>::empty(),
{
    rustls::RootCertStore::empty()
}

/// `rustls::RootCertStore::add` adds the authority of a certificate at the end,
/// or fails and adds nothing. Which of the two depends on the certificate alone.
#[verifier::external_body]
fn add_authority(store: &mut rustls::RootCertStore, der: Vec<u8>) -> (r: Result<(), String>)
    ensures
        match authority_of(der@) {
            Ok(a) => r is Ok && authorities(*final(store)) == authorities(*old(store)).push(a),
            Err(e) => (r matches Err(m) && m@ == e) && authorities(*final(store)) == authorities(
                *old(store),
            ),
        },
{
    store.add(rustls::pki_types::CertificateDer::from(der)).map_err(|e| e.to_string())
}

/// The authorities of certificates, or the error of the first that has none.
pub open spec fn authorities_of(ders: Seq<Seq<u8>>) -> Result<
    Seq<(Seq<u8>, Seq<u8>, Option<Seq<u8>>)>,
    Seq<char>,
>
    decreases ders.len(),
{
    if ders.len() == 0 {
        Ok(Seq::empty())
    } else {
        match authorities_of(ders.drop_last()) {
            Ok(before) => match authority_of(ders.last()) {
                Ok(a) => Ok(before.push(a)),
                Err(e) => Err(e),
            },
            Err(e) => Err(e),
        }
    }
}

/// Certificates have the error of those that they begin with.
proof fn lemma_error_stays(ders: Seq<Seq<u8>>, n: int)
    requires
        0 <= n <= ders.len(),
        authorities_of(ders.take(n)) is Err,
    ensures
        authorities_of(ders) == authorities_of(ders.take(n)),
    decreases ders.len() - n,
{
    if n < ders.len() {
        assert(ders.take(n + 1).drop_last() =~= ders.take(n));
        lemma_error_stays(ders, n + 1);
    } else {
        assert(ders.take(n) =~= ders);
    }
}

/// The authorities in a PEM file whose contents are `pem`. There may be none.
pub fn load_ca_certs(pem: &[u8]) -> (r: Result<rustls::RootCertStore, TlsError>)
    ensures
        match authorities_of(readable(pem_certificates(pem@))) {
            Ok(a) => r matches Ok(store) && authorities(store) == a,
            Err(e) => r matches Err(TlsError::ConfigBuildError(m)) && m@ == e,
        },
{
    trust(&readable_sections(find_certificates(pem)))
}

/// The authorities of certificates in DER.
pub fn trust(certs: &Vec<Vec<u8>>) -> (r: Result<rustls::RootCertStore, TlsError>)
    ensures
        match authorities_of(ders_view(certs@)) {
            Ok(a) => r matches Ok(store) && authorities(store) == a,
            Err(e) => r matches Err(TlsError::ConfigBuildError(m)) && m@ == e,
        },
{
    let mut store = no_authorities();
    let ghost all = ders_view(certs@);
    let mut i: usize = 0;
    assert(all.take(0) =~= Seq::empty());
    while i < certs.len()
        invariant
            all == ders_view(certs@),
            i <= certs@.len(),
            authorities_of(all.take(i as int)) == Ok::<
                Seq<(Seq<u8>, Seq<u8>, Option<Seq<u8>>)>,
                Seq<char>,
            >(authorities(store)),
        decreases certs.len() - i,
    {
        let mut der: Vec<u8> = Vec::new();
        der.extend_from_slice(certs[i].as_slice());
        proof {
            assert(der@ =~= certs@[i as int]@);
            assert(all.take(i + 1).drop_last() =~= all.take(i as int));
            assert(all.take(i + 1).last() == der@);
        }
        if let Err(e) = add_authority(&mut store, der) {
            proof {
                lemma_error_stays(all, i + 1);
            }
            return Err(TlsError::ConfigBuildError(e));
        }
        i += 1;
    }
    assert(all.take(i as int) =~= all);
    Ok(store)
}

/// How a private key is written.
#[derive(Debug, Clone, Copy, PartialEq, Eq, Structural)]
pub enum KeyFormat {
    Pkcs1,
    Pkcs8,
    Sec1,
    Other,
}

/// A private key as it is found: its format and its DER bytes, or nothing; or
/// the error of the search.
pub enum KeySearch {
    Found(KeyFormat, Vec<u8>),
    NotFound,
    Failed(String),
}

/// What a search for a private key comes to.
pub enum KeyResult {
    Found(KeyFormat, Seq<u8>),
    NotFound,
    Failed(Seq<char>),
}

impl KeySearch {
    /// The result over sequences.
    pub open spec fn view(&self) -> KeyResult {
        match *self {
            KeySearch::Found(f, b) => KeyResult::Found(f, b@),
            KeySearch::NotFound => KeyResult::NotFound,
            KeySearch::Failed(e) => KeyResult::Failed(e@),
        }
    }
}

/// What `rustls_pemfile::private_key` finds in a file.
pub uninterp spec fn pem_private_key(pem: Seq<u8>) -> KeyResult;

/// `rustls_pemfile::private_key` gives the first private key in a PEM file, or
/// nothing where there is none, or an error where a section cannot be read.
/// What it finds depends on the file alone.
#[verifier::external_body]
fn find_private_key(pem: &[u8]) -> (r: KeySearch)
    ensures
        r@ == pem_private_key(pem@),
{
    let mut reader: &[u8] = pem;
    match rustls_pemfile::private_key(&mut reader) {
        Ok(Some(rustls::pki_types::PrivateKeyDer::Pkcs1(k))) =>
            KeySearch::Found(KeyFormat::Pkcs1, k.secret_pkcs1_der().to_vec()),
        Ok(Some(rustls::pki_types::PrivateKeyDer::Pkcs8(k))) =>
            KeySearch::Found(KeyFormat::Pkcs8, k.secret_pkcs8_der().to_vec()),
        Ok(Some(rustls::pki_types::PrivateKeyDer::Sec1(k))) =>
            KeySearch::Found(KeyFormat::Sec1, k.secret_sec1_der().to_vec()),
        Ok(Some(k)) => KeySearch::Found(KeyFormat::Other, k.secret_der().to_vec()),
        Ok(None) => KeySearch::NotFound,
        Err(e) => KeySearch::Failed(e.to_string()),
    }
}

/// The private key that a search for it in the file at `path` came to.
pub fn private_key_of(path: &str, search: KeySearch) -> (r: Result<
    (KeyFormat, Vec<u8>),
    TlsError,
>)
    ensures
        match search {
            KeySearch::Found(f, b) => r == Ok::<(KeyFormat, Vec<u8>), TlsError>((f, b)),
            KeySearch::NotFound => r matches Err(TlsError::NoPrivateKeyFound(p)) && p@ == path@,
            KeySearch::Failed(e) => r == Err::<(KeyFormat, Vec<u8>), TlsError>(
                TlsError::KeyReadError(e),
            ),
        },
{
    match search {
        KeySearch::Found(format, der) => Ok((format, der)),
        KeySearch::NotFound => Err(TlsError::NoPrivateKeyFound(path.to_owned())),
        KeySearch::Failed(e) => Err(TlsError::KeyReadError(e)),
    }
}

/// The private key in the PEM file at `path`, whose contents are `pem`.
pub fn load_private_key(path: &str, pem: &[u8]) -> (r: Result<(KeyFormat, Vec<u8>), TlsError>)
    ensures
        match pem_private_key(pem@) {
            KeyResult::Found(f, b) => r matches Ok((format, der)) && format == f && der@ == b,
            KeyResult::NotFound => r matches Err(TlsError::NoPrivateKeyFound(p)) && p@ == path@,
            KeyResult::Failed(e) => r matches Err(TlsError::KeyReadError(m)) && m@ == e,
        },
{
    private_key_of(path, find_private_key(pem))
}

/// Where certificates are verified, TLS is not set up without authorities to
/// verify them with.
pub proof fn law_verification_needs_authorities(config: TlsConfig)
    ensures
        verifies(config.client_tls_sslmode) ==> match client_files(config) {
            Ok(Some(f)) => f.ca_file is Some,
            Ok(None) => false,
            Err(_) => true,
        },
        verifies(config.server_tls_sslmode) ==> server_files(config) is Some && server_files(
            config,
        )->0.trust !is Anything,
{
}

/// A backend's certificate has to be for its host exactly under `verify-full`,
/// and where it has to be, it is verified too.
pub proof fn law_hostname_is_checked_under_verify_full(config: TlsConfig)
    ensures
        server_files(config) matches Some(f) ==> {
            &&& f.checks_hostname <==> config.server_tls_sslmode == TlsSslMode::VerifyFull
            &&& f.checks_hostname ==> f.trust !is Anything
        },
        config.server_tls_sslmode == TlsSslMode::VerifyFull ==> server_files(config) is Some,
{
}

/// TLS is set up from nothing exactly where it is disabled.
pub proof fn law_disabled_tls_needs_nothing(config: TlsConfig)
    ensures
        client_files(config) == Ok::<Option<ClientTlsFiles>, TlsError>(None)
            <==> config.client_tls_sslmode == TlsSslMode::Disable,
        server_files(config) is None <==> config.server_tls_sslmode == TlsSslMode::Disable,
{
}

/// TLS towards clients is set up from the files that are configured, all of
/// which have to be: the certificate and the key, and the authorities where
/// clients are verified and not else.
pub proof fn law_client_files_are_those_configured(config: TlsConfig)
    requires
        config.client_tls_sslmode != TlsSslMode::Disable,
    ensures
        ({
            let verified = config.client_tls_sslmode == TlsSslMode::VerifyCa
                || config.client_tls_sslmode == TlsSslMode::VerifyFull;
            &&& client_files(config) is Ok <==> config.client_tls_cert_file is Some
                && config.client_tls_key_file is Some && (verified
                ==> config.client_tls_ca_file is Some)
            &&& client_files(config) matches Ok(Some(f)) ==> {
                &&& config.client_tls_cert_file == Some(f.cert_file)
                &&& config.client_tls_key_file == Some(f.key_file)
                &&& f.ca_file == if verified {
                    config.client_tls_ca_file
                } else {
                    None
                }
            }
            &&& client_files(config) matches Err(e) ==> (e is KeyNotConfigured
                <==> config.client_tls_cert_file is Some && config.client_tls_key_file is None) && (
            e is KeyNotConfigured || e is CertificateNotConfigured)
        }),
{
}

/// Backends are believed by the authorities that are configured, or else by the
/// common ones, where they are verified, and without looking where they are not.
/// The proxy shows a certificate where both it and its key are configured and
/// backends are verified.
pub proof fn law_backends_are_believed_as_configured(config: TlsConfig)
    requires
        config.server_tls_sslmode != TlsSslMode::Disable,
    ensures
        ({
            let verified = config.server_tls_sslmode == TlsSslMode::VerifyCa
                || config.server_tls_sslmode == TlsSslMode::VerifyFull;
            &&& server_files(config) matches Some(f)
            &&& f.trust is Anything <==> !verified
            &&& f.trust is CommonAuthorities <==> verified && config.server_tls_ca_file is None
            &&& f.trust matches BackendTrust::Authorities(file) ==> config.server_tls_ca_file
                == Some(file)
            &&& f.client_auth is Some <==> verified && config.server_tls_cert_file is Some
                && config.server_tls_key_file is Some
            &&& f.client_auth matches Some((cert, key)) ==> config.server_tls_cert_file == Some(
                cert,
            ) && config.server_tls_key_file == Some(key)
        }),
{
}

/// Sections are read one by one, in their order; those that cannot be read are
/// left out.
pub proof fn law_sections_are_read_in_order(
    a: Seq<Option<Seq<u8>>>,
    b: Seq<Option<Seq<u8>>>,
    section: Seq<u8>,
)
    ensures
        readable(a + b) == readable(a) + readable(b),
        readable(seq![Some(section)]) == seq![section],
        readable(seq![None::<Seq<u8>>]) == Seq::<Seq<u8>>::empty(),
    decreases b.len(),
{
    let some = seq![Some(section)];
    let none = seq![None::<Seq<u8>>];
    assert(some.drop_last() =~= Seq::empty());
    assert(none.drop_last() =~= Seq::empty());
    assert(readable(some.drop_last()) =~= Seq::empty());
    assert(readable(none.drop_last()) =~= Seq::empty());
    assert(readable(some) =~= seq![section]);
    if b.len() > 0 {
        assert((a + b).drop_last() =~= a + b.drop_last());
        assert((a + b).last() == b.last());
        law_sections_are_read_in_order(a, b.drop_last(), section);
        assert(readable(a + b) =~= readable(a) + readable(b));
    } else {
        assert(a + b =~= a);
        assert(readable(a) + readable(b) =~= readable(a));
    }
}

/// Every certificate gives its authority, in the same order, or the first that
/// gives none gives its error.
pub proof fn law_every_certificate_counts(ders: Seq<Seq<u8>>)
    ensures
        match authorities_of(ders) {
            Ok(a) => a.len() == ders.len() && (forall|i: int|
                0 <= i < ders.len() ==> authority_of(#[trigger] ders[i]) == Ok::<
                    (Seq<u8>, Seq<u8>, Option<Seq<u8>>),
                    Seq<char>,
                >(a[i])),
            Err(e) => exists|i: int|
                0 <= i < ders.len() && authority_of(#[trigger] ders[i]) == Err::<
                    (Seq<u8>, Seq<u8>, Option<Seq<u8>>),
                    Seq<char>,
                >(e) && (forall|j: int|
                    0 <= j < i ==> authority_of(#[trigger] ders[j]) is Ok),
        },
    decreases ders.len(),
{
    if ders.len() > 0 {
        let head = ders.drop_last();
        law_every_certificate_counts(head);
        assert(ders.last() == ders[ders.len() - 1]);
        match authorities_of(head) {
            Ok(before) => {
                assert(forall|i: int| 0 <= i < head.len() ==> #[trigger] head[i] == ders[i]);
                match authority_of(ders.last()) {
                    Ok(a) => {
                        assert forall|i: int| 0 <= i < ders.len() implies authority_of(
                            #[trigger] ders[i],
                        ) == Ok::<(Seq<u8>, Seq<u8>, Option<Seq<u8>>), Seq<char>>(
                            before.push(a)[i],
                        ) by {
                            if i < head.len() {
                                assert(head[i] == ders[i]);
                            }
                        }
                    },
                    Err(e) => {
                        assert forall|j: int| 0 <= j < ders.len() - 1 implies authority_of(
                            #[trigger] ders[j],
                        ) is Ok by {
                            assert(head[j] == ders[j]);
                        }
                    },
                }
            },
            Err(e) => {
                let i = choose|i: int|
                    0 <= i < head.len() && authority_of(#[trigger] head[i]) == Err::<
                        (Seq<u8>, Seq<u8>, Option<Seq<u8>>),
                        Seq<char>,
                    >(e) && (forall|j: int|
                        0 <= j < i ==> authority_of(#[trigger] head[j]) is Ok);
                assert(ders[i] == head[i]);
                assert forall|j: int| 0 <= j < i implies authority_of(#[trigger] ders[j]) is Ok by {
                    assert(head[j] == ders[j]);
                }
            },
        }
    }
}

} // verus!
