//! Certificates, keys and trust: what a TLS connection is set up with.
use std::sync::Arc;
use rustls::server::WebPkiClientVerifier;
use rustls_pki_types::PrivateKeyDer;
use vstd::prelude::*;
use vstd::string::*;
use crate::l2cap::config;
use crate::text;

verus! {

/// The largest plaintext in one TLS record of a listener, so that a record fits
/// into one radio packet of a small peer.
pub const TLS_MAX_FRAGMENT_SIZE: usize = 1024;

/// The name that a connector asks for.
pub const SERVER_NAME: &'static str = "zenoh-ble-peer";

/// A collection of trust anchors.
#[verifier::external_type_specification]
#[verifier::external_body]
pub struct ExRootCertStore(rustls::RootCertStore);

/// The cryptography that connections use.
#[verifier::external_type_specification]
#[verifier::external_body]
pub struct ExCryptoProvider(rustls::crypto::CryptoProvider);

/// A private key in one of its encodings.
#[verifier::external_type_specification]
#[verifier::external_body]
pub struct ExPrivateKeyDer<'a>(rustls_pki_types::PrivateKeyDer<'a>);

/// What connections to a server are made with.
#[verifier::external_type_specification]
#[verifier::external_body]
pub struct ExClientConfig(rustls::ClientConfig);

/// What connections from clients are accepted with.
#[verifier::external_type_specification]
#[verifier::external_body]
pub struct ExServerConfig(rustls::ServerConfig);

/// The name that a server is asked for.
#[verifier::external_type_specification]
#[verifier::external_body]
pub struct ExServerName<'a>(rustls_pki_types::ServerName<'a>);

/// What a trust anchor consists of: the subject, the public key and the name
/// constraints, each as DER.
pub type Anchor = (Seq<u8>, Seq<u8>, Option<Seq<u8>>);

/// The certificates in a PEM text, or why it cannot be read.
pub uninterp spec fn pem_certificates(pem: Seq<u8>) -> Result<Seq<Seq<u8>>, Seq<char>>;

/// The first private key in a PEM text with the kind of its encoding, if there
/// is one, or why the text cannot be read.
pub uninterp spec fn pem_private_key(pem: Seq<u8>) -> Result<
    Option<(KeyKind, Seq<u8>)>,
    Seq<char>,
>;

/// The trust anchor in a certificate, or why there is none.
pub uninterp spec fn trust_anchor(der: Seq<u8>) -> Result<Anchor, Seq<char>>;

/// The trust anchors in a store, in the order in which they were added.
pub uninterp spec fn store_anchors(store: rustls::RootCertStore) -> Seq<Anchor>;

/// The encoding and the bytes of a private key.
pub uninterp spec fn key_parts(key: rustls_pki_types::PrivateKeyDer<'static>) -> (
    KeyKind,
    Seq<u8>,
);

/// Whether the cipher suites and key exchange groups of the cryptography can
/// serve the protocol versions that connections use by default.
pub uninterp spec fn supports_default_versions(provider: rustls::crypto::CryptoProvider) -> bool;

/// The text of a server name.
pub uninterp spec fn server_name_text(name: rustls_pki_types::ServerName<'static>) -> Seq<char>;

/// What a connector was set up with.
pub uninterp spec fn client_parts(config: rustls::ClientConfig) -> ClientParts;

/// What a listener was set up with.
pub uninterp spec fn server_parts(config: rustls::ServerConfig) -> ServerParts;

/// Certificates and the private key that belongs to them.
pub type Identity = (Seq<Seq<u8>>, (KeyKind, Seq<u8>));

/// What a connector consists of.
pub struct ClientParts {
    pub provider: rustls::crypto::CryptoProvider,
    /// The trust anchors that servers are verified against.
    pub anchors: Seq<Anchor>,
    /// Whether the name of a server is verified.
    pub checks_name: bool,
    /// What is shown to servers.
    pub identity: Option<Identity>,
}

/// What a listener consists of.
pub struct ServerParts {
    pub provider: rustls::crypto::CryptoProvider,
    /// The trust anchors that clients are verified against, where they have to
    /// show a certificate.
    pub anchors: Option<Seq<Anchor>>,
    /// What is shown to clients.
    pub identity: Identity,
    /// The largest plaintext in one record, where there is a limit.
    pub max_fragment_size: Option<usize>,
}

/// How a private key is encoded.
#[derive(Clone, Copy, PartialEq, Eq, Structural, Debug)]
pub enum KeyKind {
    Pkcs1,
    Sec1,
    Pkcs8,
}

/// A private key as DER.
pub struct PrivateKey {
    pub kind: KeyKind,
    pub der: Vec<u8>,
}

/// What reading a file came to.
pub enum FileRead {
    /// It could not be opened.
    Unopened { cause: String },
    /// It could not be read to its end, but holds these bytes before.
    Unread { bytes: Vec<u8>, cause: String },
    /// It holds these bytes.
    Bytes { bytes: Vec<u8> },
}

/// A file and what reading it came to.
pub struct LoadedFile {
    pub path: String,
    pub read: FileRead,
}

/// What a connector shows to servers, as far as files give it.
pub enum LoadedIdentity {
    /// Nothing.
    Absent,
    /// What these files hold.
    Files { certificate: LoadedFile, private_key: LoadedFile },
    /// Only one of the two files is configured.
    Unpaired,
}

/// Why a connection cannot be set up.
pub enum TlsFault {
    /// A certificate file cannot be opened.
    OpenCertificates { path: String, cause: String },
    /// A certificate file cannot be read.
    ReadCertificates { path: String, cause: String },
    /// A key file cannot be opened.
    OpenKey { path: String, cause: String },
    /// A key file cannot be read.
    ReadKey { path: String, cause: String },
    /// A key file holds no key.
    NoKey { path: String },
    /// A certificate holds no trust anchor.
    RootCertificate { cause: String },
    /// There is no trust anchor to verify clients against.
    NoRootAnchors,
    /// Only one of the certificate and the key of a connector is configured.
    UnpairedIdentity,
    /// The certificates, the key and the cryptography do not go together.
    Setup { cause: String },
}

/// What a fault says.
pub enum FaultView {
    OpenCertificates { path: Seq<char>, cause: Seq<char> },
    ReadCertificates { path: Seq<char>, cause: Seq<char> },
    OpenKey { path: Seq<char>, cause: Seq<char> },
    ReadKey { path: Seq<char>, cause: Seq<char> },
    NoKey { path: Seq<char> },
    RootCertificate { cause: Seq<char> },
    NoRootAnchors,
    UnpairedIdentity,
    Setup { cause: Seq<char> },
}

impl View for TlsFault {
    type V = FaultView;

    open spec fn view(&self) -> FaultView {
        match *self {
            TlsFault::OpenCertificates { path, cause } => FaultView::OpenCertificates {
                path: path@,
                cause: cause@,
            },
            TlsFault::ReadCertificates { path, cause } => FaultView::ReadCertificates {
                path: path@,
                cause: cause@,
            },
            TlsFault::OpenKey { path, cause } => FaultView::OpenKey { path: path@, cause: cause@ },
            TlsFault::ReadKey { path, cause } => FaultView::ReadKey { path: path@, cause: cause@ },
            TlsFault::NoKey { path } => FaultView::NoKey { path: path@ },
            TlsFault::RootCertificate { cause } => FaultView::RootCertificate { cause: cause@ },
            TlsFault::NoRootAnchors => FaultView::NoRootAnchors,
            TlsFault::UnpairedIdentity => FaultView::UnpairedIdentity,
            TlsFault::Setup { cause } => FaultView::Setup { cause: cause@ },
        }
    }
}

/// Reads the certificates in a PEM text.
///
/// Calls `rustls_pemfile::certs`, whose certificates up to the first error are
/// named `pem_certificates`.
#[verifier::external_body]
fn certs_in_pem(pem: &[u8]) -> (certs: Result<Vec<Vec<u8>>, String>)
    ensures
        match certs {
            Ok(certs) => pem_certificates(pem@) == Ok::<Seq<Seq<u8>>, Seq<char>>(certs.deep_view()),
            Err(cause) => pem_certificates(pem@) == Err::<Seq<Seq<u8>>, Seq<char>>(cause@),
        },
{
    let mut reader: &[u8] = pem;
    rustls_pemfile::certs(&mut reader)
        .map(|cert| cert.map(|der| der.as_ref().to_vec()).map_err(|e| e.to_string()))
        .collect()
}

/// Reads the first private key in a PEM text.
///
/// Calls `rustls_pemfile::private_key`, whose result is named
/// `pem_private_key`.
#[verifier::external_body]
fn key_in_pem(pem: &[u8]) -> (key: Result<Option<PrivateKey>, String>)
    ensures
        match key {
            Ok(Some(key)) => pem_private_key(pem@) == Ok::<Option<(KeyKind, Seq<u8>)>, Seq<char>>(
                Some((key.kind, key.der@)),
            ),
            Ok(None) => pem_private_key(pem@) == Ok::<Option<(KeyKind, Seq<u8>)>, Seq<char>>(None),
            Err(cause) => pem_private_key(pem@) == Err::<Option<(KeyKind, Seq<u8>)>, Seq<char>>(
                cause@,
            ),
        },
{
    let mut reader: &[u8] = pem;
    match rustls_pemfile::private_key(&mut reader).map_err(|e| e.to_string())? {
        Some(PrivateKeyDer::Pkcs1(k)) => {
            Ok(Some(PrivateKey { kind: KeyKind::Pkcs1, der: k.secret_pkcs1_der().to_vec() }))
        },
        Some(PrivateKeyDer::Sec1(k)) => {
            Ok(Some(PrivateKey { kind: KeyKind::Sec1, der: k.secret_sec1_der().to_vec() }))
        },
        Some(PrivateKeyDer::Pkcs8(k)) => {
            Ok(Some(PrivateKey { kind: KeyKind::Pkcs8, der: k.secret_pkcs8_der().to_vec() }))
        },
        _ => Ok(None),
    }
}

/// Makes a store without trust anchors.
///
/// Calls `rustls::RootCertStore::empty`.
#[verifier::external_body]
fn empty_store() -> (store: rustls::RootCertStore)
    ensures
        store_anchors(store) == Seq::<Anchor>::empty(),
{
    rustls::RootCertStore::empty()
}

/// Adds the trust anchor in a certificate to a store.
///
/// Calls `rustls::RootCertStore::add`: the trust anchor in the certificate,
/// named `trust_anchor`, comes behind those that are there; where the
/// certificate holds none, the store stays as it is.
#[verifier::external_body]
fn add_root(store: &mut rustls::RootCertStore, der: &Vec<u8>) -> (added: Result<(), String>)
    ensures
        match added {
            Ok(_) => trust_anchor(der@) is Ok && store_anchors(*final(store)) == store_anchors(
                *old(store),
            ).push(trust_anchor(der@)->Ok_0),
            Err(cause) => trust_anchor(der@) == Err::<Anchor, Seq<char>>(cause@) && store_anchors(
                *final(store),
            ) == store_anchors(*old(store)),
        },
{
    store
        .add(rustls_pki_types::CertificateDer::from(der.as_slice()))
        .map_err(|e| e.to_string())
}

/// Takes a private key by the kind of its encoding.
///
/// Calls the conversions into `rustls_pki_types::PrivateKeyDer`, which keep the
/// kind and the bytes.
#[verifier::external_body]
fn key_der(key: PrivateKey) -> (der: rustls_pki_types::PrivateKeyDer<'static>)
    ensures
        key_parts(der) == (key.kind, key.der@),
{
    match key.kind {
        KeyKind::Pkcs1 => rustls_pki_types::PrivatePkcs1KeyDer::from(key.der).into(),
        KeyKind::Sec1 => rustls_pki_types::PrivateSec1KeyDer::from(key.der).into(),
        KeyKind::Pkcs8 => rustls_pki_types::PrivatePkcs8KeyDer::from(key.der).into(),
    }
}

/// Sets up a connector that verifies the name of a server and shows no
/// certificate.
///
/// Calls the builder of `rustls::ClientConfig` with `with_root_certificates`
/// and `with_no_client_auth`, neither of which can fail. So this succeeds exactly
/// where `with_safe_default_protocol_versions` does, which looks at nothing but
/// the cryptography; whether it does is named `supports_default_versions`.
#[verifier::external_body]
fn client_by_name(
    provider: Arc<rustls::crypto::CryptoProvider>,
    roots: rustls::RootCertStore,
) -> (config: Result<rustls::ClientConfig, String>)
    ensures
        config is Ok <==> supports_default_versions(*provider),
        config matches Ok(c) ==> client_parts(c) == (ClientParts {
            provider: *provider,
            anchors: store_anchors(roots),
            checks_name: true,
            identity: None,
        }),
{
    let builder = rustls::ClientConfig::builder_with_provider(provider)
        .with_safe_default_protocol_versions()
        .map_err(|e| e.to_string())?;
    Ok(builder.with_root_certificates(roots).with_no_client_auth())
}

/// Sets up a connector that verifies the name of a server and shows
/// certificates.
///
/// Calls the builder of `rustls::ClientConfig` with
/// `with_safe_default_protocol_versions`, `with_root_certificates` and
/// `with_client_auth_cert`. It fails where the first does. Whether the key can be
/// used and belongs to the certificates is up to the cryptography, and left
/// unsaid.
#[verifier::external_body]
fn client_by_name_with_cert(
    provider: Arc<rustls::crypto::CryptoProvider>,
    roots: rustls::RootCertStore,
    chain: Vec<Vec<u8>>,
    key: rustls_pki_types::PrivateKeyDer<'static>,
) -> (config: Result<rustls::ClientConfig, String>)
    ensures
        config is Ok ==> supports_default_versions(*provider),
        config matches Ok(c) ==> client_parts(c) == (ClientParts {
            provider: *provider,
            anchors: store_anchors(roots),
            checks_name: true,
            identity: Some((chain.deep_view(), key_parts(key))),
        }),
{
    let chain = chain.into_iter().map(rustls_pki_types::CertificateDer::from).collect();
    let builder = rustls::ClientConfig::builder_with_provider(provider)
        .with_safe_default_protocol_versions()
        .map_err(|e| e.to_string())?;
    builder
        .with_root_certificates(roots)
        .with_client_auth_cert(chain, key)
        .map_err(|e| e.to_string())
}

/// Sets up a connector that takes a server under any name and shows no
/// certificate.
///
/// Calls the builder of `rustls::ClientConfig` with
/// `zenoh_link_commons::tls::WebPkiVerifierAnyServerName` as its verifier, and
/// `with_no_client_auth`, none of which can fail. So this succeeds exactly where
/// `with_safe_default_protocol_versions` does, which looks at nothing but the
/// cryptography; whether it does is named `supports_default_versions`.
#[verifier::external_body]
fn client_by_any_name(
    provider: Arc<rustls::crypto::CryptoProvider>,
    roots: rustls::RootCertStore,
) -> (config: Result<rustls::ClientConfig, String>)
    ensures
        config is Ok <==> supports_default_versions(*provider),
        config matches Ok(c) ==> client_parts(c) == (ClientParts {
            provider: *provider,
            anchors: store_anchors(roots),
            checks_name: false,
            identity: None,
        }),
{
    let verifier = zenoh_link_commons::tls::WebPkiVerifierAnyServerName::new(roots);
    let builder = rustls::ClientConfig::builder_with_provider(provider)
        .with_safe_default_protocol_versions()
        .map_err(|e| e.to_string())?;
    let builder = builder.dangerous().with_custom_certificate_verifier(Arc::new(verifier));
    Ok(builder.with_no_client_auth())
}

/// Sets up a connector that takes a server under any name and shows
/// certificates.
///
/// Calls the builder of `rustls::ClientConfig` with
/// `with_safe_default_protocol_versions`, with
/// `zenoh_link_commons::tls::WebPkiVerifierAnyServerName` as its verifier, and
/// with `with_client_auth_cert`. It fails where the first does. Whether the key
/// can be used and belongs to the certificates is up to the cryptography, and
/// left unsaid.
#[verifier::external_body]
fn client_by_any_name_with_cert(
    provider: Arc<rustls::crypto::CryptoProvider>,
    roots: rustls::RootCertStore,
    chain: Vec<Vec<u8>>,
    key: rustls_pki_types::PrivateKeyDer<'static>,
) -> (config: Result<rustls::ClientConfig, String>)
    ensures
        config is Ok ==> supports_default_versions(*provider),
        config matches Ok(c) ==> client_parts(c) == (ClientParts {
            provider: *provider,
            anchors: store_anchors(roots),
            checks_name: false,
            identity: Some((chain.deep_view(), key_parts(key))),
        }),
{
    let chain = chain.into_iter().map(rustls_pki_types::CertificateDer::from).collect();
    let verifier = zenoh_link_commons::tls::WebPkiVerifierAnyServerName::new(roots);
    let builder = rustls::ClientConfig::builder_with_provider(provider)
        .with_safe_default_protocol_versions()
        .map_err(|e| e.to_string())?;
    let builder = builder.dangerous().with_custom_certificate_verifier(Arc::new(verifier));
    builder.with_client_auth_cert(chain, key).map_err(|e| e.to_string())
}

/// Sets up a listener that asks clients for no certificate.
///
/// Calls the builder of `rustls::ServerConfig` with
/// `with_safe_default_protocol_versions`, `with_no_client_auth` and
/// `with_single_cert`, and sets `max_fragment_size`. It fails where the first
/// does. Whether the key can be used
/// and belongs to the certificates is up to the cryptography, and left unsaid.
#[verifier::external_body]
fn server_for_anyone(
    provider: Arc<rustls::crypto::CryptoProvider>,
    chain: Vec<Vec<u8>>,
    key: rustls_pki_types::PrivateKeyDer<'static>,
    max_fragment_size: usize,
) -> (config: Result<rustls::ServerConfig, String>)
    ensures
        config is Ok ==> supports_default_versions(*provider),
        config matches Ok(c) ==> server_parts(c) == (ServerParts {
            provider: *provider,
            anchors: None,
            identity: (chain.deep_view(), key_parts(key)),
            max_fragment_size: Some(max_fragment_size),
        }),
{
    let chain = chain.into_iter().map(rustls_pki_types::CertificateDer::from).collect();
    let builder = rustls::ServerConfig::builder_with_provider(provider)
        .with_safe_default_protocol_versions()
        .map_err(|e| e.to_string())?;
    let mut config =
        builder.with_no_client_auth().with_single_cert(chain, key).map_err(|e| e.to_string())?;
    config.max_fragment_size = Some(max_fragment_size);
    Ok(config)
}

/// Sets up a listener that verifies the certificates of clients.
///
/// Calls `rustls::server::WebPkiClientVerifier::builder_with_provider`, and the
/// builder of `rustls::ServerConfig` with `with_safe_default_protocol_versions`,
/// `with_client_cert_verifier` and `with_single_cert`, and sets
/// `max_fragment_size`. It fails where the first of these does, and without a
/// trust anchor. Whether the key can be used and belongs to the certificates is up to
/// the cryptography, and left unsaid.
#[verifier::external_body]
fn server_for_clients(
    provider: Arc<rustls::crypto::CryptoProvider>,
    roots: rustls::RootCertStore,
    chain: Vec<Vec<u8>>,
    key: rustls_pki_types::PrivateKeyDer<'static>,
    max_fragment_size: usize,
) -> (config: Result<rustls::ServerConfig, String>)
    ensures
        config is Ok ==> supports_default_versions(*provider),
        config matches Ok(c) ==> server_parts(c) == (ServerParts {
            provider: *provider,
            anchors: Some(store_anchors(roots)),
            identity: (chain.deep_view(), key_parts(key)),
            max_fragment_size: Some(max_fragment_size),
        }),
        store_anchors(roots).len() == 0 ==> config is Err,
{
    let chain = chain.into_iter().map(rustls_pki_types::CertificateDer::from).collect();
    let verifier = WebPkiClientVerifier::builder_with_provider(Arc::new(roots), provider.clone())
        .build()
        .map_err(|e| e.to_string())?;
    let builder = rustls::ServerConfig::builder_with_provider(provider)
        .with_safe_default_protocol_versions()
        .map_err(|e| e.to_string())?;
    let builder = builder.with_client_cert_verifier(verifier);
    let mut config = builder.with_single_cert(chain, key).map_err(|e| e.to_string())?;
    config.max_fragment_size = Some(max_fragment_size);
    Ok(config)
}

/// What reading certificates comes to.
pub fn certs_or_fault(path: &str, certs: Result<Vec<Vec<u8>>, String>) -> (loaded: Result<
    Vec<Vec<u8>>,
    TlsFault,
>)
    ensures
        match certs {
            Ok(certs) => loaded == Ok::<Vec<Vec<u8>>, TlsFault>(certs),
            Err(cause) => loaded matches Err(fault) && fault@ == (FaultView::ReadCertificates {
                path: path@,
                cause: cause@,
            }),
        },
{
    match certs {
        Ok(certs) => Ok(certs),
        Err(cause) => Err(TlsFault::ReadCertificates { path: path.to_owned(), cause }),
    }
}

/// Whether a byte ends a line.
pub open spec fn is_newline(byte: u8) -> bool {
    byte == 10 || byte == 13
}

/// The lines of a text that have an end.
pub open spec fn complete_lines(text: Seq<u8>) -> Seq<u8>
    decreases text.len(),
{
    if text.len() == 0 || is_newline(text.last()) {
        text
    } else {
        complete_lines(text.drop_last())
    }
}

/// Cuts off what stands behind the last end of a line.
fn cut_to_lines(text: &Vec<u8>) -> (lines: Vec<u8>)
    ensures
        lines@ == complete_lines(text@),
{
    let mut n: usize = text.len();
    assert(text@.take(n as int) =~= text@);
    while n > 0 && text[n - 1] != 10 && text[n - 1] != 13
        invariant
            n <= text@.len(),
            complete_lines(text@.take(n as int)) == complete_lines(text@),
        decreases n,
    {
        assert(text@.take(n as int).drop_last() =~= text@.take(n - 1));
        n = n - 1;
    }
    let mut lines = text.clone();
    lines.truncate(n);
    assert(lines@ =~= text@.take(n as int));
    lines
}

/// A line that is wrong wherever it stands: it begins a section and does not say
/// of what.
pub open spec fn bad_line() -> Seq<u8> {
    seq![45, 45, 45, 45, 45, 66, 69, 71, 73, 78, 32, 10]
}

/// Adds a line that is wrong wherever it stands.
fn with_bad_line(lines: &Vec<u8>) -> (text: Vec<u8>)
    ensures
        text@ == lines@ + bad_line(),
{
    let mut text = lines.clone();
    let mut line: Vec<u8> = vec![45, 45, 45, 45, 45, 66, 69, 71, 73, 78, 32, 10];
    text.append(&mut line);
    assert(text@ =~= lines@ + bad_line());
    text
}

/// The fault of reading lines behind which the file could not be read: what is
/// wrong in the lines, where something is, and the cause of the file otherwise.
/// Something is wrong in the lines where what is said of them does not change
/// with what follows; an unfinished section is no fault of the lines, since what
/// is missing from it could not be read.
pub open spec fn broken_cause(
    said: Option<Seq<char>>,
    said_with_more: Option<Seq<char>>,
    cause: Seq<char>,
) -> Seq<char> {
    if said is Some && said_with_more == said {
        said->0
    } else {
        cause
    }
}

/// Decides which of the faults counts.
pub fn pick_cause(said: Option<String>, said_with_more: Option<String>, cause: &str) -> (
    picked: String)
    ensures
        picked@ == broken_cause(
            config::option_text(said),
            config::option_text(said_with_more),
            cause@,
        ),
{
    match (said, said_with_more) {
        (Some(said), Some(more)) => if text::same_text(said.as_str(), more.as_str()) {
            said
        } else {
            cause.to_owned()
        },
        _ => cause.to_owned(),
    }
}

/// What is wrong with a text, if anything is.
pub open spec fn said_of<T>(read: Result<T, Seq<char>>) -> Option<Seq<char>> {
    match read {
        Ok(_) => None,
        Err(cause) => Some(cause),
    }
}

/// What reading gave as its error, if it gave one.
fn error_of<T>(read: Result<T, String>) -> (error: Option<String>)
    ensures
        match read {
            Ok(_) => error is None,
            Err(cause) => error == Some(cause),
        },
{
    match read {
        Ok(_) => None,
        Err(cause) => Some(cause),
    }
}

/// The certificates in a file, or why there are none to be had. A file that could
/// not be read to its end has none, since there may have been more.
pub open spec fn certs_of(file: LoadedFile) -> Result<Seq<Seq<u8>>, FaultView> {
    match file.read {
        FileRead::Unopened { cause } => Err(
            FaultView::OpenCertificates { path: file.path@, cause: cause@ },
        ),
        FileRead::Unread { bytes, cause } => {
            let lines = complete_lines(bytes@);
            Err(
                FaultView::ReadCertificates {
                    path: file.path@,
                    cause: broken_cause(
                        said_of(pem_certificates(lines)),
                        said_of(pem_certificates(lines + bad_line())),
                        cause@,
                    ),
                },
            )
        },
        FileRead::Bytes { bytes } => match pem_certificates(bytes@) {
            Ok(certs) => Ok(certs),
            Err(cause) => Err(FaultView::ReadCertificates { path: file.path@, cause }),
        },
    }
}

/// The certificates in a PEM file.
pub fn load_certs(file: &LoadedFile) -> (loaded: Result<Vec<Vec<u8>>, TlsFault>)
    ensures
        match certs_of(*file) {
            Ok(certs) => loaded is Ok && loaded->Ok_0.deep_view() == certs,
            Err(fault) => loaded is Err && loaded->Err_0@ == fault,
        },
{
    match &file.read {
        FileRead::Unopened { cause } => Err(
            TlsFault::OpenCertificates { path: file.path.clone(), cause: cause.clone() },
        ),
        FileRead::Unread { bytes, cause } => {
            let lines = cut_to_lines(bytes);
            let said = error_of(certs_in_pem(lines.as_slice()));
            let more = error_of(certs_in_pem(with_bad_line(&lines).as_slice()));
            Err(
                TlsFault::ReadCertificates {
                    path: file.path.clone(),
                    cause: pick_cause(said, more, cause.as_str()),
                },
            )
        },
        FileRead::Bytes { bytes } => certs_or_fault(
            file.path.as_str(),
            certs_in_pem(bytes.as_slice()),
        ),
    }
}

/// What looking for a key comes to: a text without one is a fault.
pub fn key_or_fault(path: &str, key: Result<Option<PrivateKey>, String>) -> (loaded: Result<
    PrivateKey,
    TlsFault,
>)
    ensures
        match key {
            Ok(Some(key)) => loaded == Ok::<PrivateKey, TlsFault>(key),
            Ok(None) => loaded matches Err(fault) && fault@ == (FaultView::NoKey { path: path@ }),
            Err(cause) => loaded matches Err(fault) && fault@ == (FaultView::ReadKey {
                path: path@,
                cause: cause@,
            }),
        },
{
    match key {
        Ok(Some(key)) => Ok(key),
        Ok(None) => Err(TlsFault::NoKey { path: path.to_owned() }),
        Err(cause) => Err(TlsFault::ReadKey { path: path.to_owned(), cause }),
    }
}

/// The private key in a file, or why there is none to be had. The first key
/// counts, though the file could not be read to its end behind it.
pub open spec fn key_of(file: LoadedFile) -> Result<(KeyKind, Seq<u8>), FaultView> {
    match file.read {
        FileRead::Unopened { cause } => Err(
            FaultView::OpenKey { path: file.path@, cause: cause@ },
        ),
        FileRead::Unread { bytes, cause } => {
            let lines = complete_lines(bytes@);
            match pem_private_key(lines) {
                Ok(Some(key)) => Ok(key),
                read => Err(
                    FaultView::ReadKey {
                        path: file.path@,
                        cause: broken_cause(
                            said_of(read),
                            said_of(pem_private_key(lines + bad_line())),
                            cause@,
                        ),
                    },
                ),
            }
        },
        FileRead::Bytes { bytes } => match pem_private_key(bytes@) {
            Ok(Some(key)) => Ok(key),
            Ok(None) => Err(FaultView::NoKey { path: file.path@ }),
            Err(cause) => Err(FaultView::ReadKey { path: file.path@, cause }),
        },
    }
}

/// The first private key in a PEM file.
pub fn load_key(file: &LoadedFile) -> (loaded: Result<PrivateKey, TlsFault>)
    ensures
        match key_of(*file) {
            Ok(key) => loaded is Ok && (loaded->Ok_0.kind, loaded->Ok_0.der@) == key,
            Err(fault) => loaded is Err && loaded->Err_0@ == fault,
        },
{
    match &file.read {
        FileRead::Unopened { cause } => Err(
            TlsFault::OpenKey { path: file.path.clone(), cause: cause.clone() },
        ),
        FileRead::Unread { bytes, cause } => {
            let lines = cut_to_lines(bytes);
            match key_in_pem(lines.as_slice()) {
                Ok(Some(key)) => Ok(key),
                read => {
                    let more = error_of(key_in_pem(with_bad_line(&lines).as_slice()));
                    Err(
                        TlsFault::ReadKey {
                            path: file.path.clone(),
                            cause: pick_cause(error_of(read), more, cause.as_str()),
                        },
                    )
                },
            }
        },
        FileRead::Bytes { bytes } => key_or_fault(file.path.as_str(), key_in_pem(bytes.as_slice())),
    }
}

/// The trust anchors in certificates, or why the first of them that holds none
/// does not.
pub open spec fn trust_anchors(certs: Seq<Seq<u8>>) -> Result<Seq<Anchor>, Seq<char>>
    decreases certs.len(),
{
    if certs.len() == 0 {
        Ok(Seq::empty())
    } else {
        match trust_anchors(certs.drop_last()) {
            Err(cause) => Err(cause),
            Ok(anchors) => match trust_anchor(certs.last()) {
                Ok(anchor) => Ok(anchors.push(anchor)),
                Err(cause) => Err(cause),
            },
        }
    }
}

/// Where one certificate holds no trust anchor, more certificates do not help.
proof fn lemma_trust_anchors_stay_err(certs: Seq<Seq<u8>>, n: int)
    requires
        0 <= n <= certs.len(),
        trust_anchors(certs.take(n)) is Err,
    ensures
        trust_anchors(certs) == trust_anchors(certs.take(n)),
    decreases certs.len() - n,
{
    if n < certs.len() {
        assert(certs.take(n + 1).drop_last() =~= certs.take(n));
        lemma_trust_anchors_stay_err(certs, n + 1);
    } else {
        assert(certs.take(n) =~= certs);
    }
}

/// A certificate for every trust anchor.
proof fn lemma_trust_anchors_len(certs: Seq<Seq<u8>>)
    ensures
        trust_anchors(certs) is Ok ==> trust_anchors(certs)->Ok_0.len() == certs.len(),
    decreases certs.len(),
{
    if certs.len() > 0 {
        lemma_trust_anchors_len(certs.drop_last());
    }
}

/// Collects the trust anchors in certificates.
pub fn root_store(certs: &Vec<Vec<u8>>) -> (store: Result<rustls::RootCertStore, TlsFault>)
    ensures
        match trust_anchors(certs.deep_view()) {
            Ok(anchors) => store is Ok && store_anchors(store->Ok_0) == anchors,
            Err(cause) => store is Err && store->Err_0@ == (FaultView::RootCertificate { cause }),
        },
{
    let ghost ders = certs.deep_view();
    let mut store = empty_store();
    let mut i: usize = 0;
    assert(ders.take(0) =~= Seq::<Seq<u8>>::empty());
    while i < certs.len()
        invariant
            i <= certs@.len(),
            ders == certs.deep_view(),
            trust_anchors(ders.take(i as int)) == Ok::<Seq<Anchor>, Seq<char>>(
                store_anchors(store),
            ),
        decreases certs@.len() - i,
    {
        proof {
            assert(ders[i as int] == certs@[i as int]@);
            assert(ders.take(i + 1).drop_last() =~= ders.take(i as int));
            assert(ders.take(i + 1).last() == ders[i as int]);
        }
        match add_root(&mut store, &certs[i]) {
            Ok(_) => {},
            Err(cause) => {
                proof {
                    lemma_trust_anchors_stay_err(ders, i + 1);
                }
                return Err(TlsFault::RootCertificate { cause });
            },
        }
        i = i + 1;
    }
    assert(ders.take(i as int) =~= ders);
    Ok(store)
}

/// The trust anchors in the certificates of a file, or why they cannot be had.
pub open spec fn roots_of(file: LoadedFile) -> Result<Seq<Anchor>, FaultView> {
    match certs_of(file) {
        Ok(certs) => match trust_anchors(certs) {
            Ok(anchors) => Ok(anchors),
            Err(cause) => Err(FaultView::RootCertificate { cause }),
        },
        Err(fault) => Err(fault),
    }
}

/// Collects the trust anchors in the certificates of a file.
pub fn load_roots(file: &LoadedFile) -> (store: Result<rustls::RootCertStore, TlsFault>)
    ensures
        match roots_of(*file) {
            Ok(anchors) => store is Ok && store_anchors(store->Ok_0) == anchors,
            Err(fault) => store is Err && store->Err_0@ == fault,
        },
{
    match load_certs(file) {
        Ok(certs) => root_store(&certs),
        Err(fault) => Err(fault),
    }
}

/// The certificates and the key in two files, or why they cannot be had. The
/// certificates are looked at first.
pub open spec fn identity_of(certificate: LoadedFile, private_key: LoadedFile) -> Result<
    Identity,
    FaultView,
> {
    match certs_of(certificate) {
        Ok(chain) => match key_of(private_key) {
            Ok(key) => Ok((chain, key)),
            Err(fault) => Err(fault),
        },
        Err(fault) => Err(fault),
    }
}

/// Reads the certificates and the key in two files.
pub fn load_identity(certificate: &LoadedFile, private_key: &LoadedFile) -> (loaded: Result<
    (Vec<Vec<u8>>, PrivateKey),
    TlsFault,
>)
    ensures
        match identity_of(*certificate, *private_key) {
            Ok(identity) => loaded matches Ok((chain, key)) && (
                chain.deep_view(),
                (key.kind, key.der@),
            ) == identity,
            Err(fault) => loaded is Err && loaded->Err_0@ == fault,
        },
{
    match load_certs(certificate) {
        Ok(chain) => match load_key(private_key) {
            Ok(key) => Ok((chain, key)),
            Err(fault) => Err(fault),
        },
        Err(fault) => Err(fault),
    }
}

/// What a connector is to be set up with, or why it cannot be: the trust
/// anchors are looked at before what is shown to servers.
pub open spec fn connector_parts(
    provider: rustls::crypto::CryptoProvider,
    root_ca: LoadedFile,
    verify_name: bool,
    identity: LoadedIdentity,
) -> Result<ClientParts, FaultView> {
    match roots_of(root_ca) {
        Err(fault) => Err(fault),
        Ok(anchors) => match identity {
            LoadedIdentity::Absent => Ok(
                ClientParts { provider, anchors, checks_name: verify_name, identity: None },
            ),
            LoadedIdentity::Unpaired => Err(FaultView::UnpairedIdentity),
            LoadedIdentity::Files { certificate, private_key } => match identity_of(
                certificate,
                private_key,
            ) {
                Err(fault) => Err(fault),
                Ok(shown) => Ok(
                    ClientParts {
                        provider,
                        anchors,
                        checks_name: verify_name,
                        identity: Some(shown),
                    },
                ),
            },
        },
    }
}

/// Takes in whether the setup succeeded.
pub fn setup_or_fault<C>(config: Result<C, String>) -> (built: Result<C, TlsFault>)
    ensures
        match config {
            Ok(c) => built == Ok::<C, TlsFault>(c),
            Err(cause) => built == Err::<C, TlsFault>(TlsFault::Setup { cause }),
        },
{
    match config {
        Ok(c) => Ok(c),
        Err(cause) => Err(TlsFault::Setup { cause }),
    }
}

/// Sets up a connector. One that shows no certificate is set up wherever the
/// cryptography serves the default protocol versions; whether certificates and
/// their key go together is up to the cryptography too.
pub fn build_connector(
    provider: Arc<rustls::crypto::CryptoProvider>,
    root_ca: &LoadedFile,
    verify_name: bool,
    identity: &LoadedIdentity,
) -> (built: Result<rustls::ClientConfig, TlsFault>)
    ensures
        match connector_parts(*provider, *root_ca, verify_name, *identity) {
            Ok(parts) => match built {
                Ok(config) => client_parts(config) == parts,
                Err(fault) => fault is Setup,
            },
            Err(fault) => built is Err && built->Err_0@ == fault,
        },
        built is Ok ==> supports_default_versions(*provider),
        identity is Absent && roots_of(*root_ca) is Ok ==> (built is Ok
            <==> supports_default_versions(*provider)),
{
    let roots = match load_roots(root_ca) {
        Ok(roots) => roots,
        Err(fault) => {
            return Err(fault);
        },
    };
    match identity {
        LoadedIdentity::Absent => if verify_name {
            setup_or_fault(client_by_name(provider, roots))
        } else {
            setup_or_fault(client_by_any_name(provider, roots))
        },
        LoadedIdentity::Unpaired => Err(TlsFault::UnpairedIdentity),
        LoadedIdentity::Files { certificate, private_key } => match load_identity(
            certificate,
            private_key,
        ) {
            Err(fault) => Err(fault),
            Ok((chain, key)) => if verify_name {
                setup_or_fault(client_by_name_with_cert(provider, roots, chain, key_der(key)))
            } else {
                setup_or_fault(client_by_any_name_with_cert(provider, roots, chain, key_der(key)))
            },
        },
    }
}

/// What a listener is to be set up with, or why it cannot be: the trust anchors
/// are looked at before what is shown to clients.
pub open spec fn acceptor_parts(
    provider: rustls::crypto::CryptoProvider,
    client_ca: Option<LoadedFile>,
    certificate: LoadedFile,
    private_key: LoadedFile,
) -> Result<ServerParts, FaultView> {
    let max_fragment_size = Some(TLS_MAX_FRAGMENT_SIZE);
    match client_ca {
        Some(file) => match roots_of(file) {
            Err(fault) => Err(fault),
            Ok(anchors) => if anchors.len() == 0 {
                Err(FaultView::NoRootAnchors)
            } else {
                match identity_of(certificate, private_key) {
                    Err(fault) => Err(fault),
                    Ok(identity) => Ok(
                        ServerParts {
                            provider,
                            anchors: Some(anchors),
                            identity,
                            max_fragment_size,
                        },
                    ),
                }
            },
        },
        None => match identity_of(certificate, private_key) {
            Err(fault) => Err(fault),
            Ok(identity) => Ok(
                ServerParts { provider, anchors: None, identity, max_fragment_size },
            ),
        },
    }
}

/// Sets up a listener. Whether its parts go together is up to the
/// cryptography.
pub fn build_acceptor(
    provider: Arc<rustls::crypto::CryptoProvider>,
    client_ca: Option<LoadedFile>,
    certificate: &LoadedFile,
    private_key: &LoadedFile,
) -> (built: Result<rustls::ServerConfig, TlsFault>)
    ensures
        match acceptor_parts(*provider, client_ca, *certificate, *private_key) {
            Ok(parts) => match built {
                Ok(config) => server_parts(config) == parts,
                Err(fault) => fault is Setup,
            },
            Err(fault) => built is Err && built->Err_0@ == fault,
        },
        built is Ok ==> supports_default_versions(*provider),
{
    match client_ca {
        Some(file) => {
            let certs = match load_certs(&file) {
                Ok(certs) => certs,
                Err(fault) => {
                    return Err(fault);
                },
            };
            let roots = match root_store(&certs) {
                Ok(roots) => roots,
                Err(fault) => {
                    return Err(fault);
                },
            };
            proof {
                lemma_trust_anchors_len(certs.deep_view());
            }
            if certs.len() == 0 {
                return Err(TlsFault::NoRootAnchors);
            }
            match load_identity(certificate, private_key) {
                Err(fault) => Err(fault),
                Ok((chain, key)) => setup_or_fault(
                    server_for_clients(provider, roots, chain, key_der(key), TLS_MAX_FRAGMENT_SIZE),
                ),
            }
        },
        None => match load_identity(certificate, private_key) {
            Err(fault) => Err(fault),
            Ok((chain, key)) => setup_or_fault(
                server_for_anyone(provider, chain, key_der(key), TLS_MAX_FRAGMENT_SIZE),
            ),
        },
    }
}

/// Whether a text is one label of a host name: small letters, and hyphens that
/// stand neither first nor last.
pub open spec fn is_host_label(s: Seq<char>) -> bool {
    &&& 0 < s.len() <= 63
    &&& s.first() != '-' && s.last() != '-'
    &&& forall|i: int| 0 <= i < s.len() ==> ('a' <= #[trigger] s[i] <= 'z' || s[i] == '-')
}

/// Takes a host label as the name of a server.
///
/// Calls `rustls_pki_types::ServerName::try_from`, which takes every host label
/// as a DNS name and keeps its text.
#[verifier::external_body]
fn name_server(label: &'static str) -> (name: Option<rustls_pki_types::ServerName<'static>>)
    requires
        is_host_label(label@),
    ensures
        name is Some,
        server_name_text(name->0) == label@,
{
    rustls_pki_types::ServerName::try_from(label).ok()
}

/// The name that a connector asks every server for.
pub fn server_name() -> (name: rustls_pki_types::ServerName<'static>)
    ensures
        server_name_text(name) == SERVER_NAME@,
{
    proof {
        reveal_strlit("zenoh-ble-peer");
    }
    name_server(SERVER_NAME).unwrap()
}

/// The certificates of a file that was read to its end are all that its text holds,
/// in their order; no other file has any. Why there are none is told with the path
/// of the file and with the cause.
pub proof fn law_certificates_are_all_in_the_file(file: LoadedFile, certs: Seq<Seq<u8>>)
    ensures
        certs_of(file) == Ok::<Seq<Seq<u8>>, FaultView>(certs) <==> file.read is Bytes
            && pem_certificates(file.read->Bytes_bytes@) == Ok::<Seq<Seq<u8>>, Seq<char>>(certs),
        file.read matches FileRead::Unopened { cause } ==> certs_of(file) == Err::<
            Seq<Seq<u8>>,
            FaultView,
        >(FaultView::OpenCertificates { path: file.path@, cause: cause@ }),
        file.read is Bytes && pem_certificates(file.read->Bytes_bytes@) is Err ==> certs_of(file)
            == Err::<Seq<Seq<u8>>, FaultView>(
            FaultView::ReadCertificates {
                path: file.path@,
                cause: pem_certificates(file.read->Bytes_bytes@)->Err_0,
            },
        ),
{
}

/// The key of a file that was read to its end is the first that its text holds. A
/// text without one, a text that is wrong and a file that could not be opened are
/// told apart, each with the path of the file.
pub proof fn law_key_is_in_the_file(file: LoadedFile, key: (KeyKind, Seq<u8>))
    ensures
        file.read is Bytes ==> (key_of(file) == Ok::<(KeyKind, Seq<u8>), FaultView>(key)
            <==> pem_private_key(file.read->Bytes_bytes@) == Ok::<
            Option<(KeyKind, Seq<u8>)>,
            Seq<char>,
        >(Some(key))),
        file.read is Bytes && pem_private_key(file.read->Bytes_bytes@) == Ok::<
            Option<(KeyKind, Seq<u8>)>,
            Seq<char>,
        >(None) ==> key_of(file) == Err::<(KeyKind, Seq<u8>), FaultView>(
            FaultView::NoKey { path: file.path@ },
        ),
        file.read is Bytes && pem_private_key(file.read->Bytes_bytes@) is Err ==> key_of(file)
            == Err::<(KeyKind, Seq<u8>), FaultView>(
            FaultView::ReadKey {
                path: file.path@,
                cause: pem_private_key(file.read->Bytes_bytes@)->Err_0,
            },
        ),
        file.read matches FileRead::Unopened { cause } ==> key_of(file) == Err::<
            (KeyKind, Seq<u8>),
            FaultView,
        >(FaultView::OpenKey { path: file.path@, cause: cause@ }),
{
}

/// What stands behind the last end of a line is cut off, and nothing else.
proof fn lemma_complete_lines(lines: Seq<u8>, rest: Seq<u8>)
    requires
        lines.len() == 0 || lines.last() == 10 || lines.last() == 13,
        forall|i: int| 0 <= i < rest.len() ==> rest[i] != 10 && rest[i] != 13,
    ensures
        complete_lines(lines + rest) == lines,
    decreases rest.len(),
{
    if rest.len() == 0 {
        assert(lines + rest =~= lines);
    } else {
        lemma_complete_lines(lines, rest.drop_last());
        assert((lines + rest).last() == rest[rest.len() - 1]);
        assert((lines + rest).drop_last() =~= lines + rest.drop_last());
    }
}

/// Of a file that could not be read to its end, the lines that came whole count,
/// and what came of the line behind them does not. A key in these lines is the key of
/// the file. Without one, and for certificates in any case, the file is a fault: that
/// of the lines where it stays the same with a wrong line behind them, and that of
/// reading otherwise.
pub proof fn law_broken_files_count_by_line(
    path: String,
    bytes: Vec<u8>,
    cause: String,
    lines: Seq<u8>,
    rest: Seq<u8>,
)
    requires
        bytes@ == lines + rest,
        lines.len() == 0 || lines.last() == 10 || lines.last() == 13,
        forall|i: int| 0 <= i < rest.len() ==> rest[i] != 10 && rest[i] != 13,
    ensures
        ({
            let file = LoadedFile { path, read: FileRead::Unread { bytes, cause } };
            let more = lines + seq![45u8, 45, 45, 45, 45, 66, 69, 71, 73, 78, 32, 10];
            let certs = pem_certificates(lines);
            let key = pem_private_key(lines);
            &&& certs_of(file) == Err::<Seq<Seq<u8>>, FaultView>(
                FaultView::ReadCertificates {
                    path: path@,
                    cause: if certs is Err && pem_certificates(more) is Err
                        && pem_certificates(more)->Err_0 == certs->Err_0 {
                        certs->Err_0
                    } else {
                        cause@
                    },
                },
            )
            &&& key is Ok && key->Ok_0 is Some ==> key_of(file) == Ok::<
                (KeyKind, Seq<u8>),
                FaultView,
            >(key->Ok_0->0)
            &&& key is Ok && key->Ok_0 is None ==> key_of(file) == Err::<
                (KeyKind, Seq<u8>),
                FaultView,
            >(FaultView::ReadKey { path: path@, cause: cause@ })
            &&& key is Err ==> key_of(file) == Err::<(KeyKind, Seq<u8>), FaultView>(
                FaultView::ReadKey {
                    path: path@,
                    cause: if pem_private_key(more) is Err && pem_private_key(more)->Err_0
                        == key->Err_0 {
                        key->Err_0
                    } else {
                        cause@
                    },
                },
            )
        }),
{
    lemma_complete_lines(lines, rest);
    assert(bad_line() =~= seq![45u8, 45, 45, 45, 45, 66, 69, 71, 73, 78, 32, 10]);
}

/// What is shown is every certificate of the certificate file in its order, however
/// many there are, with the key of the key file; to servers and to clients alike,
/// and whatever else the connection is set up with.
pub proof fn law_identity_is_shown_whole(
    certificate: LoadedFile,
    private_key: LoadedFile,
    certs: Seq<Seq<u8>>,
    key: (KeyKind, Seq<u8>),
    provider: rustls::crypto::CryptoProvider,
    root_ca: LoadedFile,
    verify_name: bool,
    client_ca: Option<LoadedFile>,
)
    requires
        certificate.read is Bytes,
        pem_certificates(certificate.read->Bytes_bytes@) == Ok::<Seq<Seq<u8>>, Seq<char>>(certs),
        key_of(private_key) == Ok::<(KeyKind, Seq<u8>), FaultView>(key),
    ensures
        identity_of(certificate, private_key) == Ok::<Identity, FaultView>((certs, key)),
        ({
            let shown = LoadedIdentity::Files { certificate, private_key };
            connector_parts(provider, root_ca, verify_name, shown) matches Ok(parts)
                ==> parts.identity == Some((certs, key))
        }),
        acceptor_parts(provider, client_ca, certificate, private_key) matches Ok(parts)
            ==> parts.identity == (certs, key),
{
}

/// An identity is to be had exactly where both files give their part; where neither
/// does, the fault is that of the certificates.
pub proof fn law_identity_needs_both_files(certificate: LoadedFile, private_key: LoadedFile)
    ensures
        identity_of(certificate, private_key) is Ok <==> certs_of(certificate) is Ok && key_of(
            private_key,
        ) is Ok,
        certs_of(certificate) matches Err(fault) ==> identity_of(certificate, private_key) == Err::<
            Identity,
            FaultView,
        >(fault),
        certs_of(certificate) is Ok ==> (key_of(private_key) matches Err(fault) ==> identity_of(
            certificate,
            private_key,
        ) == Err::<Identity, FaultView>(fault)),
{
}

/// Certificates give one trust anchor each, in their order, where every one of them
/// holds one.
pub proof fn law_every_certificate_is_trusted(certs: Seq<Seq<u8>>, anchors: Seq<Anchor>)
    ensures
        trust_anchors(certs) == Ok::<Seq<Anchor>, Seq<char>>(anchors) <==> anchors.len()
            == certs.len() && forall|i: int|
            0 <= i < certs.len() ==> trust_anchor(#[trigger] certs[i]) == Ok::<Anchor, Seq<char>>(
                anchors[i],
            ),
    decreases certs.len(),
{
    let each = forall|i: int|
        0 <= i < certs.len() ==> trust_anchor(#[trigger] certs[i]) == Ok::<Anchor, Seq<char>>(
            anchors[i],
        );
    if certs.len() == 0 {
        assert(anchors.len() == 0 ==> anchors =~= Seq::<Anchor>::empty());
    } else {
        let front = certs.drop_last();
        let n = certs.len() - 1;
        if anchors.len() == certs.len() && each {
            assert(trust_anchor(certs[n]) == Ok::<Anchor, Seq<char>>(anchors[n]));
            assert forall|i: int| 0 <= i < front.len() implies trust_anchor(#[trigger] front[i])
                == Ok::<Anchor, Seq<char>>(anchors.drop_last()[i]) by {
                assert(front[i] == certs[i]);
            }
            law_every_certificate_is_trusted(front, anchors.drop_last());
            assert(anchors =~= anchors.drop_last().push(anchors.last()));
        }
        if trust_anchors(certs) == Ok::<Seq<Anchor>, Seq<char>>(anchors) {
            let before = trust_anchors(front)->Ok_0;
            law_every_certificate_is_trusted(front, before);
            assert(anchors == before.push(trust_anchor(certs.last())->Ok_0));
            assert forall|i: int| 0 <= i < certs.len() implies trust_anchor(#[trigger] certs[i])
                == Ok::<Anchor, Seq<char>>(anchors[i]) by {
                if i < n {
                    assert(front[i] == certs[i]);
                }
            }
        }
    }
}

/// The first certificate that holds no trust anchor spoils them all, and its cause is
/// the one that is told.
pub proof fn law_first_bad_certificate_is_told(certs: Seq<Seq<u8>>, n: int)
    requires
        0 <= n < certs.len(),
        forall|i: int| 0 <= i < n ==> trust_anchor(#[trigger] certs[i]) is Ok,
        trust_anchor(certs[n]) is Err,
    ensures
        trust_anchors(certs) == Err::<Seq<Anchor>, Seq<char>>(trust_anchor(certs[n])->Err_0),
{
    let front = certs.take(n);
    let anchors = Seq::new(n as nat, |i: int| trust_anchor(certs[i])->Ok_0);
    assert forall|i: int| 0 <= i < front.len() implies trust_anchor(#[trigger] front[i]) == Ok::<
        Anchor,
        Seq<char>,
    >(anchors[i]) by {
        assert(front[i] == certs[i]);
    }
    law_every_certificate_is_trusted(front, anchors);
    assert(certs.take(n + 1).drop_last() =~= front);
    assert(certs.take(n + 1).last() == certs[n]);
    lemma_trust_anchors_stay_err(certs, n + 1);
}

/// A connector whose root file holds trust anchors only is set up with all of them,
/// verifies names exactly where it is told to, and shows nothing where it has no
/// identity, and both files' contents where it has one. An identity of which only one
/// file is named is refused.
pub proof fn law_connector_is_set_up_by_its_files(
    provider: rustls::crypto::CryptoProvider,
    root_ca: LoadedFile,
    verify_name: bool,
    identity: LoadedIdentity,
    certs: Seq<Seq<u8>>,
    anchors: Seq<Anchor>,
)
    requires
        root_ca.read is Bytes,
        pem_certificates(root_ca.read->Bytes_bytes@) == Ok::<Seq<Seq<u8>>, Seq<char>>(certs),
        anchors.len() == certs.len(),
        forall|i: int|
            0 <= i < certs.len() ==> trust_anchor(#[trigger] certs[i]) == Ok::<Anchor, Seq<char>>(
                anchors[i],
            ),
    ensures
        ({
            let parts = connector_parts(provider, root_ca, verify_name, identity);
            &&& parts is Ok ==> parts->Ok_0.provider == provider && parts->Ok_0.anchors == anchors
                && parts->Ok_0.checks_name == verify_name
            &&& identity is Absent ==> parts is Ok && parts->Ok_0.identity is None
            &&& identity is Unpaired ==> parts == Err::<ClientParts, FaultView>(
                FaultView::UnpairedIdentity,
            )
            &&& identity matches LoadedIdentity::Files { certificate, private_key } ==> {
                &&& parts is Ok <==> identity_of(certificate, private_key) is Ok
                &&& parts is Ok ==> parts->Ok_0.identity is Some
                &&& parts is Err ==> parts->Err_0 == identity_of(certificate, private_key)->Err_0
            }
        }),
{
    law_every_certificate_is_trusted(certs, anchors);
}

/// A connector is refused for its root file before anything else is looked at: where
/// its certificates cannot be had, and where one of them holds no trust anchor.
pub proof fn law_connector_needs_its_roots(
    provider: rustls::crypto::CryptoProvider,
    root_ca: LoadedFile,
    verify_name: bool,
    identity: LoadedIdentity,
)
    ensures
        certs_of(root_ca) matches Err(fault) ==> connector_parts(
            provider,
            root_ca,
            verify_name,
            identity,
        ) == Err::<ClientParts, FaultView>(fault),
        certs_of(root_ca) matches Ok(certs) ==> (trust_anchors(certs) matches Err(cause)
            ==> connector_parts(provider, root_ca, verify_name, identity) == Err::<
            ClientParts,
            FaultView,
        >(FaultView::RootCertificate { cause })),
{
}

/// A listener shows what its two files hold, in records of at most 1024 bytes. It
/// verifies clients exactly where it has a root file, against all the trust anchors
/// in it, and a root file without any is refused; so is one that cannot be had,
/// before anything else is looked at.
pub proof fn law_listener_is_set_up_by_its_files(
    provider: rustls::crypto::CryptoProvider,
    client_ca: Option<LoadedFile>,
    certificate: LoadedFile,
    private_key: LoadedFile,
)
    ensures
        ({
            let parts = acceptor_parts(provider, client_ca, certificate, private_key);
            let shown = identity_of(certificate, private_key);
            &&& parts is Ok ==> {
                &&& parts->Ok_0.provider == provider
                &&& parts->Ok_0.max_fragment_size == Some(1024usize)
                &&& shown is Ok && parts->Ok_0.identity == shown->Ok_0
                &&& parts->Ok_0.anchors is Some <==> client_ca is Some
            }
            &&& client_ca is None ==> (parts is Ok <==> shown is Ok)
            &&& client_ca is None && parts is Err ==> parts->Err_0 == shown->Err_0
            &&& client_ca matches Some(file) ==> match certs_of(file) {
                Err(fault) => parts == Err::<ServerParts, FaultView>(fault),
                Ok(certs) => match trust_anchors(certs) {
                    Err(cause) => parts == Err::<ServerParts, FaultView>(
                        FaultView::RootCertificate { cause },
                    ),
                    Ok(anchors) => {
                        &&& certs.len() == 0 ==> parts == Err::<ServerParts, FaultView>(
                            FaultView::NoRootAnchors,
                        )
                        &&& certs.len() > 0 ==> (parts is Ok <==> shown is Ok)
                        &&& certs.len() > 0 && parts is Err ==> parts->Err_0 == shown->Err_0
                        &&& parts is Ok ==> parts->Ok_0.anchors == Some(anchors)
                    },
                },
            }
        }),
{
    match client_ca {
        Some(file) => {
            if certs_of(file) is Ok {
                lemma_trust_anchors_len(certs_of(file)->Ok_0);
            }
        },
        None => {},
    }
}

} // verus!
