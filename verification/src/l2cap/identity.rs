//! Who is at the far end of a link, by the certificates that it showed.
use vstd::prelude::*;
use vstd::string::*;
use x509_parser::certificate::X509Certificate;
use x509_parser::prelude::FromDer;
use crate::auth::LinkAuthId;

verus! {

/// The common names in the subject of a certificate, each as far as it is text,
/// or nothing where the certificate cannot be read.
pub uninterp spec fn certificate_common_names(der: Seq<u8>) -> Option<Seq<Option<Seq<char>>>>;

/// Common names as the contracts speak of them.
pub open spec fn names_view(names: Seq<Option<String>>) -> Seq<Option<Seq<char>>> {
    names.map_values(
        |name: Option<String>|
            match name {
                Some(s) => Some(s@),
                None => None,
            },
    )
}

/// Reads the common names in the subject of a certificate.
///
/// Calls `x509_parser::certificate::X509Certificate::from_der`, and of the
/// subject `iter_common_name`, with `as_str` on each; what comes out is named
/// `certificate_common_names`.
#[verifier::external_body]
fn common_names(der: &[u8]) -> (names: Option<Vec<Option<String>>>)
    ensures
        match names {
            Some(names) => certificate_common_names(der@) == Some(names_view(names@)),
            None => certificate_common_names(der@) is None,
        },
{
    let (_, cert) = X509Certificate::from_der(der).ok()?;
    Some(cert.subject().iter_common_name().map(|cn| cn.as_str().ok().map(str::to_owned)).collect())
}

/// The name that counts of the common names of a certificate: the first, where
/// it is text.
pub open spec fn name_that_counts(names: Option<Seq<Option<Seq<char>>>>) -> Option<Seq<char>> {
    match names {
        Some(names) => if names.len() > 0 {
            names[0]
        } else {
            None
        },
        None => None,
    }
}

/// Picks the name that counts. A later name never stands in for a first one
/// that is not text.
pub fn first_common_name(names: Option<Vec<Option<String>>>) -> (name: Option<String>)
    ensures
        match names {
            Some(names) => match name_that_counts(Some(names_view(names@))) {
                Some(s) => name is Some && name->0@ == s,
                None => name is None,
            },
            None => name is None,
        },
{
    match names {
        Some(names) => {
            let mut names = names;
            if names.len() > 0 {
                assert(names_view(names@)[0] == match names@[0] {
                    Some(s) => Some(s@),
                    None => None,
                });
                names.swap_remove(0)
            } else {
                None
            }
        },
        None => None,
    }
}

/// The identity that the certificates of a peer give it.
pub open spec fn peer_name(certs: Option<Seq<Seq<u8>>>) -> Option<Seq<char>> {
    match certs {
        Some(chain) => if chain.len() > 0 {
            name_that_counts(certificate_common_names(chain[0]))
        } else {
            None
        },
        None => None,
    }
}

/// Whether an identity is the one that certificates give a peer.
pub open spec fn is_peer_identity(id: LinkAuthId, certs: Option<&Vec<Vec<u8>>>) -> bool {
    match peer_name(
        match certs {
            Some(chain) => Some(chain.deep_view()),
            None => None,
        },
    ) {
        Some(name) => id matches LinkAuthId::Tls(Some(s)) && s@ == name,
        None => id == LinkAuthId::Tls(None),
    }
}

/// Tells who a peer is: the subject's common name in its first certificate, if
/// there is one.
pub fn peer_cert_cn(certs: Option<&Vec<Vec<u8>>>) -> (id: LinkAuthId)
    ensures
        is_peer_identity(id, certs),
{
    match certs {
        Some(chain) => if chain.len() > 0 {
            assert(chain.deep_view()[0] == chain@[0]@);
            LinkAuthId::Tls(first_common_name(common_names(chain[0].as_slice())))
        } else {
            LinkAuthId::Tls(None)
        },
        None => LinkAuthId::Tls(None),
    }
}

/// A peer is known by the first common name in its first certificate: neither further
/// certificates nor further names change who it is. Without certificates, and where
/// the first cannot be read, has no common name or one that is not text, it is known
/// by no name.
pub proof fn law_first_name_of_first_certificate_counts(
    first: Seq<u8>,
    more: Seq<Seq<u8>>,
    names: Seq<Option<Seq<char>>>,
)
    ensures
        peer_name(None) is None,
        peer_name(Some(Seq::empty())) is None,
        certificate_common_names(first) is None ==> peer_name(Some(seq![first] + more)) is None,
        certificate_common_names(first) == Some(names) ==> peer_name(Some(seq![first] + more))
            == if names.len() == 0 {
            None
        } else {
            names.first()
        },
        peer_name(Some(seq![first] + more)) == peer_name(Some(seq![first])),
{
    assert((seq![first] + more)[0] == first);
}

/// The identity that certificates give a peer is one with a name exactly where they
/// give it one, and with that name; it is never another kind of identity.
pub proof fn law_identity_carries_the_name(id: LinkAuthId, certs: Option<&Vec<Vec<u8>>>)
    requires
        is_peer_identity(id, certs),
    ensures
        id matches LinkAuthId::Tls(name) && match certs {
            None => name is None,
            Some(chain) => match peer_name(Some(chain.deep_view())) {
                Some(s) => name is Some && name->0@ == s,
                None => name is None,
            },
        },
{
}

} // verus!
