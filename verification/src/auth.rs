//! What is known of who is at the far end of a link.
use vstd::prelude::*;

verus! {

/// The identity of the far end.
#[derive(Debug)]
pub enum LinkAuthId {
    /// None beyond the device itself.
    Ble,
    /// The common name in the certificate that it showed, if there is one.
    Tls(Option<String>),
}

} // verus!
