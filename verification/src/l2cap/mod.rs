//! Links over Bluetooth L2CAP channels, secured by TLS.
//!
//! A locator is `bt_l2cap_tls/<device>` or `bt_l2cap_tls/<adapter>@<device>`.
pub mod accept;
pub mod adapter;
pub mod address;
pub mod config;
pub mod dial;
pub mod identity;
pub mod link;
pub mod listen;
pub mod manager;
pub mod plan;
pub mod probe;
pub mod scan;
pub mod search;
pub mod tls;

use vstd::prelude::*;
use vstd::string::*;
use crate::gatt::service;
use crate::locator::Locator;

verus! {

/// The protocol of these links in locators.
pub const BT_L2CAP_TLS_LOCATOR_PREFIX: &'static str = "bt_l2cap_tls";

/// The channel that peers listen on.
pub const SWARM_TLS_PSM: u16 = 0x00F0;

/// The service that peers advertise, which is that of the GATT links too.
pub const ZENOH_BLE_SERVICE_UUID: &'static str = "24A9597F-1060-41BB-AB31-B638662BDCCC";

/// Whether the name of a server is verified, where the configuration does not
/// say. A device is known by its hardware address and not by a name in its
/// certificate.
pub const BT_L2CAP_TLS_VERIFY_NAME_ON_CONNECT_DEFAULT: bool = false;

/// Whether both peers show certificates, where the configuration does not say.
pub const BT_L2CAP_TLS_ENABLE_MTLS_DEFAULT: bool = true;

/// The value of a hexadecimal digit.
pub open spec fn hex_digit(c: char) -> Option<nat> {
    if '0' <= c <= '9' {
        Some((c as nat - '0' as nat) as nat)
    } else if 'a' <= c <= 'f' {
        Some((c as nat - 'a' as nat + 10) as nat)
    } else if 'A' <= c <= 'F' {
        Some((c as nat - 'A' as nat + 10) as nat)
    } else {
        None
    }
}

/// Whether a hyphen stands at this place in a hyphenated UUID.
pub open spec fn is_hyphen_place(i: int) -> bool {
    i == 8 || i == 13 || i == 18 || i == 23
}

/// The number that the first `n` places of a hyphenated UUID stand for: its
/// hexadecimal digits, with hyphens in their places.
pub open spec fn uuid_value(s: Seq<char>, n: nat) -> Option<nat>
    decreases n,
{
    if n == 0 {
        Some(0)
    } else {
        let last = s[n - 1];
        match uuid_value(s, (n - 1) as nat) {
            None => None,
            Some(v) => if is_hyphen_place(n - 1) {
                if last == '-' {
                    Some(v)
                } else {
                    None
                }
            } else {
                match hex_digit(last) {
                    Some(d) => Some(v * 16 + d),
                    None => None,
                }
            },
        }
    }
}

/// Reads a UUID of 36 characters.
///
/// Calls `uuid::Uuid::parse_str`, which takes a text of this length as
/// hexadecimal digits of either case in five groups with hyphens between them.
#[verifier::external_body]
fn parse_uuid(s: &str) -> (uuid: Option<u128>)
    requires
        s@.len() == 36,
    ensures
        uuid is Some <==> uuid_value(s@, 36) is Some,
        uuid is Some ==> uuid->0 == uuid_value(s@, 36)->0,
{
    uuid::Uuid::parse_str(s).ok().map(|u| u.as_u128())
}

/// The service that peers advertise.
pub fn service_uuid() -> (uuid: u128)
    ensures
        uuid == service::SERVICE_UUID,
        uuid_value(ZENOH_BLE_SERVICE_UUID@, 36) == Some(uuid as nat),
{
    proof {
        reveal_strlit("24A9597F-1060-41BB-AB31-B638662BDCCC");
        reveal_with_fuel(uuid_value, 37);
    }
    parse_uuid(ZENOH_BLE_SERVICE_UUID).unwrap()
}

/// Tells what a locator of these links promises.
#[derive(Clone, Copy, Default, Debug)]
pub struct BtL2capTlsLocatorInspector;

impl BtL2capTlsLocatorInspector {
    /// The protocol of these links.
    pub fn protocol(&self) -> (protocol: &'static str)
        ensures
            protocol@ == BT_L2CAP_TLS_LOCATOR_PREFIX@,
    {
        BT_L2CAP_TLS_LOCATOR_PREFIX
    }

    /// These links have one peer.
    pub fn is_multicast(&self, _locator: &Locator) -> (multicast: bool)
        ensures
            multicast == false,
    {
        false
    }

    /// These links are reliable.
    pub fn is_reliable(&self, _locator: &Locator) -> (reliable: bool)
        ensures
            reliable == true,
    {
        true
    }
}

} // verus!
