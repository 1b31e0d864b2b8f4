//! Links over Bluetooth GATT characteristics.
pub mod connect;
pub mod io;
pub mod link;
pub mod listen;
pub mod listener;
pub mod manager;
pub mod service;

use vstd::prelude::*;
use vstd::string::*;
use crate::locator;
use crate::locator::{EndPoint, Locator};
use crate::params;
use crate::text;

verus! {

/// The protocol of these links in locators.
pub const BT_GATT_LOCATOR_PREFIX: &'static str = "bt_gatt";

/// The configuration key for the exclusive use of an adapter.
pub const PORT_EXCLUSIVE_RAW: &'static str = "exclusive";

/// The metadata key for the reliability of a link.
pub const RELIABILITY_KEY: &'static str = "rel";

/// Whether an adapter is used exclusively, where the endpoint does not say.
pub const DEFAULT_EXCLUSIVE: bool = true;

/// What a link promises about delivery.
#[derive(Clone, Copy, PartialEq, Eq, Structural, Debug)]
pub enum Reliability {
    /// Messages may be lost.
    BestEffort,
    /// Messages are delivered.
    Reliable,
}

/// The reliability that a text stands for: the number 0 or 1, in at most eight
/// bits.
pub open spec fn reliability_value(s: Seq<char>) -> Option<Reliability> {
    match text::unsigned_value(s) {
        Some(n) => if n == 0 {
            Some(Reliability::BestEffort)
        } else if n == 1 {
            Some(Reliability::Reliable)
        } else {
            None
        },
        None => None,
    }
}

/// Reads a reliability.
///
/// Calls the `FromStr` implementation of `zenoh_protocol::core::Reliability`,
/// which reads an unsigned number and takes 0 for best effort and 1 for
/// reliable, and nothing else.
#[verifier::external_body]
fn parse_reliability(s: &str) -> (value: Option<Reliability>)
    ensures
        value == reliability_value(s@),
{
    match s.parse::<zenoh_protocol::core::Reliability>() {
        Ok(zenoh_protocol::core::Reliability::BestEffort) => Some(Reliability::BestEffort),
        Ok(zenoh_protocol::core::Reliability::Reliable) => Some(Reliability::Reliable),
        Err(_) => None,
    }
}

/// A text that stands for no reliability.
#[derive(Debug)]
pub struct InvalidReliability {
    pub found: String,
}

/// Whether metadata asks for a reliable link, or the text in it that stands for no
/// reliability.
pub open spec fn reliable_by(metadata: Seq<char>) -> Result<bool, Seq<char>> {
    match params::param_value(metadata, RELIABILITY_KEY@) {
        None => Ok(false),
        Some(s) => match reliability_value(s) {
            Some(r) => Ok(r == Reliability::Reliable),
            None => Err(s),
        },
    }
}

/// Metadata asks for a reliable link exactly where its first entry for `rel` is the
/// number 1. It asks for none where that is the number 0 or is missing, and it is
/// refused with what it says otherwise.
pub proof fn law_reliability_is_asked_for(metadata: Seq<char>)
    ensures
        ({
            let said = params::param_value(metadata, seq!['r', 'e', 'l']);
            let number = if said is Some {
                text::unsigned_value(said->0)
            } else {
                None
            };
            &&& reliable_by(metadata) == Ok::<bool, Seq<char>>(true) <==> number == Some(1nat)
            &&& reliable_by(metadata) == Ok::<bool, Seq<char>>(false) <==> said is None || number
                == Some(0nat)
            &&& reliable_by(metadata) is Err ==> said == Some(reliable_by(metadata)->Err_0)
        }),
{
    reveal_strlit("rel");
    assert("rel"@ =~= seq!['r', 'e', 'l']);
}

/// Tells what a locator of these links promises.
#[derive(Clone, Copy, Default, Debug)]
pub struct BtGattLocatorInspector;

impl BtGattLocatorInspector {
    /// The protocol of these links.
    pub fn protocol(&self) -> (protocol: &'static str)
        ensures
            protocol@ == BT_GATT_LOCATOR_PREFIX@,
    {
        BT_GATT_LOCATOR_PREFIX
    }

    /// These links have one peer.
    pub fn is_multicast(&self, _locator: &Locator) -> (multicast: bool)
        ensures
            multicast == false,
    {
        false
    }

    /// Whether the locator asks for a reliable link. One that does not say asks
    /// for none.
    pub fn is_reliable(&self, locator: &Locator) -> (reliable: Result<bool, InvalidReliability>)
        ensures
            match reliable_by(locator::endpoint_metadata(locator@)) {
                Ok(asked) => reliable == Ok::<bool, InvalidReliability>(asked),
                Err(found) => reliable is Err && reliable->Err_0.found@ == found,
            },
    {
        match locator.metadata_value(RELIABILITY_KEY) {
            None => Ok(false),
            Some(s) => match parse_reliability(s.as_str()) {
                Some(r) => Ok(r == Reliability::Reliable),
                None => Err(InvalidReliability { found: s }),
            },
        }
    }
}

/// Whether a configuration asks for the exclusive use of an adapter.
pub open spec fn exclusive_by(list: Seq<char>) -> bool {
    match params::param_value(list, PORT_EXCLUSIVE_RAW@) {
        Some(s) => match text::bool_value(s) {
            Some(b) => b,
            None => DEFAULT_EXCLUSIVE,
        },
        None => DEFAULT_EXCLUSIVE,
    }
}

/// An adapter is used exclusively unless the first entry for `exclusive` says
/// `false`.
pub proof fn law_adapter_is_exclusive_unless_told(list: Seq<char>)
    ensures
        exclusive_by(list) <==> params::param_value(
            list,
            seq!['e', 'x', 'c', 'l', 'u', 's', 'i', 'v', 'e'],
        ) != Some(seq!['f', 'a', 'l', 's', 'e']),
{
    reveal_strlit("exclusive");
    assert("exclusive"@ =~= seq!['e', 'x', 'c', 'l', 'u', 's', 'i', 'v', 'e']);
    match params::param_value(list, PORT_EXCLUSIVE_RAW@) {
        Some(s) => {
            text::law_each_truth_value_has_one_text(s);
        },
        None => {},
    }
}

/// Whether an endpoint asks for the exclusive use of its adapter. One that does
/// not say, or says neither `true` nor `false`, does.
pub fn get_exclusive(endpoint: &EndPoint) -> (exclusive: bool)
    ensures
        exclusive == exclusive_by(locator::endpoint_config(endpoint@)),
{
    match params::params_get(endpoint.config(), PORT_EXCLUSIVE_RAW) {
        Some(s) => match text::parse_bool(s.as_str()) {
            Some(b) => b,
            None => DEFAULT_EXCLUSIVE,
        },
        None => DEFAULT_EXCLUSIVE,
    }
}

} // verus!
