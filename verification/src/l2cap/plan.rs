//! What an endpoint asks for.
use vstd::prelude::*;
use vstd::string::*;
use crate::address;
use crate::l2cap::address as l2cap_address;
use crate::l2cap::address::InvalidAddress;
use crate::l2cap::config;
use crate::l2cap::config::{AcceptorPlan, ConnectorPlan, MissingParameter};
use crate::locator;
use crate::locator::EndPoint;
use crate::params;

verus! {

/// Why an endpoint cannot be served.
#[derive(Debug)]
pub enum PlanFault {
    /// It names no device.
    Address(InvalidAddress),
    /// Its configuration lacks a parameter.
    Missing(MissingParameter),
}

/// Where an endpoint is.
pub struct Place {
    /// The adapter, or the default one.
    pub adapter: Option<String>,
    pub device: String,
    /// How long a handshake may take there.
    pub handshake_timeout_ms: u64,
}

/// How to make a link.
pub struct LinkPlan {
    pub place: Place,
    pub connector: ConnectorPlan,
}

/// How to listen.
pub struct ListenerPlan {
    pub place: Place,
    pub acceptor: AcceptorPlan,
}

/// Whether a place is the one of an endpoint.
pub open spec fn place_is(place: Place, endpoint: Seq<char>) -> bool {
    let at = locator::endpoint_address(endpoint);
    &&& config::option_text(place.adapter) == address::adapter_part(at)
    &&& place.device@ == address::device_part(at)
    &&& place.handshake_timeout_ms as nat == config::handshake_ms(
        locator::endpoint_config(endpoint),
    )
}

/// Whether the fault of an endpoint is its address.
pub open spec fn is_address_fault(fault: PlanFault, endpoint: Seq<char>) -> bool {
    let at = locator::endpoint_address(endpoint);
    fault matches PlanFault::Address(e) && l2cap_address::address_fault(at) == Some(e.fault)
        && e.address@ == at
}

/// Tells the place of an endpoint.
fn plan_place(endpoint: &EndPoint) -> (place: Result<Place, PlanFault>)
    ensures
        place is Ok <==> l2cap_address::address_fault(locator::endpoint_address(endpoint@)) is None,
        place matches Ok(place) ==> place_is(place, endpoint@),
        place matches Err(fault) ==> is_address_fault(fault, endpoint@),
{
    match l2cap_address::parse_address(endpoint.address()) {
        Ok((adapter, device)) => Ok(
            Place {
                adapter: match adapter {
                    Some(name) => Some(name.to_owned()),
                    None => None,
                },
                device: device.to_owned(),
                handshake_timeout_ms: config::handshake_timeout_ms(endpoint.config()),
            },
        ),
        Err(e) => Err(PlanFault::Address(e)),
    }
}

/// Whether a link is planned by its endpoint.
pub open spec fn link_is_planned(plan: Result<LinkPlan, PlanFault>, endpoint: Seq<char>) -> bool {
    let list = locator::endpoint_config(endpoint);
    let fault = l2cap_address::address_fault(locator::endpoint_address(endpoint));
    let root = params::param_value(list, config::TLS_ROOT_CA_CERTIFICATE_FILE@);
    match plan {
        Ok(plan) => fault is None && place_is(plan.place, endpoint) && config::connector_is(
            plan.connector,
            list,
        ),
        Err(e) => if fault is Some {
            is_address_fault(e, endpoint)
        } else {
            &&& e matches PlanFault::Missing(missing)
            &&& missing.key@ == config::TLS_ROOT_CA_CERTIFICATE_FILE@
            &&& root is None
        },
    }
}

/// Whether a listener is planned by its endpoint.
pub open spec fn listener_is_planned(
    plan: Result<ListenerPlan, PlanFault>,
    endpoint: Seq<char>,
) -> bool {
    let list = locator::endpoint_config(endpoint);
    let fault = l2cap_address::address_fault(locator::endpoint_address(endpoint));
    match plan {
        Ok(plan) => fault is None && place_is(plan.place, endpoint) && config::acceptor_is(
            plan.acceptor,
            list,
        ) && config::acceptor_lacks(list) is None,
        Err(e) => if fault is Some {
            is_address_fault(e, endpoint)
        } else {
            &&& e matches PlanFault::Missing(missing)
            &&& config::acceptor_lacks(list) == Some(missing.key@)
        },
    }
}

/// Plans a link by its endpoint. The address is looked at first.
pub fn plan_link(endpoint: &EndPoint) -> (plan: Result<LinkPlan, PlanFault>)
    ensures
        ({
            let list = locator::endpoint_config(endpoint@);
            let fault = l2cap_address::address_fault(locator::endpoint_address(endpoint@));
            let root = params::param_value(list, config::TLS_ROOT_CA_CERTIFICATE_FILE@);
            match plan {
                Ok(plan) => fault is None && place_is(plan.place, endpoint@)
                    && config::connector_is(plan.connector, list),
                Err(e) => if fault is Some {
                    is_address_fault(e, endpoint@)
                } else {
                    &&& e matches PlanFault::Missing(missing)
                    &&& missing.key@ == config::TLS_ROOT_CA_CERTIFICATE_FILE@
                    &&& root is None
                },
            }
        }),
        link_is_planned(plan, endpoint@),
{
    let place = match plan_place(endpoint) {
        Ok(place) => place,
        Err(fault) => {
            return Err(fault);
        },
    };
    match config::plan_connector(endpoint.config()) {
        Ok(connector) => Ok(LinkPlan { place, connector }),
        Err(e) => Err(PlanFault::Missing(e)),
    }
}

/// Plans a listener by its endpoint. The address is looked at first.
pub fn plan_listener(endpoint: &EndPoint) -> (plan: Result<ListenerPlan, PlanFault>)
    ensures
        ({
            let list = locator::endpoint_config(endpoint@);
            let fault = l2cap_address::address_fault(locator::endpoint_address(endpoint@));
            match plan {
                Ok(plan) => fault is None && place_is(plan.place, endpoint@)
                    && config::acceptor_is(plan.acceptor, list) && config::acceptor_lacks(
                    list,
                ) is None,
                Err(e) => if fault is Some {
                    is_address_fault(e, endpoint@)
                } else {
                    &&& e matches PlanFault::Missing(missing)
                    &&& config::acceptor_lacks(list) == Some(missing.key@)
                },
            }
        }),
        listener_is_planned(plan, endpoint@),
{
    let place = match plan_place(endpoint) {
        Ok(place) => place,
        Err(fault) => {
            return Err(fault);
        },
    };
    match config::plan_acceptor(endpoint.config()) {
        Ok(acceptor) => Ok(ListenerPlan { place, acceptor }),
        Err(e) => Err(PlanFault::Missing(e)),
    }
}

/// The place of an endpoint with an adapter is that adapter and that device, and the
/// place of one without is that device on the default adapter, whatever metadata and
/// configuration follow; a handshake may take as long there as the configuration
/// says.
pub proof fn law_place_reads_back(
    place: Place,
    protocol: Seq<char>,
    adapter: Option<Seq<char>>,
    device: Seq<char>,
    metadata: Option<Seq<char>>,
    list: Option<Seq<char>>,
)
    requires
        locator::is_plain_protocol(protocol),
        adapter matches Some(a) ==> locator::is_plain_address(a) && !a.contains('@'),
        adapter is None ==> !device.contains('@'),
        locator::is_plain_address(device),
        metadata matches Some(m) ==> !m.contains('#'),
        metadata is None ==> (list matches Some(c) ==> !c.contains('?')),
        place_is(
            place,
            locator::endpoint_text(
                protocol,
                match adapter {
                    Some(a) => a + seq!['@'] + device,
                    None => device,
                },
                metadata,
                list,
            ),
        ),
    ensures
        config::option_text(place.adapter) == adapter,
        place.device@ == device,
        place.handshake_timeout_ms as nat == match list {
            Some(c) => config::handshake_ms(c),
            None => 10_000,
        },
{
    let at = match adapter {
        Some(a) => a + seq!['@'] + device,
        None => device,
    };
    assert forall|i: int| 0 <= i < at.len() implies at[i] != '?' && at[i] != '#' by {
        match adapter {
            Some(a) => {
                if i < a.len() {
                    assert(a.contains(a[i]));
                } else if i > a.len() {
                    assert(at[i] == device[i - a.len() - 1]);
                    assert(device.contains(device[i - a.len() - 1]));
                }
            },
            None => {
                assert(device.contains(device[i]));
            },
        }
    }
    locator::law_endpoint_reads_back(protocol, at, metadata, list);
    match adapter {
        Some(a) => {
            address::law_address_reads_back(a, device);
        },
        None => {
            address::law_address_reads_back(Seq::empty(), device);
        },
    }
    if list is None {
        params::law_first_entry_counts(
            seq!['k'],
            Seq::empty(),
            Seq::empty(),
            config::TLS_HANDSHAKE_TIMEOUT_MS@,
        );
    }
}

/// An address that is refused is told as it stands in the endpoint, with what is wrong
/// with it.
pub proof fn law_refused_address_is_told(
    fault: PlanFault,
    protocol: Seq<char>,
    at: Seq<char>,
    metadata: Option<Seq<char>>,
    list: Option<Seq<char>>,
)
    requires
        locator::is_plain_protocol(protocol),
        locator::is_plain_address(at),
        metadata matches Some(m) ==> !m.contains('#'),
        metadata is None ==> (list matches Some(c) ==> !c.contains('?')),
        is_address_fault(fault, locator::endpoint_text(protocol, at, metadata, list)),
    ensures
        fault matches PlanFault::Address(e) && e.address@ == at && l2cap_address::address_fault(at)
            == Some(e.fault),
{
    locator::law_endpoint_reads_back(protocol, at, metadata, list);
}

/// An endpoint whose parts read back is planned for exactly where its address names a
/// device and its configuration names what is needed: a root for a link, and for a
/// listener a certificate, a key and, unless clients need no certificate, a root. A
/// wrong address is told before anything that is missing.
pub proof fn law_plans_are_owed(
    link: Result<LinkPlan, PlanFault>,
    listener: Result<ListenerPlan, PlanFault>,
    protocol: Seq<char>,
    at: Seq<char>,
    metadata: Option<Seq<char>>,
    list: Seq<char>,
)
    requires
        locator::is_plain_protocol(protocol),
        locator::is_plain_address(at),
        metadata matches Some(m) ==> !m.contains('#'),
        metadata is None ==> !list.contains('?'),
        link_is_planned(link, locator::endpoint_text(protocol, at, metadata, Some(list))),
        listener_is_planned(listener, locator::endpoint_text(protocol, at, metadata, Some(list))),
    ensures
        ({
            let named = |key: Seq<char>| params::param_value(list, key) is Some;
            let root = named("root_ca_certificate_file"@);
            let for_anyone = params::param_value(list, "enable_mtls"@) == Some(
                seq!['f', 'a', 'l', 's', 'e'],
            );
            let wrong = l2cap_address::address_fault(at) is Some;
            &&& link is Ok <==> !wrong && root
            &&& listener is Ok <==> !wrong && named("listen_certificate_file"@) && named(
                "listen_private_key_file"@,
            ) && (root || for_anyone)
            &&& wrong ==> link->Err_0 is Address && listener->Err_0 is Address
            &&& !wrong && link is Err ==> link->Err_0 is Missing
            &&& !wrong && listener is Err ==> listener->Err_0 is Missing
        }),
{
    locator::law_endpoint_reads_back(protocol, at, metadata, Some(list));
    config::law_listener_needs_its_files(list);
    if link is Ok {
        config::law_connector_follows_list(link->Ok_0.connector, list);
    }
}

} // verus!
