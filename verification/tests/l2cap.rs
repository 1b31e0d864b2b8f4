//! Links over L2CAP channels.
use zenoh_link_bt::auth::LinkAuthId;
use zenoh_link_bt::l2cap::accept::{accept_step, AcceptEvent, AcceptPhase};
use zenoh_link_bt::l2cap::adapter::{
    next_open_step, Attempt, BleConnect, BleEvent, BlePhase, OpenAnswer, OpenNext, OpenStep,
    BLE_CONNECT_RETRIES,
};
use zenoh_link_bt::l2cap::dial::{dial_step, DialEvent, DialFault, DialPhase};
use zenoh_link_bt::l2cap::link::{LinkFault, LinkUnicastBtL2capTls};
use zenoh_link_bt::l2cap::listen::{ListenEvent, ListenPhase, ListenStage};
use zenoh_link_bt::l2cap::manager::LinkManagerUnicastBtL2capTls;
use zenoh_link_bt::l2cap::address::AddressFault;
use zenoh_link_bt::l2cap::config::ClientIdentity;
use zenoh_link_bt::l2cap::plan::{plan_link, plan_listener, PlanFault};
use zenoh_link_bt::l2cap::probe::{probe_step, ProbeEvent, ProbePhase};
use zenoh_link_bt::l2cap::scan::{
    scan_alias, scan_pattern, scan_step, InProgress, ScanEvent, ScanPhase,
};
use zenoh_link_bt::l2cap::search::{search_step, SearchEvent, SearchFault, SearchPhase};
use zenoh_link_bt::l2cap::service_uuid;
use zenoh_link_bt::locator::EndPoint;

fn link() -> LinkUnicastBtL2capTls {
    let id = LinkAuthId::Tls(Some("peer".to_string()));
    LinkUnicastBtL2capTls::new("near", "00:11:22:33:44:55", "bluetooth".to_string(), id).unwrap()
}

#[test]
fn a_channel_tells_what_it_is() {
    let link = link();
    assert_eq!(link.get_mtu(), 1500);
    assert_eq!(link.get_src().as_str(), "bt_l2cap_tls/near");
    assert_eq!(link.get_dst().as_str(), "bt_l2cap_tls/00:11:22:33:44:55");
    assert!(link.is_reliable());
    assert!(link.is_streamed());
    assert_eq!(link.get_interface_names(), vec!["bluetooth".to_string()]);
    assert!(matches!(link.get_auth_id(), LinkAuthId::Tls(Some(name)) if name == "peer"));
    assert_eq!(link.describe(), "bt_l2cap_tls/near => bt_l2cap_tls/00:11:22:33:44:55");
}

#[test]
fn an_end_without_a_locator_is_a_fault() {
    let new = |src: &str, dst: &str| {
        LinkUnicastBtL2capTls::new(src, dst, String::new(), LinkAuthId::Tls(None))
    };
    assert!(matches!(
        new("", ""),
        Err(LinkFault::InvalidSource { path }) if path.is_empty()
    ));
    let long = "x".repeat(300);
    assert!(matches!(
        new("near", &long),
        Err(LinkFault::InvalidDestination { path }) if path == long
    ));
    assert!(matches!(new(&long, "far"), Err(LinkFault::InvalidSource { .. })));
}

#[test]
fn a_channel_explains_its_failures() {
    let link = link();
    assert_eq!(
        link.failure("write_all", "reset"),
        "bt_l2cap_tls write_all on \
         bt_l2cap_tls/near => bt_l2cap_tls/00:11:22:33:44:55: reset"
    );
    assert_eq!(link.finish_read(3, 10), Ok(3));
    assert_eq!(link.finish_read(0, 0), Ok(0));
    assert_eq!(
        link.finish_read(0, 1),
        Err("bt_l2cap_tls connection closed on \
             bt_l2cap_tls/near => bt_l2cap_tls/00:11:22:33:44:55"
            .to_string())
    );
}

fn endpoint(text: &str) -> EndPoint {
    EndPoint::from_text(text.to_string()).unwrap()
}

#[test]
fn an_added_listener_is_taken_out() {
    let mut manager: LinkManagerUnicastBtL2capTls<&str, u8> =
        LinkManagerUnicastBtL2capTls::new("sender");
    assert_eq!(*manager.manager(), "sender");
    let (locator, before) = manager.add_listener(endpoint("bt_l2cap_tls/a#x=1"), 1);
    assert_eq!(locator.as_str(), "bt_l2cap_tls/a");
    assert!(before.is_none());
    manager.add_listener(endpoint("bt_l2cap_tls/b"), 2);
    match manager.del_listener(&endpoint("bt_l2cap_tls/a#x=2")) {
        Ok(l) => assert_eq!((l.handle, l.endpoint.as_str()), (1, "bt_l2cap_tls/a#x=1")),
        Err(_) => panic!("not found"),
    }
    match manager.del_listener(&endpoint("bt_l2cap_tls/a")) {
        Err(e) => assert_eq!(e.locator, "bt_l2cap_tls/a"),
        Ok(_) => panic!("found"),
    }
    let left: Vec<String> =
        manager.get_listeners().iter().map(|e| e.as_str().to_string()).collect();
    assert_eq!(left, vec!["bt_l2cap_tls/b"]);
    let left: Vec<String> =
        manager.get_locators().iter().map(|l| l.as_str().to_string()).collect();
    assert_eq!(left, vec!["bt_l2cap_tls/b"]);
}

#[test]
fn other_listeners_stay() {
    let mut manager: LinkManagerUnicastBtL2capTls<(), u8> = LinkManagerUnicastBtL2capTls::new(());
    manager.add_listener(endpoint("bt_l2cap_tls/a"), 1);
    let (_, before) = manager.add_listener(endpoint("bt_l2cap_tls/a"), 3);
    assert!(matches!(before, Some(l) if l.handle == 1));
    manager.add_listener(endpoint("bt_l2cap_tls/b"), 2);
    assert!(matches!(manager.del_listener(&endpoint("bt_l2cap_tls/a")), Ok(l) if l.handle == 3));
    assert!(matches!(manager.del_listener(&endpoint("bt_l2cap_tls/b")), Ok(l) if l.handle == 2));
}

#[test]
fn an_open_adapter_has_power() {
    let go = |step, answer| next_open_step(step, answer);
    assert_eq!(
        go(OpenStep::OpenSession, OpenAnswer::Done),
        OpenNext::Go(OpenStep::SelectAdapter)
    );
    assert_eq!(go(OpenStep::SelectAdapter, OpenAnswer::Done), OpenNext::Go(OpenStep::CheckPower));
    assert_eq!(go(OpenStep::CheckPower, OpenAnswer::Powered(true)), OpenNext::Open);
    assert_eq!(
        go(OpenStep::CheckPower, OpenAnswer::Powered(false)),
        OpenNext::Go(OpenStep::PowerOn)
    );
    assert_eq!(go(OpenStep::PowerOn, OpenAnswer::Done), OpenNext::Open);
    for step in
        [OpenStep::OpenSession, OpenStep::SelectAdapter, OpenStep::CheckPower, OpenStep::PowerOn]
    {
        assert_eq!(go(step, OpenAnswer::Failed), OpenNext::GiveUp(step));
    }
}

#[test]
fn a_device_is_given_up_after_five_attempts() {
    let mut run = BleConnect::new();
    let mut events = 0;
    assert_eq!(BLE_CONNECT_RETRIES, 5);
    for attempt in 0..5 {
        run.step(BleEvent::Checked(if attempt % 2 == 0 { Some(false) } else { None }));
        assert_eq!(run.phase, BlePhase::Connecting);
        run.step(BleEvent::Attempted(if attempt % 2 == 0 {
            Attempt::Failed
        } else {
            Attempt::TimedOut
        }));
        assert_eq!(run.phase, BlePhase::Pausing);
        run.step(BleEvent::Paused);
        assert_eq!((run.phase, run.retries), (BlePhase::Checking, 4 - attempt));
        events += 3;
    }
    run.step(BleEvent::Checked(None));
    assert_eq!(run.phase, BlePhase::Exhausted);
    assert_eq!(events + 1, 16);
}

#[test]
fn a_device_is_connected_by_an_attempt_or_by_itself() {
    let mut run = BleConnect::new();
    run.step(BleEvent::Checked(Some(true)));
    assert_eq!(run.phase, BlePhase::Connected);
    let mut run = BleConnect::new();
    run.step(BleEvent::Checked(Some(false)));
    run.step(BleEvent::Attempted(Attempt::Done));
    assert_eq!((run.phase, run.retries), (BlePhase::Connected, 5));
}

#[test]
fn a_peer_advertises_the_service() {
    let probe = |events: Vec<ProbeEvent>| {
        let mut phase = ProbePhase::Waiting;
        for event in events {
            phase = probe_step(phase, event);
        }
        phase
    };
    let added = || ProbeEvent::DeviceAdded { address: 7 };
    let uuids = || ProbeEvent::Uuids(Some(vec![1, service_uuid()]));
    assert_eq!(
        probe(vec![
            ProbeEvent::Other,
            added(),
            ProbeEvent::LookedUp(true),
            uuids(),
            ProbeEvent::Type(true),
        ]),
        ProbePhase::Ready { address: 7 }
    );
    let waiting = ProbePhase::Waiting;
    assert_eq!(probe(vec![added(), ProbeEvent::LookedUp(false)]), waiting);
    for uuids in [None, Some(vec![]), Some(vec![1, 2])] {
        let events = vec![added(), ProbeEvent::LookedUp(true), ProbeEvent::Uuids(uuids)];
        assert_eq!(probe(events), waiting);
    }
    assert_eq!(
        probe(vec![added(), ProbeEvent::LookedUp(true), uuids(), ProbeEvent::Type(false)]),
        waiting
    );
    assert_eq!(probe(vec![ProbeEvent::Ended]), ProbePhase::Ended);
}

fn search(events: Vec<SearchEvent>) -> SearchPhase {
    let mut phase = SearchPhase::Opening;
    for event in events {
        phase = search_step(phase, event);
    }
    phase
}

fn up_to_the_peer() -> Vec<SearchEvent> {
    vec![
        SearchEvent::Opened(true),
        SearchEvent::Filtered(true),
        SearchEvent::Named(true),
        SearchEvent::Started(true),
        SearchEvent::Probed(ProbeEvent::DeviceAdded { address: 3 }),
        SearchEvent::Probed(ProbeEvent::LookedUp(false)),
        SearchEvent::Probed(ProbeEvent::DeviceAdded { address: 7 }),
        SearchEvent::Probed(ProbeEvent::LookedUp(true)),
        SearchEvent::Probed(ProbeEvent::Uuids(Some(vec![service_uuid()]))),
        SearchEvent::Probed(ProbeEvent::Type(true)),
    ]
}

#[test]
fn a_channel_leads_to_a_peer() {
    let mut events = up_to_the_peer();
    events.push(SearchEvent::Connected(true));
    events.push(SearchEvent::Channel(Attempt::Done));
    assert_eq!(search(events), SearchPhase::Linked { address: 7 });
}

#[test]
fn a_search_fails_where_a_step_does() {
    let failed = SearchPhase::Failed;
    let faults = [
        SearchFault::Adapter,
        SearchFault::Filter,
        SearchFault::Alias,
        SearchFault::Discovery,
    ];
    for (i, fault) in faults.into_iter().enumerate() {
        let mut events = up_to_the_peer();
        events.truncate(i);
        events.push(match i {
            0 => SearchEvent::Opened(false),
            1 => SearchEvent::Filtered(false),
            2 => SearchEvent::Named(false),
            _ => SearchEvent::Started(false),
        });
        assert_eq!(search(events), failed(fault));
    }
    let mut events = up_to_the_peer();
    events.truncate(4);
    events.push(SearchEvent::Probed(ProbeEvent::Ended));
    assert_eq!(search(events), failed(SearchFault::NotFound));
    let mut events = up_to_the_peer();
    events.push(SearchEvent::Connected(false));
    assert_eq!(search(events), failed(SearchFault::CannotConnect { address: 7 }));
    for (attempt, fault) in [
        (Attempt::Failed, SearchFault::ChannelFailed { address: 7 }),
        (Attempt::TimedOut, SearchFault::ChannelTimedOut { address: 7 }),
    ] {
        let mut events = up_to_the_peer();
        events.push(SearchEvent::Connected(true));
        events.push(SearchEvent::Channel(attempt));
        assert_eq!(search(events), failed(fault));
    }
}

#[test]
fn a_search_runs_out_of_time_anywhere() {
    for i in 0..11 {
        let mut events = up_to_the_peer();
        events.truncate(i);
        events.push(SearchEvent::TimeUp);
        assert_eq!(search(events), SearchPhase::Failed(SearchFault::TimedOut));
    }
}

#[test]
fn a_scan_has_a_name_and_a_pattern() {
    assert_eq!(scan_alias(Some("desk".to_string())), "desk");
    assert_eq!(scan_alias(None), "bt");
    assert_eq!(scan_pattern(""), None);
    assert_eq!(scan_pattern("dev"), Some("dev".to_string()));
}

#[test]
fn a_device_is_accepted_once_at_a_time() {
    let mut devices = InProgress::new();
    assert!(devices.begin(7));
    assert!(!devices.begin(7));
    assert!(devices.begin(8));
    devices.finish(7);
    assert!(!devices.begin(8));
    assert!(devices.begin(7));
    devices.finish(9);
    assert!(!devices.begin(7));
}

fn scan(events: Vec<ScanEvent>) -> ScanPhase {
    let mut phase = ScanPhase::Filtering;
    for event in events {
        phase = scan_step(phase, event);
    }
    phase
}

fn up_to_the_claim() -> Vec<ScanEvent> {
    vec![
        ScanEvent::Filtered(false),
        ScanEvent::Started(false),
        ScanEvent::Paused,
        ScanEvent::Started(true),
        ScanEvent::Probed(ProbeEvent::Ended),
        ScanEvent::Started(true),
        ScanEvent::Probed(ProbeEvent::DeviceAdded { address: 7 }),
        ScanEvent::Probed(ProbeEvent::LookedUp(true)),
        ScanEvent::Probed(ProbeEvent::Uuids(Some(vec![service_uuid()]))),
        ScanEvent::Probed(ProbeEvent::Type(true)),
    ]
}

#[test]
fn a_scan_accepts_peers_only() {
    assert_eq!(scan(up_to_the_claim()), ScanPhase::Claiming { address: 7 });
    let mut events = up_to_the_claim();
    events.push(ScanEvent::Claimed(true));
    assert_eq!(scan(events), ScanPhase::Accepting { address: 7 });
    let mut events = up_to_the_claim();
    events.push(ScanEvent::Claimed(true));
    events.push(ScanEvent::Accepting);
    assert_eq!(scan(events), ScanPhase::Probing(ProbePhase::Waiting));
    let mut events = up_to_the_claim();
    events.push(ScanEvent::Claimed(false));
    assert_eq!(scan(events), ScanPhase::Probing(ProbePhase::Waiting));
}

#[test]
fn only_being_cancelled_stops_a_scan() {
    let mut events = up_to_the_claim();
    events.truncate(2);
    assert_eq!(scan(events), ScanPhase::Pausing);
    let mut events = up_to_the_claim();
    events.truncate(5);
    assert_eq!(scan(events), ScanPhase::Discovering);
    for i in [4, 6, 7, 8, 9] {
        let mut events = up_to_the_claim();
        events.truncate(i);
        events.push(ScanEvent::Cancelled);
        assert_eq!(scan(events), ScanPhase::Stopped);
    }
}

fn accept(events: &[AcceptEvent]) -> AcceptPhase {
    let mut phase = AcceptPhase::Connecting;
    for event in events {
        phase = accept_step(phase, *event);
    }
    phase
}

#[test]
fn every_acceptance_ends_with_a_release() {
    let connected = AcceptEvent::Connected(true);
    let channel = AcceptEvent::Channel(Attempt::Done);
    let secured = AcceptEvent::Handshake(Attempt::Done);
    let built = AcceptEvent::Built(true);
    let courses: Vec<Vec<AcceptEvent>> = vec![
        vec![AcceptEvent::Connected(false)],
        vec![connected, AcceptEvent::Channel(Attempt::Failed), AcceptEvent::Disconnected(true)],
        vec![connected, AcceptEvent::Channel(Attempt::TimedOut), AcceptEvent::Disconnected(false)],
        vec![
            connected,
            channel,
            AcceptEvent::Handshake(Attempt::Failed),
            AcceptEvent::Disconnected(true),
        ],
        vec![
            connected,
            channel,
            AcceptEvent::Handshake(Attempt::TimedOut),
            AcceptEvent::Disconnected(true),
        ],
        vec![connected, channel, secured, AcceptEvent::Built(false)],
        vec![connected, channel, secured, built, AcceptEvent::Cancelled(true)],
        vec![
            connected,
            channel,
            secured,
            built,
            AcceptEvent::Cancelled(false),
            AcceptEvent::Delivered(true),
        ],
        vec![
            connected,
            channel,
            secured,
            built,
            AcceptEvent::Cancelled(false),
            AcceptEvent::Delivered(false),
        ],
    ];
    for mut course in courses {
        assert_eq!(accept(&course), AcceptPhase::Releasing);
        course.push(AcceptEvent::Released);
        assert_eq!(accept(&course), AcceptPhase::Done);
    }
}

#[test]
fn only_secured_links_are_delivered() {
    let course = [
        AcceptEvent::Connected(true),
        AcceptEvent::Channel(Attempt::Done),
        AcceptEvent::Handshake(Attempt::Done),
        AcceptEvent::Built(true),
        AcceptEvent::Cancelled(false),
    ];
    assert_eq!(accept(&course), AcceptPhase::Delivering);
    for n in 0..5 {
        assert_ne!(accept(&course[..n]), AcceptPhase::Delivering);
    }
    assert_eq!(
        accept(&[AcceptEvent::Connected(true), AcceptEvent::Channel(Attempt::TimedOut)]),
        AcceptPhase::Disconnecting
    );
}

#[test]
fn a_secured_channel_makes_a_link() {
    let address = 0x001A_7DDA_7113;
    let link = LinkUnicastBtL2capTls::secured("desk", address, None).unwrap();
    assert_eq!(link.describe(), "bt_l2cap_tls/desk => bt_l2cap_tls/00:1A:7D:DA:71:13");
    assert_eq!(link.get_interface_names(), vec!["bluetooth".to_string()]);
    assert!(matches!(link.get_auth_id(), LinkAuthId::Tls(None)));
    assert!(matches!(
        LinkUnicastBtL2capTls::secured("", address, None),
        Err(LinkFault::InvalidSource { path }) if path.is_empty()
    ));
}

#[test]
fn an_endpoint_plans_a_link() {
    let list = "root_ca_certificate_file=/ca;tls_handshake_timeout_ms=5";
    match plan_link(&endpoint(&format!("bt_l2cap_tls/hci1@dev#{}", list))) {
        Ok(plan) => {
            assert_eq!(plan.place.adapter, Some("hci1".to_string()));
            assert_eq!(plan.place.device, "dev");
            assert_eq!(plan.place.handshake_timeout_ms, 5);
            assert_eq!(plan.connector.root_ca, "/ca");
            assert!(!plan.connector.verify_name);
            assert!(matches!(plan.connector.identity, ClientIdentity::Absent));
        }
        Err(_) => panic!("no plan"),
    }
    assert!(matches!(
        plan_link(&endpoint("bt_l2cap_tls/a@b@c")),
        Err(PlanFault::Address(e)) if e.fault == AddressFault::TooManyAts && e.address == "a@b@c"
    ));
    assert!(matches!(
        plan_link(&endpoint("bt_l2cap_tls/dev")),
        Err(PlanFault::Missing(e)) if e.key == "root_ca_certificate_file"
    ));
}

#[test]
fn an_endpoint_plans_a_listener() {
    let list = "enable_mtls=false;listen_certificate_file=/c;listen_private_key_file=/k";
    match plan_listener(&endpoint(&format!("bt_l2cap_tls/dev#{}", list))) {
        Ok(plan) => {
            assert_eq!(plan.place.adapter, None);
            assert_eq!(plan.place.device, "dev");
            assert_eq!(plan.place.handshake_timeout_ms, 10_000);
            assert_eq!(plan.acceptor.certificate, "/c");
            assert_eq!(plan.acceptor.private_key, "/k");
            assert_eq!(plan.acceptor.client_ca, None);
        }
        Err(_) => panic!("no plan"),
    }
    assert!(matches!(
        plan_listener(&endpoint("bt_l2cap_tls/@dev")),
        Err(PlanFault::Address(e)) if e.fault == AddressFault::EmptyAdapter
    ));
    assert!(matches!(
        plan_listener(&endpoint("bt_l2cap_tls/dev")),
        Err(PlanFault::Missing(e)) if e.key == "listen_certificate_file"
    ));
}

fn told(manager: &LinkManagerUnicastBtL2capTls<(), u8>) -> Vec<String> {
    manager.get_listeners().iter().map(|e| e.as_str().to_string()).collect()
}

#[test]
fn a_listener_is_told_once_it_is_started() {
    let mut manager: LinkManagerUnicastBtL2capTls<(), u8> = LinkManagerUnicastBtL2capTls::new(());
    assert!(manager.get_locators().is_empty());
    manager.add_listener(endpoint("bt_l2cap_tls/a#x=1"), 1);
    manager.add_listener(endpoint("bt_l2cap_tls/b"), 2);
    let mut phase = ListenPhase::Preparing(ListenStage::Plan);
    for after in [
        ListenPhase::Preparing(ListenStage::Build),
        ListenPhase::Preparing(ListenStage::Open),
        ListenPhase::Starting,
    ] {
        let (next, locator) = manager.listen_step(phase, ListenEvent::Prepared(true));
        assert!(locator.is_none());
        assert_eq!(next, after);
        phase = next;
    }
    assert_eq!(told(&manager), vec!["bt_l2cap_tls/a#x=1", "bt_l2cap_tls/b"]);
    let started = ListenEvent::Started { endpoint: endpoint("bt_l2cap_tls/a#x=2"), handle: 3 };
    let (phase, locator) = manager.listen_step(phase, started);
    assert_eq!(phase, ListenPhase::Listening);
    assert_eq!(locator.unwrap().as_str(), "bt_l2cap_tls/a");
    assert_eq!(told(&manager), vec!["bt_l2cap_tls/b", "bt_l2cap_tls/a#x=2"]);
    let locators: Vec<String> =
        manager.get_locators().iter().map(|l| l.as_str().to_string()).collect();
    assert_eq!(locators, vec!["bt_l2cap_tls/b", "bt_l2cap_tls/a"]);
}

#[test]
fn a_listener_that_fails_changes_nothing() {
    let mut manager: LinkManagerUnicastBtL2capTls<(), u8> = LinkManagerUnicastBtL2capTls::new(());
    manager.add_listener(endpoint("bt_l2cap_tls/a"), 1);
    for stage in [ListenStage::Plan, ListenStage::Build, ListenStage::Open] {
        let phase = ListenPhase::Preparing(stage);
        let (next, locator) = manager.listen_step(phase, ListenEvent::Prepared(false));
        assert_eq!(next, ListenPhase::Failed(stage));
        assert!(locator.is_none());
        assert_eq!(told(&manager), vec!["bt_l2cap_tls/a"]);
    }
}

fn dial(events: &[DialEvent]) -> DialPhase {
    let mut phase = DialPhase::Planning;
    for event in events {
        phase = dial_step(phase, *event);
    }
    phase
}

#[test]
fn a_link_is_made_of_a_secured_channel() {
    let course = [
        DialEvent::Planned(true),
        DialEvent::Built(true),
        DialEvent::Searched(SearchPhase::Linked { address: 7 }),
        DialEvent::Handshake(Attempt::Done),
        DialEvent::Made(true),
    ];
    assert_eq!(dial(&course), DialPhase::Linked { address: 7 });
    let failures = [
        (0, DialEvent::Planned(false), DialFault::Plan),
        (1, DialEvent::Built(false), DialFault::Connector),
        (
            2,
            DialEvent::Searched(SearchPhase::Failed(SearchFault::NotFound)),
            DialFault::Search(SearchFault::NotFound),
        ),
        (3, DialEvent::Handshake(Attempt::Failed), DialFault::HandshakeFailed { address: 7 }),
        (3, DialEvent::Handshake(Attempt::TimedOut), DialFault::HandshakeTimedOut { address: 7 }),
        (4, DialEvent::Made(false), DialFault::Locator { address: 7 }),
    ];
    for (n, event, fault) in failures {
        let mut events = course[..n].to_vec();
        events.push(event);
        assert_eq!(dial(&events), DialPhase::Failed(fault));
    }
}
