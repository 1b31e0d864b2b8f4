//! Links over GATT characteristics.
use zenoh_link_bt::auth::LinkAuthId;
use zenoh_link_bt::gatt::connect::{
    find_step, role_of, CharacteristicRole, CharacteristicSearch, ConnectEvent, ConnectPhase,
    Connecting, FindEvent, FindPhase, FindStep, CONNECT_RETRIES,
};
use zenoh_link_bt::gatt::io::{
    GattCharRead, GattCharWrite, PacketTruncated, RemoteCharacteristicReader,
    RemoteCharacteristicWriter, WriteOp, WriteRequest,
};
use zenoh_link_bt::gatt::link::{
    close_step, read_step, start_read, CloseEvent, ClosePhase, DeviceHandle, LinkUnicastBtGatt,
    ReadExact, ReadPhase, WriteAll,
};
use zenoh_link_bt::gatt::listen::{ListenEvent, ListenPhase};
use zenoh_link_bt::gatt::listener::{ListenerAction, ListenerEvent, PairingTable};
use zenoh_link_bt::gatt::manager::LinkManagerUnicastBtGatt;
use zenoh_link_bt::gatt::service::{
    advertisement, next_setup_step, service, CharacteristicUse, SetupAnswer, SetupStep,
    RX_CHAR_UUID, SERVICE_UUID, TX_CHAR_UUID,
};
use zenoh_link_bt::locator::{EndPoint, Locator};

fn link(read_mtu: usize, write_mtu: usize) -> LinkUnicastBtGatt {
    let reader = RemoteCharacteristicReader::new(read_mtu);
    let writer = RemoteCharacteristicWriter::new(write_mtu, WriteOp::Request);
    LinkUnicastBtGatt::checked_new(&reader, &writer, "near", "far", "hci0".to_string()).unwrap()
}

#[test]
fn a_link_tells_what_it_is() {
    let link = link(100, 23);
    assert_eq!(link.get_mtu(), 23);
    assert_eq!(link.get_src().as_str(), "bt_gatt/near");
    assert_eq!(link.get_dst().as_str(), "bt_gatt/far");
    assert!(!link.is_reliable());
    assert!(!link.is_streamed());
    assert_eq!(link.get_interface_names(), vec!["hci0".to_string()]);
    assert!(matches!(link.get_auth_id(), LinkAuthId::Ble));
    assert_eq!(link.describe(), "bt_gatt/near => bt_gatt/far");
}

#[test]
fn a_link_explains_its_failures() {
    let link = link(23, 23);
    let gone = "Unable to read from BT GATT link bt_gatt/near => bt_gatt/far: \
                Peripheral not connected";
    assert_eq!(link.read_err(), gone);
    assert_eq!(link.write_err(), gone);
    assert_eq!(
        link.close_err("busy"),
        "Unable to close BT GATT link bt_gatt/near => bt_gatt/far: busy"
    );
}

#[test]
fn a_packet_size_is_cut_to_16_bits() {
    assert_eq!(link(65_535, 70_000).get_mtu(), 65_535);
    assert_eq!(link(65_536, 70_000).get_mtu(), 0);
    assert_eq!(link(65_559, 70_000).get_mtu(), 23);
}

#[test]
fn a_link_without_locators_is_not_made() {
    let reader = RemoteCharacteristicReader::new(23);
    let writer = RemoteCharacteristicWriter::new(23, WriteOp::Request);
    for (src, dst) in [("", "far"), ("near", "")] {
        let made = LinkUnicastBtGatt::checked_new(&reader, &writer, src, dst, String::new());
        assert!(made.is_none());
    }
    let src = Locator::new("bt_gatt", "a", "").unwrap();
    let dst = Locator::new("bt_gatt", "b", "").unwrap();
    let made = LinkUnicastBtGatt::with_locators(&reader, &writer, src, dst, String::new());
    assert_eq!(made.describe(), "bt_gatt/a => bt_gatt/b");
    let made = LinkUnicastBtGatt::new(&reader, &writer, "c", "d", String::new());
    assert_eq!(made.describe(), "bt_gatt/c => bt_gatt/d");
}

#[test]
fn a_write_sends_one_packet() {
    let link = link(4, 9);
    assert_eq!(link.packet(&[1, 2, 3, 4, 5, 6]), &[1, 2, 3, 4]);
    assert_eq!(link.packet(&[1, 2]), &[1, 2]);
    assert!(link.packet(&[]).is_empty());
}

#[test]
fn packets_carry_everything() {
    let link = link(4, 9);
    let data: Vec<u8> = (0..10).collect();
    let mut course = WriteAll::new();
    let mut packets: Vec<Vec<u8>> = Vec::new();
    while let Some(packet) = course.next_packet(&link, &data) {
        packets.push(packet.to_vec());
        let n = packet.len();
        course.sent(n);
    }
    assert_eq!(packets, vec![vec![0, 1, 2, 3], vec![4, 5, 6, 7], vec![8, 9]]);
    assert_eq!(packets.concat(), data);
    assert!(WriteAll::new().next_packet(&link, &[]).is_none());
}

#[test]
fn a_buffer_is_filled_from_its_front() {
    let mut course = ReadExact::new();
    assert_eq!(course.next_start(5), Some(0));
    course.received(3);
    assert_eq!(course.next_start(5), Some(3));
    course.received(0);
    assert_eq!(course.next_start(5), Some(3));
    course.received(2);
    assert_eq!(course.next_start(5), None);
    assert_eq!(ReadExact::new().next_start(0), None);
}

#[test]
fn a_read_makes_one_reading() {
    assert_eq!(start_read(0), ReadPhase::Done { n: 0 });
    assert_eq!(start_read(10), ReadPhase::Reading);
    assert_eq!(read_step(ReadPhase::Reading, Some(3)), ReadPhase::Done { n: 3 });
    assert_eq!(read_step(ReadPhase::Reading, Some(0)), ReadPhase::Ended);
    assert_eq!(read_step(ReadPhase::Reading, None), ReadPhase::Failed);
    assert_eq!(link(23, 23).end_of_life(), "End Of Life for bt_gatt/near");
}

#[test]
fn a_device_is_given_away_once() {
    let mut handle = DeviceHandle::new(Some(7));
    assert_eq!(handle.close(), (Some(7), ClosePhase::Checking));
    assert_eq!(handle.close(), (None, ClosePhase::Closed));
    assert_eq!(DeviceHandle::<u8>::new(None).close(), (None, ClosePhase::Closed));
}

#[test]
fn a_device_is_disconnected_where_it_is_connected() {
    let step = close_step;
    assert_eq!(step(ClosePhase::Checking, CloseEvent::Connected(false)), ClosePhase::Closed);
    let phase = step(ClosePhase::Checking, CloseEvent::Connected(true));
    assert_eq!(phase, ClosePhase::Disconnecting);
    assert_eq!(step(phase, CloseEvent::Disconnected(true)), ClosePhase::Closed);
    assert_eq!(step(phase, CloseEvent::Disconnected(false)), ClosePhase::Failed);
}

#[test]
fn a_remote_writer_refuses_what_does_not_fit() {
    let writer = RemoteCharacteristicWriter::new(3, WriteOp::Request);
    let request = WriteRequest { op: WriteOp::Request, offset: 0, prepare_authorize: false };
    assert_eq!(writer.write(&[1, 2, 3]), Ok(request));
    assert_eq!(writer.write(&[]), Ok(request));
    assert_eq!(writer.write(&[1, 2, 3, 4]), Err(PacketTruncated { packet: 4, room: 3 }));
    assert_eq!(writer.mtu(), 3);
    let mut writer = RemoteCharacteristicWriter::new(3, WriteOp::Command);
    assert_eq!(writer.write(&[1]).map(|r| r.op), Ok(WriteOp::Command));
    assert_eq!(GattCharWrite::mtu(&&mut writer), 3);
}

#[test]
fn a_remote_reader_takes_whole_packets() {
    let reader = RemoteCharacteristicReader::new(23);
    let mut buf = [9u8; 4];
    assert_eq!(reader.read(&mut buf, Some(&[1, 2, 3])), Ok(3));
    assert_eq!(buf, [1, 2, 3, 9]);
    assert_eq!(reader.read(&mut buf, Some(&[4, 5, 6, 7])), Ok(4));
    assert_eq!(buf, [4, 5, 6, 7]);
    assert_eq!(reader.read(&mut buf, None), Ok(0));
    assert_eq!(buf, [4, 5, 6, 7]);
    assert_eq!(reader.mtu(), 23);
}

#[test]
fn a_remote_reader_refuses_what_does_not_fit() {
    let mut reader = RemoteCharacteristicReader::new(23);
    let mut buf = [9u8; 2];
    let refused = reader.read(&mut buf, Some(&[1, 2, 3]));
    assert_eq!(refused, Err(PacketTruncated { packet: 3, room: 2 }));
    assert_eq!(buf, [9, 9]);
    assert_eq!(reader.read(&mut [], Some(&[1])), Ok(0));
    assert_eq!(GattCharRead::mtu(&&mut reader), 23);
}

#[test]
fn both_halves_make_a_link() {
    let mut table: PairingTable<&str, &str> = PairingTable::new();
    let event = ListenerEvent::WriteAccepted { address: 5, reader: "r" };
    assert!(matches!(table.step(event), ListenerAction::Wait));
    let event = ListenerEvent::Subscribed { address: 5, writer: "w" };
    assert!(matches!(
        table.step(event),
        ListenerAction::Accept { address: 5, reader: "r", writer: "w" }
    ));
    let event = ListenerEvent::Subscribed { address: 5, writer: "w2" };
    assert!(matches!(table.step(event), ListenerAction::Wait));
    let event = ListenerEvent::WriteAccepted { address: 5, reader: "r2" };
    assert!(matches!(
        table.step(event),
        ListenerAction::Accept { address: 5, reader: "r2", writer: "w2" }
    ));
}

#[test]
fn centrals_are_independent() {
    let mut table: PairingTable<&str, &str> = PairingTable::new();
    let event = ListenerEvent::WriteAccepted { address: 5, reader: "r" };
    assert!(matches!(table.step(event), ListenerAction::Wait));
    let event = ListenerEvent::Subscribed { address: 6, writer: "w" };
    assert!(matches!(table.step(event), ListenerAction::Wait));
    assert!(matches!(table.step(ListenerEvent::Other), ListenerAction::Wait));
    let event = ListenerEvent::DeviceRemoved { address: 6 };
    assert!(matches!(table.step(event), ListenerAction::Wait));
    let event = ListenerEvent::WriteAccepted { address: 6, reader: "r6" };
    assert!(matches!(table.step(event), ListenerAction::Wait));
    let event = ListenerEvent::Subscribed { address: 5, writer: "w5" };
    assert!(matches!(
        table.step(event),
        ListenerAction::Accept { address: 5, reader: "r", writer: "w5" }
    ));
    assert!(matches!(table.step(ListenerEvent::Cancelled), ListenerAction::Stop));
}

#[test]
fn a_later_half_replaces_an_earlier_one() {
    let mut table: PairingTable<u8, u8> = PairingTable::new();
    table.step(ListenerEvent::WriteAccepted { address: 1, reader: 1 });
    table.step(ListenerEvent::WriteAccepted { address: 1, reader: 2 });
    assert!(matches!(
        table.step(ListenerEvent::Subscribed { address: 1, writer: 3 }),
        ListenerAction::Accept { address: 1, reader: 2, writer: 3 }
    ));
}

#[test]
fn connecting_is_given_up_after_ten_failures() {
    let mut run = Connecting::new();
    assert_eq!(CONNECT_RETRIES, 10);
    for _ in 0..10 {
        assert_eq!(run.phase, ConnectPhase::Checking);
        run.step(ConnectEvent::Connected(false));
        assert_eq!(run.phase, ConnectPhase::Connecting);
        run.step(ConnectEvent::Connection(false));
        assert_eq!(run.phase, ConnectPhase::Pausing);
        run.step(ConnectEvent::Paused);
    }
    assert_eq!(run.retries, 0);
    run.step(ConnectEvent::Connected(false));
    assert_eq!(run.phase, ConnectPhase::Failed);
}

#[test]
fn a_connected_device_is_asked_for_its_services() {
    let mut run = Connecting::new();
    run.step(ConnectEvent::Connected(false));
    run.step(ConnectEvent::Connection(true));
    assert_eq!(run.phase, ConnectPhase::Checking);
    run.step(ConnectEvent::Connected(true));
    assert_eq!(run.phase, ConnectPhase::Resolving);
    run.step(ConnectEvent::Services(false));
    assert_eq!((run.phase, run.retries), (ConnectPhase::Disconnecting, 9));
    run.step(ConnectEvent::Disconnected);
    run.step(ConnectEvent::Paused);
    run.step(ConnectEvent::Connected(true));
    run.step(ConnectEvent::Services(true));
    assert_eq!(run.phase, ConnectPhase::Resolved);
}

#[test]
fn an_unknown_state_gives_a_device_up() {
    let mut run = Connecting::new();
    run.step(ConnectEvent::StateUnknown);
    assert_eq!(run.phase, ConnectPhase::Failed);
}

#[test]
fn characteristics_play_their_part() {
    assert_eq!(role_of(SERVICE_UUID, RX_CHAR_UUID), CharacteristicRole::Writer);
    assert_eq!(role_of(SERVICE_UUID, TX_CHAR_UUID), CharacteristicRole::Reader);
    assert_eq!(role_of(SERVICE_UUID, 1), CharacteristicRole::Unrelated);
    assert_eq!(role_of(1, RX_CHAR_UUID), CharacteristicRole::Unrelated);
}

#[test]
fn a_device_needs_both_characteristics() {
    let mut search: CharacteristicSearch<u8, u8> = CharacteristicSearch::new();
    search.keep_writer(1);
    search.keep_writer(2);
    search.keep_reader(3);
    assert_eq!(search.finish(), Some((2, 3)));
    let mut search: CharacteristicSearch<u8, u8> = CharacteristicSearch::new();
    search.keep_reader(3);
    assert_eq!(search.finish(), None);
    let mut search: CharacteristicSearch<u8, u8> = CharacteristicSearch::new();
    search.keep_writer(3);
    assert_eq!(search.finish(), None);
    assert_eq!(CharacteristicSearch::<u8, u8>::new().finish(), None);
}

#[test]
fn a_search_prepares_first() {
    let steps = [
        FindStep::OpenSession,
        FindStep::SelectAdapter,
        FindStep::ReadAlias,
        FindStep::PowerOn,
        FindStep::SetFilter,
        FindStep::StartDiscovery,
    ];
    let mut phase = FindPhase::Preparing(FindStep::OpenSession);
    for step in steps {
        assert_eq!(phase, FindPhase::Preparing(step));
        assert_eq!(find_step(phase, FindEvent::Prepared(false)), FindPhase::Unprepared(step));
        phase = find_step(phase, FindEvent::Prepared(true));
    }
    assert_eq!(phase, FindPhase::Waiting);
}

#[test]
fn the_first_device_that_connects_is_found() {
    let mut phase = FindPhase::Waiting;
    for event in [
        FindEvent::Other,
        FindEvent::DeviceAdded { address: 1 },
        FindEvent::LookedUp(true),
        FindEvent::Tried(false),
        FindEvent::DeviceAdded { address: 2 },
        FindEvent::LookedUp(true),
        FindEvent::Tried(true),
    ] {
        phase = find_step(phase, event);
    }
    assert_eq!(phase, FindPhase::Found { address: 2 });
}

#[test]
fn a_device_that_cannot_be_looked_up_ends_the_search() {
    let phase = find_step(FindPhase::Waiting, FindEvent::DeviceAdded { address: 1 });
    assert_eq!(phase, FindPhase::LookingUp { address: 1 });
    let phase = find_step(phase, FindEvent::LookedUp(false));
    assert_eq!(phase, FindPhase::LookupFailed { address: 1 });
    assert_eq!(find_step(FindPhase::Waiting, FindEvent::Ended), FindPhase::NotFound);
}

#[test]
fn a_listener_advertises_the_service() {
    let plan = advertisement();
    assert!(plan.peripheral && plan.discoverable);
    assert_eq!(plan.service, 0x24A9597F_1060_41BB_AB31_B638662BDCCC);
    assert_eq!(plan.local_name, "ZN");
    assert_eq!((plan.min_interval_ms, plan.max_interval_ms), (1500, 2000));
    let plan = service();
    assert!(plan.primary);
    assert_eq!(plan.uuid, SERVICE_UUID);
    assert_eq!(plan.rx.uuid, 0x7E54E1BC_82BF_4B0E_9B3A_3C187934BD89);
    assert_eq!(plan.tx.uuid, 0xF47EA3E5_4D04_4EEE_9ACA_E397C4408952);
    assert!(matches!(
        plan.rx.usage,
        CharacteristicUse::Write { with_response: true, without_response: true }
    ));
    assert!(matches!(plan.tx.usage, CharacteristicUse::Notify { notify: true, indicate: true }));
}

fn setup(powered: bool, active: u64) -> Vec<SetupStep> {
    let mut steps = vec![SetupStep::OpenSession];
    while steps[steps.len() - 1] != SetupStep::Run {
        let step = steps[steps.len() - 1];
        let answer = match step {
            SetupStep::CheckPower => SetupAnswer::Powered(powered),
            SetupStep::CountAdvertisements => SetupAnswer::Active(active),
            _ => SetupAnswer::Done,
        };
        steps.push(next_setup_step(step, answer).unwrap());
    }
    steps
}

#[test]
fn a_setup_keeps_its_order() {
    assert_eq!(
        setup(true, 0),
        vec![
            SetupStep::OpenSession,
            SetupStep::SelectAdapter,
            SetupStep::CheckPower,
            SetupStep::CountAdvertisements,
            SetupStep::Advertise,
            SetupStep::ServeApplication,
            SetupStep::WatchAdapter,
            SetupStep::Run,
        ]
    );
    let all = setup(false, 2);
    assert_eq!(all.len(), 10);
    assert_eq!(all[3], SetupStep::PowerOn);
    assert_eq!(all[5], SetupStep::StopDiscoverable);
}

#[test]
fn a_failure_ends_the_setup() {
    for step in setup(false, 1) {
        if step != SetupStep::Run {
            assert_eq!(next_setup_step(step, SetupAnswer::Failed), None);
        }
    }
}

fn endpoint(text: &str) -> EndPoint {
    EndPoint::from_text(text.to_string()).unwrap()
}

#[test]
fn a_manager_tells_its_listeners() {
    let mut manager: LinkManagerUnicastBtGatt<&str, u8> = LinkManagerUnicastBtGatt::new("sender");
    assert_eq!(*manager.manager(), "sender");
    let (locator, before) = manager.add_listener(endpoint("bt_gatt/a#x=1"), 1);
    assert_eq!(locator.as_str(), "bt_gatt/a");
    assert!(before.is_none());
    manager.add_listener(endpoint("bt_gatt/b"), 2);
    let mut told: Vec<String> =
        manager.get_listeners().iter().map(|e| e.as_str().to_string()).collect();
    told.sort();
    assert_eq!(told, vec!["bt_gatt/a#x=1", "bt_gatt/b"]);
    let mut told: Vec<String> =
        manager.get_locators().iter().map(|l| l.as_str().to_string()).collect();
    told.sort();
    assert_eq!(told, vec!["bt_gatt/a", "bt_gatt/b"]);
}

#[test]
fn a_listener_at_the_same_locator_makes_room() {
    let mut manager: LinkManagerUnicastBtGatt<(), u8> = LinkManagerUnicastBtGatt::new(());
    manager.add_listener(endpoint("bt_gatt/a#x=1"), 1);
    let (_, before) = manager.add_listener(endpoint("bt_gatt/a#x=2"), 2);
    assert!(matches!(before, Some(l) if l.handle == 1 && l.endpoint.as_str() == "bt_gatt/a#x=1"));
    assert_eq!(manager.get_listeners().len(), 1);
}

#[test]
fn a_listener_is_looked_up_by_its_address() {
    let mut manager: LinkManagerUnicastBtGatt<(), u8> = LinkManagerUnicastBtGatt::new(());
    manager.add_listener(endpoint("bt_gatt/a"), 1);
    match manager.del_listener(&endpoint("bt_gatt/a")) {
        Err(e) => assert_eq!(e.name, "a"),
        Ok(_) => panic!("found"),
    }
    match manager.del_listener(&endpoint("x/bt_gatt/a")) {
        Ok(l) => assert_eq!(l.handle, 1),
        Err(_) => panic!("not found"),
    }
    assert!(manager.get_listeners().is_empty());
}

#[test]
fn a_central_makes_a_link() {
    let reader = RemoteCharacteristicReader::new(23);
    let writer = RemoteCharacteristicWriter::new(20, WriteOp::Request);
    let address = 0x001A_7DDA_7113;
    let new = |alias: &str| {
        LinkUnicastBtGatt::for_central(&reader, &writer, address, alias, "hci0".to_string())
    };
    let link = new("desk").unwrap();
    assert_eq!(link.describe(), "bt_gatt/00:1A:7D:DA:71:13 => bt_gatt/desk");
    assert_eq!(link.get_mtu(), 20);
    assert_eq!(link.get_interface_names(), vec!["hci0".to_string()]);
    assert!(new("").is_none());
}

#[test]
fn packets_fit_both_ends() {
    let data: Vec<u8> = (0..50).collect();
    for (read, write) in [(7, 20), (20, 7)] {
        let link = link(read, write);
        let writer = RemoteCharacteristicWriter::new(write, WriteOp::Request);
        let mut course = WriteAll::new();
        while let Some(packet) = course.next_packet(&link, &data) {
            assert!(writer.write(packet).is_ok());
            let mut buf = vec![0u8; read];
            let taken = RemoteCharacteristicReader::new(read).read(&mut buf, Some(packet));
            assert_eq!(taken, Ok(packet.len()));
            course.sent(packet.len());
        }
    }
}

#[test]
fn a_central_writes_with_confirmation() {
    let writer = RemoteCharacteristicWriter::for_peripheral(20);
    assert_eq!(writer.mtu(), 20);
    assert_eq!(writer.write(&[1]).map(|r| r.op), Ok(WriteOp::Request));
}

#[test]
fn every_link_is_followed_by_an_advertisement() {
    let mut table: PairingTable<u8, u8> = PairingTable::new();
    let events = vec![
        ListenerEvent::WriteAccepted { address: 1, reader: 1 },
        ListenerEvent::Subscribed { address: 2, writer: 2 },
        ListenerEvent::Subscribed { address: 1, writer: 3 },
        ListenerEvent::Other,
        ListenerEvent::WriteAccepted { address: 2, reader: 4 },
        ListenerEvent::Cancelled,
    ];
    let again: Vec<bool> =
        events.into_iter().map(|event| table.step(event).advertises_again()).collect();
    assert_eq!(again, vec![false, false, true, false, true, false]);
}

fn told(manager: &LinkManagerUnicastBtGatt<(), u8>) -> Vec<String> {
    manager.get_listeners().iter().map(|e| e.as_str().to_string()).collect()
}

#[test]
fn a_gatt_listener_is_told_once_it_is_started() {
    let mut manager: LinkManagerUnicastBtGatt<(), u8> = LinkManagerUnicastBtGatt::new(());
    manager.add_listener(endpoint("bt_gatt/a#x=1"), 1);
    manager.add_listener(endpoint("bt_gatt/b"), 2);
    let mut phase = ListenPhase::SettingUp(SetupStep::OpenSession);
    for step in setup(false, 1) {
        assert_eq!(phase, ListenPhase::SettingUp(step));
        let answer = match step {
            SetupStep::CheckPower => SetupAnswer::Powered(false),
            SetupStep::CountAdvertisements => SetupAnswer::Active(1),
            _ => SetupAnswer::Done,
        };
        if step != SetupStep::Run {
            let (next, locator) = manager.listen_step(phase, ListenEvent::Answered(answer));
            assert!(locator.is_none());
            phase = next;
        }
    }
    assert_eq!(told(&manager), vec!["bt_gatt/a#x=1", "bt_gatt/b"]);
    let started = ListenEvent::Started { endpoint: endpoint("bt_gatt/a#x=2"), handle: 3 };
    let (phase, locator) = manager.listen_step(phase, started);
    assert_eq!(phase, ListenPhase::Listening);
    assert_eq!(locator.unwrap().as_str(), "bt_gatt/a");
    assert_eq!(told(&manager), vec!["bt_gatt/b", "bt_gatt/a#x=2"]);
}

#[test]
fn a_gatt_setup_that_fails_changes_nothing() {
    let mut manager: LinkManagerUnicastBtGatt<(), u8> = LinkManagerUnicastBtGatt::new(());
    manager.add_listener(endpoint("bt_gatt/a"), 1);
    for step in setup(false, 1) {
        if step != SetupStep::Run {
            let phase = ListenPhase::SettingUp(step);
            let failed = ListenEvent::Answered(SetupAnswer::Failed);
            let (next, locator) = manager.listen_step(phase, failed);
            assert_eq!(next, ListenPhase::Failed(step));
            assert!(locator.is_none());
            assert_eq!(told(&manager), vec!["bt_gatt/a"]);
        }
    }
}

#[test]
fn what_is_sent_is_received() {
    let data: Vec<u8> = (0..50).collect();
    let link = link(7, 20);
    let reader = RemoteCharacteristicReader::new(7);
    let mut buffer = vec![255u8; 60];
    let mut sending = WriteAll::new();
    let mut filling = ReadExact::new();
    while let Some(packet) = sending.next_packet(&link, &data) {
        let start = filling.next_start(buffer.len()).unwrap();
        let n = reader.read(&mut buffer[start..], Some(packet)).unwrap();
        filling.received(n);
        sending.sent(packet.len());
    }
    assert_eq!(filling.next_start(buffer.len()), Some(50));
    assert_eq!(filling.next_start(50), None);
    assert_eq!(buffer[..50], data[..]);
    assert_eq!(buffer[50..], [255u8; 10]);
}
