//! Texts, addresses, locators and parameters.
use zenoh_link_bt::address::split_address;
use zenoh_link_bt::device::{address_from_octets, address_octets, address_text};
use zenoh_link_bt::gatt::{get_exclusive, BtGattLocatorInspector};
use zenoh_link_bt::l2cap::address::{parse_address, AddressFault};
use zenoh_link_bt::l2cap::config::{
    handshake_timeout_ms, plan_acceptor, plan_connector, BtL2capTlsConfigurator, ClientIdentity,
    TlsLinkConfig,
};
use zenoh_link_bt::l2cap::{service_uuid, BtL2capTlsLocatorInspector};
use zenoh_link_bt::locator::{EndPoint, Locator};
use zenoh_link_bt::text::{find_char, parse_bool, parse_u64, same_text, write_bool};

fn endpoint(text: &str) -> EndPoint {
    EndPoint::from_text(text.to_string()).unwrap()
}

fn locator(text: &str) -> Locator {
    Locator::from_text(text.to_string()).unwrap()
}

#[test]
fn an_endpoint_has_parts() {
    let e = endpoint("bt_gatt/hci0@dev?rel=1#exclusive=false;x=y");
    assert_eq!(e.address(), "hci0@dev");
    assert_eq!(e.config(), "exclusive=false;x=y");
    assert_eq!(e.to_locator().as_str(), "bt_gatt/hci0@dev?rel=1");
    assert_eq!(e.duplicate().as_str(), e.as_str());
    let e = endpoint("bt_gatt/dev");
    assert_eq!(e.address(), "dev");
    assert_eq!(e.config(), "");
    assert_eq!(e.to_locator().as_str(), "bt_gatt/dev");
}

#[test]
fn texts_without_the_shape_of_an_endpoint_are_refused() {
    for text in ["", "dev", "/dev", "p/", "p#a/b", "p?a/b", "p/x#a?b"] {
        assert!(EndPoint::from_text(text.to_string()).is_none(), "{}", text);
    }
    assert!(Locator::from_text("p/".to_string()).is_some());
    assert!(Locator::from_text("p".to_string()).is_none());
}

#[test]
fn a_locator_is_made_of_its_parts() {
    let made = Locator::new("bt_gatt", "dev", "").unwrap();
    assert_eq!(made.as_str(), "bt_gatt/dev");
    let made = Locator::new("bt_gatt", "00:11:22:33:44:55", "").unwrap();
    assert_eq!(made.as_str(), "bt_gatt/00:11:22:33:44:55");
    assert!(Locator::new("bt_gatt", "", "").is_none());
    let fits = "x".repeat(255 - 7);
    assert!(Locator::new("bt_gatt", &fits, "").is_some());
    let long = "x".repeat(256 - 7);
    assert!(Locator::new("bt_gatt", &long, "").is_none());
}

#[test]
fn the_length_of_a_locator_counts_bytes() {
    let fits = "\u{e9}".repeat(124);
    assert!(Locator::new("bt_gatt", &fits, "").is_some());
    let long = "\u{e9}".repeat(125);
    assert!(Locator::new("bt_gatt", &long, "").is_none());
}

#[test]
fn metadata_is_looked_up_by_key() {
    let l = locator("bt_gatt/dev?a=1;rel=0;a=2");
    assert_eq!(l.metadata_value("rel"), Some("0".to_string()));
    assert_eq!(l.metadata_value("a"), Some("1".to_string()));
    assert_eq!(l.metadata_value("b"), None);
    assert_eq!(locator("bt_gatt/dev").metadata_value("a"), None);
    assert_eq!(locator("bt_gatt/dev#a=1").metadata_value("a"), None);
}

#[test]
fn a_gatt_locator_tells_its_reliability() {
    let inspector = BtGattLocatorInspector;
    assert_eq!(inspector.protocol(), "bt_gatt");
    assert!(!inspector.is_multicast(&locator("bt_gatt/dev")));
    assert!(matches!(inspector.is_reliable(&locator("bt_gatt/dev")), Ok(false)));
    assert!(matches!(inspector.is_reliable(&locator("bt_gatt/dev?rel=0")), Ok(false)));
    assert!(matches!(inspector.is_reliable(&locator("bt_gatt/dev?rel=1")), Ok(true)));
    assert!(matches!(inspector.is_reliable(&locator("bt_gatt/dev?rel=+01")), Ok(true)));
}

#[test]
fn a_reliability_that_is_none_is_refused() {
    let inspector = BtGattLocatorInspector;
    for found in ["2", "257", "-1", "yes", ""] {
        let l = locator(&format!("bt_gatt/dev?rel={}", found));
        match inspector.is_reliable(&l) {
            Err(e) => assert_eq!(e.found, found),
            Ok(_) => panic!("{}", found),
        }
    }
}

#[test]
fn an_l2cap_locator_is_reliable() {
    let inspector = BtL2capTlsLocatorInspector;
    assert_eq!(inspector.protocol(), "bt_l2cap_tls");
    assert!(!inspector.is_multicast(&locator("bt_l2cap_tls/dev")));
    assert!(inspector.is_reliable(&locator("bt_l2cap_tls/dev?rel=0")));
}

#[test]
fn an_adapter_is_exclusive_unless_told_otherwise() {
    assert!(get_exclusive(&endpoint("bt_gatt/dev")));
    assert!(get_exclusive(&endpoint("bt_gatt/dev#exclusive=true")));
    assert!(!get_exclusive(&endpoint("bt_gatt/dev#exclusive=false")));
    assert!(get_exclusive(&endpoint("bt_gatt/dev#exclusive=no")));
    assert!(get_exclusive(&endpoint("bt_gatt/dev?exclusive=false")));
    assert!(!get_exclusive(&endpoint("bt_gatt/dev#a=b;exclusive=false;exclusive=true")));
}

#[test]
fn an_address_reads_back() {
    assert_eq!(split_address("hci0@dev"), (Some("hci0"), "dev"));
    assert_eq!(split_address("dev"), (None, "dev"));
    assert_eq!(split_address("@dev"), (Some(""), "dev"));
    assert_eq!(split_address("hci0@"), (Some("hci0"), ""));
    assert_eq!(split_address("a@b@c"), (Some("a"), "b@c"));
    assert_eq!(split_address(""), (None, ""));
}

#[test]
fn a_named_device_can_be_addressed() {
    assert!(matches!(parse_address("dev"), Ok((None, "dev"))));
    assert!(matches!(parse_address("hci0@dev"), Ok((Some("hci0"), "dev"))));
    assert!(matches!(parse_address(""), Ok((None, ""))));
}

#[test]
fn an_address_with_a_fault_is_refused() {
    let faulty = [
        ("a@b@c", AddressFault::TooManyAts),
        ("@@", AddressFault::TooManyAts),
        ("@dev", AddressFault::EmptyAdapter),
        ("@", AddressFault::EmptyAdapter),
        ("hci0@", AddressFault::EmptyDevice),
    ];
    for (address, fault) in faulty {
        match parse_address(address) {
            Err(e) => {
                assert_eq!(e.fault, fault);
                assert_eq!(e.address, address);
            }
            Ok(_) => panic!("{}", address),
        }
    }
}

#[test]
fn octets_and_address_convert_both_ways() {
    let octets = [0x00, 0x1A, 0x7D, 0xDA, 0x71, 0x13];
    let address = address_from_octets(octets);
    assert_eq!(address, 0x001A_7DDA_7113);
    assert_eq!(address_octets(address), octets);
    assert_eq!(address_octets(0xFFFF_FFFF_FFFF), [0xFF; 6]);
    assert_eq!(address_from_octets([0xFF; 6]), 0xFFFF_FFFF_FFFF);
    assert_ne!(address_from_octets([1, 0, 0, 0, 0, 0]), address_from_octets([0, 1, 0, 0, 0, 0]));
}

#[test]
fn an_address_is_written_in_hexadecimal() {
    assert_eq!(address_text(0x001A_7DDA_7113), "00:1A:7D:DA:71:13");
    assert_eq!(address_text(0), "00:00:00:00:00:00");
}

#[test]
fn the_service_is_that_of_gatt_links() {
    assert_eq!(service_uuid(), 0x24A9597F_1060_41BB_AB31_B638662BDCCC);
    assert_eq!(service_uuid(), zenoh_link_bt::gatt::service::SERVICE_UUID);
}

#[test]
fn a_switch_reads_back() {
    assert_eq!(parse_bool(write_bool(true)), Some(true));
    assert_eq!(parse_bool(write_bool(false)), Some(false));
    assert_eq!(write_bool(true), "true");
    assert_eq!(parse_bool("True"), None);
    assert_eq!(parse_bool(""), None);
}

#[test]
fn numbers_are_read_as_unsigned() {
    assert_eq!(parse_u64("0"), Some(0));
    assert_eq!(parse_u64("+5"), Some(5));
    assert_eq!(parse_u64("18446744073709551615"), Some(u64::MAX));
    assert_eq!(parse_u64("18446744073709551616"), None);
    assert_eq!(parse_u64("00018446744073709551615"), Some(u64::MAX));
    for s in ["", "+", "-1", " 1", "1 ", "1_0", "0x1"] {
        assert_eq!(parse_u64(s), None, "{}", s);
    }
}

#[test]
fn characters_are_found_by_place() {
    assert_eq!(find_char("a/b/c", '/'), 1);
    assert_eq!(find_char("abc", '/'), 3);
    assert_eq!(find_char("\u{e9}/", '/'), 1);
    assert!(same_text("ab", "ab"));
    assert!(!same_text("ab", "ba"));
}

fn empty_config() -> TlsLinkConfig {
    TlsLinkConfig {
        root_ca_certificate: None,
        listen_certificate: None,
        listen_private_key: None,
        connect_certificate: None,
        connect_private_key: None,
        enable_mtls: None,
        verify_name_on_connect: None,
    }
}

#[test]
fn an_empty_configuration_carries_the_defaults() {
    let list = BtL2capTlsConfigurator.inspect_config(&empty_config());
    assert_eq!(list, "enable_mtls=true;verify_name_on_connect=false");
    assert_eq!(handshake_timeout_ms(&list), 10_000);
}

#[test]
fn a_configuration_reads_back() {
    let mut config = empty_config();
    config.root_ca_certificate = Some("/ca".to_string());
    config.listen_certificate = Some("/cert".to_string());
    config.listen_private_key = Some("/key".to_string());
    config.connect_certificate = Some("/ccert".to_string());
    config.connect_private_key = Some("/ckey".to_string());
    config.enable_mtls = Some(false);
    config.verify_name_on_connect = Some(true);
    let list = BtL2capTlsConfigurator.inspect_config(&config);
    assert_eq!(
        list,
        "root_ca_certificate_file=/ca;listen_certificate_file=/cert;\
         listen_private_key_file=/key;connect_certificate_file=/ccert;\
         connect_private_key_file=/ckey;enable_mtls=false;verify_name_on_connect=true"
    );
    match plan_connector(&list) {
        Ok(plan) => {
            assert_eq!(plan.root_ca, "/ca");
            assert!(plan.verify_name);
            assert!(matches!(
                plan.identity,
                ClientIdentity::Files { certificate, private_key }
                    if certificate == "/ccert" && private_key == "/ckey"
            ));
        }
        Err(_) => panic!("no plan"),
    }
    match plan_acceptor(&list) {
        Ok(plan) => {
            assert_eq!(plan.certificate, "/cert");
            assert_eq!(plan.private_key, "/key");
            assert_eq!(plan.client_ca, None);
        }
        Err(_) => panic!("no plan"),
    }
}

#[test]
fn a_connector_needs_a_root() {
    match plan_connector("enable_mtls=true") {
        Err(e) => assert_eq!(e.key, "root_ca_certificate_file"),
        Ok(_) => panic!("a plan"),
    }
    match plan_connector("root_ca_certificate_file=/ca") {
        Ok(plan) => {
            assert!(!plan.verify_name);
            assert!(matches!(plan.identity, ClientIdentity::Absent));
        }
        Err(_) => panic!("no plan"),
    }
    for key in ["connect_certificate_file", "connect_private_key_file"] {
        let list = format!("root_ca_certificate_file=/ca;{}=/x", key);
        match plan_connector(&list) {
            Ok(plan) => assert!(matches!(plan.identity, ClientIdentity::Unpaired)),
            Err(_) => panic!("no plan"),
        }
    }
}

#[test]
fn an_acceptor_needs_its_files() {
    let lacking = [
        ("", "listen_certificate_file"),
        ("listen_private_key_file=k", "listen_certificate_file"),
        ("listen_certificate_file=c", "listen_private_key_file"),
        ("listen_certificate_file=c;listen_private_key_file=k", "root_ca_certificate_file"),
        (
            "listen_certificate_file=c;listen_private_key_file=k;enable_mtls=perhaps",
            "root_ca_certificate_file",
        ),
    ];
    for (list, key) in lacking {
        match plan_acceptor(list) {
            Err(e) => assert_eq!(e.key, key),
            Ok(_) => panic!("{}", list),
        }
    }
    let list = "listen_certificate_file=c;listen_private_key_file=k;root_ca_certificate_file=r";
    match plan_acceptor(list) {
        Ok(plan) => assert_eq!(plan.client_ca, Some("r".to_string())),
        Err(_) => panic!("no plan"),
    }
}

#[test]
fn a_handshake_may_take_as_long_as_configured() {
    assert_eq!(handshake_timeout_ms("tls_handshake_timeout_ms=250"), 250);
    assert_eq!(handshake_timeout_ms(""), 10_000);
    assert_eq!(handshake_timeout_ms("tls_handshake_timeout_ms=soon"), 10_000);
    assert_eq!(handshake_timeout_ms("tls_handshake_timeout_ms=-1"), 10_000);
    assert_eq!(handshake_timeout_ms("tls_handshake_timeout_ms=18446744073709551616"), 10_000);
}

#[test]
fn the_parts_of_an_endpoint_read_back() {
    let e = endpoint("p/a#c=1;d=#x");
    assert_eq!((e.address(), e.config()), ("a", "c=1;d=#x"));
    let e = endpoint("p/a?m=1#c=2?3");
    assert_eq!((e.address(), e.config()), ("a", "c=2?3"));
    assert_eq!(e.to_locator().as_str(), "p/a?m=1");
    assert_eq!(e.to_locator().metadata_value("m"), Some("1".to_string()));
}
