use rackcli::device::{Device, DeviceError, Operation};
use rackcli::wol::{is_valid_mac, magic_packet, parse_mac, Wol};

#[test]
fn mac_pattern_accepts_both_separators() {
    assert!(is_valid_mac("AA:BB:CC:DD:EE:FF"));
    assert!(is_valid_mac("aa-bb-cc-dd-ee-0f"));
}

#[test]
fn mac_pattern_rejects_malformed_text() {
    assert!(!is_valid_mac("AA:BB:CC:DD:EE"));
    assert!(!is_valid_mac("AA:BB:CC:DD:EE:FG"));
    assert!(!is_valid_mac("AABBCCDDEEFF"));
    assert!(!is_valid_mac(" AA:BB:CC:DD:EE:FF"));
}

#[test]
fn new_checks_the_address() {
    assert!(Wol::new("pc".to_string(), "AA:BB:CC:DD:EE:FF".to_string()).is_some());
    assert!(Wol::new("pc".to_string(), "not a mac".to_string()).is_none());
}

#[test]
fn update_keeps_a_valid_address() {
    let mut w = Wol::new("pc".to_string(), "AA:BB:CC:DD:EE:FF".to_string()).unwrap();
    w.update(Wol::new("x".to_string(), "0a-0b-0c-0d-0e-0f".to_string()).unwrap());
    assert!(is_valid_mac(w.get_mac()));
    assert_eq!(w.get_octets(), vec![0x0A, 0x0B, 0x0C, 0x0D, 0x0E, 0x0F]);
}

#[test]
fn octets_of_an_address() {
    assert_eq!(
        parse_mac("AA:BB:CC:DD:EE:FF"),
        Some(vec![0xAA, 0xBB, 0xCC, 0xDD, 0xEE, 0xFF])
    );
    assert_eq!(
        parse_mac("01-23-45-67-89-ab"),
        Some(vec![0x01, 0x23, 0x45, 0x67, 0x89, 0xAB])
    );
    assert_eq!(parse_mac("01:23:45:67:89"), None);
    assert_eq!(parse_mac("01:23:45:67:89:az"), None);
    assert_eq!(parse_mac("01:23:45:67:89.ab"), None);
}

#[test]
fn magic_packet_layout() {
    let octets = vec![0xAA, 0xBB, 0xCC, 0xDD, 0xEE, 0xFF];
    let packet = magic_packet(&octets);
    assert_eq!(packet.len(), 102);
    assert_eq!(&packet[0..6], &[0xFF; 6]);
    for i in 0..16 {
        assert_eq!(&packet[6 + 6 * i..12 + 6 * i], &octets[..]);
    }
}

#[test]
fn enable_builds_the_wake_packet() {
    let w = Wol::new("pc".to_string(), "AA:BB:CC:DD:EE:FF".to_string()).unwrap();
    assert_eq!(w.get_name(), "pc");
    assert_eq!(w.get_mac(), "AA:BB:CC:DD:EE:FF");
    assert_eq!(w.get_octets(), vec![0xAA, 0xBB, 0xCC, 0xDD, 0xEE, 0xFF]);
    match w.enable() {
        Ok(Operation::Wake(p)) => {
            let mut expected = vec![0xFFu8; 6];
            for _ in 0..16 {
                expected.extend_from_slice(&[0xAA, 0xBB, 0xCC, 0xDD, 0xEE, 0xFF]);
            }
            assert_eq!(p, expected);
        }
        _ => panic!("expected a wake packet"),
    }
}

#[test]
fn wake_device_cannot_disable_or_report() {
    let w = Wol::new("pc".to_string(), "AA:BB:CC:DD:EE:FF".to_string()).unwrap();
    assert!(matches!(w.disable(), Err(DeviceError::Unsupported)));
    assert!(matches!(w.status(), Err(DeviceError::Unsupported)));
}

#[test]
fn update_replaces_the_address() {
    let mut w = Wol::new("pc".to_string(), "AA:BB:CC:DD:EE:FF".to_string()).unwrap();
    let attrs = Wol::new("other".to_string(), "01:02:03:04:05:06".to_string()).unwrap();
    w.update(attrs);
    assert_eq!(w.get_name(), "pc");
    assert_eq!(w.get_mac(), "01:02:03:04:05:06");
}
