use rackcli::device::{Device, DeviceError, Operation};
use rackcli::switch::{Credentials, SNMPAuth, SNMPEncryption, SNMPVersion, Switch};

fn v2_switch(brand: &str) -> Switch {
    Switch::new(
        "core".to_string(),
        "10.0.0.2".to_string(),
        brand.to_string(),
        24,
        Credentials::V2 {
            community: "public".to_string(),
        },
    )
}

#[test]
fn v2_switch_has_no_v3_credentials() {
    let s = v2_switch("Netgear");
    assert_eq!(s.get_version(), SNMPVersion::V2);
    assert_eq!(s.get_community(), "public");
    assert_eq!(s.get_auth_protocol(), SNMPAuth::NONE);
    assert_eq!(s.get_username(), "");
    assert_eq!(s.get_auth_password(), "");
    assert_eq!(s.get_privacy_protocol(), SNMPEncryption::NONE);
    assert_eq!(s.get_privacy_password(), "");
    assert_eq!(s.get_name(), "core");
    assert_eq!(s.get_ip(), "10.0.0.2");
    assert_eq!(s.get_brand(), "Netgear");
    assert_eq!(s.port_count(), 24);
}

#[test]
fn v3_switch_has_no_community() {
    let s = Switch::new(
        "edge".to_string(),
        "10.0.0.3".to_string(),
        "Netgear".to_string(),
        8,
        Credentials::V3 {
            auth: SNMPAuth::SHA,
            auth_user: "admin".to_string(),
            auth_pass: "secret".to_string(),
            encryption: SNMPEncryption::AES,
            encryption_pass: "hidden".to_string(),
        },
    );
    assert_eq!(s.get_version(), SNMPVersion::V3);
    assert_eq!(s.get_community(), "");
    assert_eq!(s.get_auth_protocol(), SNMPAuth::SHA);
    assert_eq!(s.get_username(), "admin");
    assert_eq!(s.get_auth_password(), "secret");
    assert_eq!(s.get_privacy_protocol(), SNMPEncryption::AES);
    assert_eq!(s.get_privacy_password(), "hidden");
}

#[test]
fn v3_switch_without_protocols_drops_their_secrets() {
    let s = Switch::new(
        "edge".to_string(),
        "10.0.0.3".to_string(),
        "Netgear".to_string(),
        8,
        Credentials::V3 {
            auth: SNMPAuth::NONE,
            auth_user: "admin".to_string(),
            auth_pass: "secret".to_string(),
            encryption: SNMPEncryption::NONE,
            encryption_pass: "hidden".to_string(),
        },
    );
    assert_eq!(s.get_username(), "");
    assert_eq!(s.get_auth_password(), "");
    assert_eq!(s.get_privacy_password(), "");
    assert_eq!(s.get_community(), "");
}

#[test]
fn target_oid_appends_port() {
    let s = v2_switch("Netgear");
    assert_eq!(
        s.get_oid(),
        Some(vec![1, 3, 6, 1, 2, 1, 105, 1, 1, 1, 3, 1])
    );
    assert_eq!(
        s.get_target_oid(3),
        Some(vec![1, 3, 6, 1, 2, 1, 105, 1, 1, 1, 3, 1, 3])
    );
}

#[test]
fn unknown_vendor_has_no_oid() {
    let s = v2_switch("Cisco");
    assert_eq!(s.get_oid(), None);
    assert_eq!(s.get_target_oid(3), None);
    assert!(matches!(s.enable(), Err(DeviceError::UnknownVendor)));
    assert!(matches!(s.disable(), Err(DeviceError::UnknownVendor)));
    assert!(matches!(s.status(), Err(DeviceError::UnknownVendor)));
}

#[test]
fn switch_operations_use_vendor_values() {
    let s = v2_switch("Netgear");
    assert!(matches!(s.enable(), Ok(Operation::SetPorts(1))));
    assert!(matches!(s.disable(), Ok(Operation::SetPorts(2))));
    assert!(matches!(s.status(), Ok(Operation::QueryPorts)));
}

#[test]
fn default_port_range_covers_all_ports() {
    assert_eq!(v2_switch("Netgear").default_port_range(), "1-24".to_string());
}

#[test]
fn update_keeps_name_and_replaces_the_rest() {
    let mut s = v2_switch("Netgear");
    let attrs = Switch::new(
        "ignored".to_string(),
        "10.0.0.9".to_string(),
        "Netgear".to_string(),
        48,
        Credentials::V3 {
            auth: SNMPAuth::MD5,
            auth_user: "ops".to_string(),
            auth_pass: "pw".to_string(),
            encryption: SNMPEncryption::DES,
            encryption_pass: "key".to_string(),
        },
    );
    s.update(attrs);
    assert_eq!(s.get_name(), "core");
    assert_eq!(s.get_ip(), "10.0.0.9");
    assert_eq!(s.port_count(), 48);
    assert_eq!(s.get_version(), SNMPVersion::V3);
    assert_eq!(s.get_community(), "");
    assert_eq!(s.get_username(), "ops");
    assert_eq!(s.get_privacy_protocol(), SNMPEncryption::DES);
}
