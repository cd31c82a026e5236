use rackcli::snmp::{PortError, Snmp, SnmpError, SnmpV2Client};
use rackcli::switch::{Credentials, SNMPAuth, SNMPEncryption, Switch};

fn netgear() -> Switch {
    Switch::new(
        "core".to_string(),
        "10.0.0.2".to_string(),
        "Netgear".to_string(),
        24,
        Credentials::V2 {
            community: "public".to_string(),
        },
    )
}

#[test]
fn outcome_labels_vendor_values() {
    let on = SnmpV2Client::outcome(4, Some(1), 1, 2).unwrap();
    assert_eq!((on.port, on.status.as_str()), (4, "on"));
    let off = SnmpV2Client::outcome(5, Some(2), 1, 2).unwrap();
    assert_eq!((off.port, off.status.as_str()), (5, "off"));
    assert_eq!(
        SnmpV2Client::outcome(6, Some(7), 1, 2).err(),
        Some(PortError::InvalidValue(7))
    );
    assert_eq!(
        SnmpV2Client::outcome(6, None, 1, 2).err(),
        Some(PortError::ExchangeFailed)
    );
}

#[test]
fn one_failed_port_is_left_out() {
    let client = Snmp::new();
    let ports = vec![1, 2, 3, 4];
    let replies = vec![Some(1), None, Some(2), Some(1)];
    let results = client.results(&netgear(), &ports, &replies).unwrap();
    let got: Vec<(u32, String)> = results.into_iter().map(|r| (r.port, r.status)).collect();
    assert_eq!(
        got,
        vec![
            (1, "on".to_string()),
            (3, "off".to_string()),
            (4, "on".to_string())
        ]
    );
}

#[test]
fn unexpected_value_is_left_out() {
    let client = Snmp::new();
    let results = client
        .results(&netgear(), &vec![7, 8], &vec![Some(1), Some(5)])
        .unwrap();
    assert_eq!(results.len(), 1);
    assert_eq!(results[0].port, 7);
}

#[test]
fn requests_address_each_port() {
    let client = Snmp::new();
    let reqs = client.requests(&netgear(), &vec![3, 9]).unwrap();
    assert_eq!(reqs.len(), 2);
    assert_eq!(reqs[0].port, 3);
    assert_eq!(reqs[0].target, vec![1, 3, 6, 1, 2, 1, 105, 1, 1, 1, 3, 1, 3]);
    assert_eq!(reqs[0].oid.as_slice(), &[1, 3, 6, 1, 2, 1, 105, 1, 1, 1, 3, 1, 3]);
    assert_eq!(reqs[1].port, 9);
    assert_eq!(reqs[1].oid.as_slice(), &[1, 3, 6, 1, 2, 1, 105, 1, 1, 1, 3, 1, 9]);
}

#[test]
fn requests_refuse_version_three() {
    let s = Switch::new(
        "edge".to_string(),
        "10.0.0.3".to_string(),
        "Netgear".to_string(),
        8,
        Credentials::V3 {
            auth: SNMPAuth::NONE,
            auth_user: String::new(),
            auth_pass: String::new(),
            encryption: SNMPEncryption::NONE,
            encryption_pass: String::new(),
        },
    );
    assert!(matches!(
        Snmp::new().requests(&s, &vec![1]),
        Err(SnmpError::Unsupported)
    ));
}

#[test]
fn unknown_vendor_is_refused() {
    let s = Switch::new(
        "x".to_string(),
        "10.0.0.4".to_string(),
        "Acme".to_string(),
        8,
        Credentials::V2 {
            community: "public".to_string(),
        },
    );
    assert!(matches!(
        Snmp::new().requests(&s, &vec![1]),
        Err(SnmpError::UnknownVendor)
    ));
    assert!(matches!(
        Snmp::new().results(&s, &vec![1], &vec![Some(1)]),
        Err(SnmpError::UnknownVendor)
    ));
}

#[test]
fn outcomes_name_each_failure() {
    let client = Snmp::new();
    let out = client
        .outcomes(&netgear(), &vec![1, 2, 3], &vec![Some(2), Some(9), None])
        .unwrap();
    assert_eq!(out.len(), 3);
    let first = out[0].as_ref().unwrap();
    assert_eq!((first.port, first.status.as_str()), (1, "off"));
    assert_eq!(out[1].as_ref().err(), Some(&PortError::InvalidValue(9)));
    assert_eq!(out[2].as_ref().err(), Some(&PortError::ExchangeFailed));
}
