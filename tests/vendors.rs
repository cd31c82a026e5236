use rackcli::switch_oid::SwitchOidBuilder;

#[test]
fn vendor_table_lists_netgear() {
    let sob = SwitchOidBuilder::new();
    assert_eq!(sob.get_oid_names(), vec!["Netgear".to_string()]);
    assert_eq!(sob.get_oid_name(0), "Netgear".to_string());
}

#[test]
fn vendor_lookup_gives_prefix_and_values() {
    let sob = SwitchOidBuilder::new();
    assert_eq!(
        sob.get_switch_oid("Netgear".to_string()),
        Some(&"1.3.6.1.2.1.105.1.1.1.3.1".to_string())
    );
    assert_eq!(sob.get_on("Netgear".to_string()), Some(1));
    assert_eq!(sob.get_off("Netgear".to_string()), Some(2));
}

#[test]
fn vendor_lookup_misses_unknown_name() {
    let sob = SwitchOidBuilder::new();
    assert_eq!(sob.get_switch_oid("netgear".to_string()), None);
    assert_eq!(sob.get_on("Cisco".to_string()), None);
    assert_eq!(sob.get_off("".to_string()), None);
}
