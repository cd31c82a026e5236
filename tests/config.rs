use rackcli::config::Config;
use rackcli::device::Operation;
use rackcli::switch::{Credentials, Switch};
use rackcli::wol::Wol;

fn switch(name: &str) -> Switch {
    Switch::new(
        name.to_string(),
        "10.0.0.2".to_string(),
        "Netgear".to_string(),
        24,
        Credentials::V2 {
            community: "public".to_string(),
        },
    )
}

#[test]
fn names_come_out_sorted() {
    let mut config = Config::new();
    config.add_switch(switch("rack2"));
    config.add_switch(switch("Rack"));
    config.add_switch(switch("rack10"));
    config.add_switch(switch("rack"));
    assert_eq!(
        config.get_switch_names(),
        vec!["Rack", "rack", "rack10", "rack2"]
    );
    config.add_wol(Wol::new("nas".to_string(), "AA:BB:CC:DD:EE:FF".to_string()).unwrap());
    config.add_wol(Wol::new("desk".to_string(), "AA:BB:CC:DD:EE:00".to_string()).unwrap());
    assert_eq!(config.get_wol_names(), vec!["desk", "nas"]);
}

#[test]
fn equal_names_are_all_kept() {
    let mut config = Config::new();
    config.add_switch(switch("b"));
    config.add_switch(switch("a"));
    config.add_switch(switch("b"));
    assert_eq!(config.get_switch_names(), vec!["a", "b", "b"]);
}

#[test]
fn empty_config_has_no_names() {
    let config = Config::new();
    assert!(config.get_switch_names().is_empty());
    assert!(config.get_wol_names().is_empty());
}

#[test]
fn devices_are_found_by_name() {
    let mut config = Config::new();
    config.add_switch(switch("a"));
    config.add_switch(switch("b"));
    assert_eq!(config.find_switch("b"), Some(1));
    assert_eq!(config.find_switch("c"), None);
    config.add_wol(Wol::new("pc".to_string(), "AA:BB:CC:DD:EE:FF".to_string()).unwrap());
    assert_eq!(config.find_wol("pc"), Some(0));
    assert_eq!(config.find_wol("p"), None);
}

#[test]
fn config_operations_reach_the_device() {
    let mut config = Config::new();
    config.add_switch(switch("a"));
    config.add_wol(Wol::new("pc".to_string(), "AA:BB:CC:DD:EE:FF".to_string()).unwrap());
    assert!(matches!(config.enable_switch(0), Ok(Operation::SetPorts(1))));
    assert!(matches!(config.disable_switch(0), Ok(Operation::SetPorts(2))));
    assert!(matches!(config.get_switch_status(0), Ok(Operation::QueryPorts)));
    assert!(matches!(config.enable_wol(0), Ok(Operation::Wake(p)) if p.len() == 102));
}

#[test]
fn config_updates_one_device() {
    let mut config = Config::new();
    config.add_switch(switch("a"));
    config.add_switch(switch("b"));
    config.update_switch(
        1,
        Switch::new(
            "z".to_string(),
            "10.9.9.9".to_string(),
            "Netgear".to_string(),
            4,
            Credentials::V2 {
                community: "private".to_string(),
            },
        ),
    );
    assert_eq!(config.switches[1].get_name(), "b");
    assert_eq!(config.switches[1].get_ip(), "10.9.9.9");
    assert_eq!(config.switches[0].get_ip(), "10.0.0.2");
    config.add_wol(Wol::new("pc".to_string(), "AA:BB:CC:DD:EE:FF".to_string()).unwrap());
    config.update_wol(
        0,
        Wol::new("x".to_string(), "11:22:33:44:55:66".to_string()).unwrap(),
    );
    assert_eq!(config.wols[0].get_name(), "pc");
    assert_eq!(config.wols[0].get_mac(), "11:22:33:44:55:66");
}
