use wol_bot::registry::{parse_timeout, parse_u64, DeviceRegistry, RawDevice, DEFAULT_TIMEOUT_SECS};

fn raw(name: &str, mac: &str, ip: &str, timeout: Option<&str>) -> RawDevice {
    RawDevice {
        name: name.to_string(),
        hardware_address: mac.to_string(),
        network_address: ip.to_string(),
        timeout: timeout.map(|t| t.to_string()),
    }
}

fn chars(s: &str) -> Vec<char> {
    s.chars().collect()
}

#[test]
fn build_skips_one_malformed_entry() {
    let raws = vec![
        raw("pc", "AA:BB:CC:DD:EE:FF", "192.168.1.10", Some("60")),
        raw("broken", "AA:BB:CC", "192.168.1.11", None),
        raw("nas", "11-22-33-44-55-66", "nas.local", None),
        raw("tv", "01:02:03:04:05:06", "192.168.1.12", Some("15")),
    ];
    let (reg, rejected) = DeviceRegistry::build(&raws);
    assert_eq!(reg.len(), 3);
    assert_eq!(rejected, vec!["broken".to_string()]);
    assert!(reg.lookup("broken").is_none());
    assert_eq!(reg.names(), vec!["pc".to_string(), "nas".to_string(), "tv".to_string()]);
    assert_eq!(
        reg.network_addresses(),
        vec!["192.168.1.10".to_string(), "nas.local".to_string(), "192.168.1.12".to_string()]
    );
}

#[test]
fn build_policy_is_the_same_wherever_the_bad_entry_stands() {
    for bad in 0..3 {
        let mut raws = vec![
            raw("a", "AA:BB:CC:DD:EE:01", "10.0.0.1", None),
            raw("b", "AA:BB:CC:DD:EE:02", "10.0.0.2", None),
            raw("c", "AA:BB:CC:DD:EE:03", "10.0.0.3", None),
        ];
        raws[bad].hardware_address = "ZZ:BB:CC:DD:EE:FF".to_string();
        let (reg, rejected) = DeviceRegistry::build(&raws);
        assert_eq!(reg.len(), 2);
        assert_eq!(rejected, vec![raws[bad].name.clone()]);
    }
}

#[test]
fn build_of_nothing_is_empty() {
    let (reg, rejected) = DeviceRegistry::build(&Vec::new());
    assert_eq!(reg.len(), 0);
    assert!(rejected.is_empty());
    assert!(reg.lookup("pc").is_none());
}

#[test]
fn lookup_is_exact_and_case_sensitive() {
    let raws = vec![raw("PC", "AA:BB:CC:DD:EE:FF", "192.168.1.10", Some("45"))];
    let (reg, _) = DeviceRegistry::build(&raws);
    let d = reg.lookup("PC").unwrap();
    assert_eq!(d.name, "PC");
    assert_eq!(d.mac.octets, [0xAA, 0xBB, 0xCC, 0xDD, 0xEE, 0xFF]);
    assert_eq!(d.network_address, "192.168.1.10");
    assert_eq!(d.timeout_secs, 45);
    assert!(reg.lookup("pc").is_none());
    assert!(reg.lookup("P").is_none());
    assert!(reg.lookup("PC ").is_none());
}

#[test]
fn timeout_defaults() {
    assert_eq!(DEFAULT_TIMEOUT_SECS, 30);
    assert_eq!(parse_timeout(&None), 30);
    assert_eq!(parse_timeout(&Some("abc".to_string())), 30);
    assert_eq!(parse_timeout(&Some("".to_string())), 30);
    assert_eq!(parse_timeout(&Some("-5".to_string())), 30);
    assert_eq!(parse_timeout(&Some("90".to_string())), 90);
    assert_eq!(parse_timeout(&Some("+7".to_string())), 7);
}

#[test]
fn decimal_parse_edges() {
    assert_eq!(parse_u64(&chars("0")), Some(0));
    assert_eq!(parse_u64(&chars("18446744073709551615")), Some(u64::MAX));
    assert_eq!(parse_u64(&chars("18446744073709551616")), None);
    assert_eq!(parse_u64(&chars("+")), None);
    assert_eq!(parse_u64(&chars("12a")), None);
    assert_eq!(parse_u64(&chars(" 12")), None);
}
