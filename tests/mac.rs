use wol_bot::mac::{create_magic_packet, encode, parse_mac, parse_octet, split_groups, AddressError, MacAddress};

fn chars(s: &str) -> Vec<char> {
    s.chars().collect()
}

#[test]
fn packet_layout_for_example_address() {
    let m = parse_mac("AA:BB:CC:DD:EE:FF").unwrap();
    let p = encode(&m);
    assert_eq!(p.len(), 102);
    assert_eq!(&p[..6], &[0xFF; 6]);
    for k in 0..16 {
        assert_eq!(&p[6 + 6 * k..12 + 6 * k], &[0xAA, 0xBB, 0xCC, 0xDD, 0xEE, 0xFF]);
    }
    assert_eq!(&p[..12], &[0xFF, 0xFF, 0xFF, 0xFF, 0xFF, 0xFF, 0xAA, 0xBB, 0xCC, 0xDD, 0xEE, 0xFF]);
}

#[test]
fn packet_of_all_ones_address_is_all_ones() {
    let p = encode(&MacAddress { octets: [0xFF; 6] });
    assert_eq!(p, vec![0xFF; 102]);
}

#[test]
fn packet_of_zero_address() {
    let p = encode(&MacAddress { octets: [0; 6] });
    assert_eq!(p.len(), 102);
    assert!(p[..6].iter().all(|b| *b == 0xFF));
    assert!(p[6..].iter().all(|b| *b == 0));
}

#[test]
fn colon_and_dash_parse_alike() {
    let a = parse_mac("AA:BB:CC:DD:EE:FF").unwrap();
    let b = parse_mac("AA-BB-CC-DD-EE-FF").unwrap();
    let c = parse_mac("aa-bb:cc-dd:ee-ff").unwrap();
    assert_eq!(a, b);
    assert_eq!(a, c);
    assert_eq!(a.octets, [0xAA, 0xBB, 0xCC, 0xDD, 0xEE, 0xFF]);
}

#[test]
fn parse_reads_each_group() {
    let m = parse_mac("01:23:45:67:89:ab").unwrap();
    assert_eq!(m.octets, [0x01, 0x23, 0x45, 0x67, 0x89, 0xAB]);
    let short = parse_mac("1:2:3:a:b:c").unwrap();
    assert_eq!(short.octets, [1, 2, 3, 10, 11, 12]);
}

#[test]
fn empty_groups_are_skipped() {
    let m = parse_mac("AA::BB:CC:DD:EE:FF:").unwrap();
    assert_eq!(m.octets, [0xAA, 0xBB, 0xCC, 0xDD, 0xEE, 0xFF]);
}

#[test]
fn five_groups_rejected() {
    assert_eq!(parse_mac("AA:BB:CC:DD:EE"), Err(AddressError::InvalidAddressFormat));
}

#[test]
fn seven_groups_rejected() {
    assert_eq!(parse_mac("AA:BB:CC:DD:EE:FF:00"), Err(AddressError::InvalidAddressFormat));
}

#[test]
fn non_hex_group_rejected() {
    assert_eq!(parse_mac("GG:BB:CC:DD:EE:FF"), Err(AddressError::InvalidAddressFormat));
    assert_eq!(parse_mac("+A:BB:CC:DD:EE:FF"), Err(AddressError::InvalidAddressFormat));
}

#[test]
fn empty_string_rejected() {
    assert_eq!(parse_mac(""), Err(AddressError::InvalidAddressFormat));
    assert_eq!(create_magic_packet(""), Err(AddressError::InvalidAddressFormat));
}

#[test]
fn group_too_large_rejected() {
    assert_eq!(parse_mac("100:BB:CC:DD:EE:FF"), Err(AddressError::InvalidAddressFormat));
    assert_eq!(parse_mac("0FF:BB:CC:DD:EE:FF").unwrap().octets[0], 0xFF);
}

#[test]
fn octet_values() {
    assert_eq!(parse_octet(&chars("ff")), Some(255));
    assert_eq!(parse_octet(&chars("0")), Some(0));
    assert_eq!(parse_octet(&chars("1f")), Some(31));
    assert_eq!(parse_octet(&chars("")), None);
    assert_eq!(parse_octet(&chars("g")), None);
    assert_eq!(parse_octet(&chars("100")), None);
}

#[test]
fn groups_split_on_both_separators() {
    let g = split_groups(&chars("a:b-c::d"));
    assert_eq!(g, vec![chars("a"), chars("b"), chars("c"), chars("d")]);
    assert!(split_groups(&chars("")).is_empty());
    assert!(split_groups(&chars(":-:")).is_empty());
}

#[test]
fn create_magic_packet_from_text() {
    let p = create_magic_packet("01-02-03-04-05-06").unwrap();
    assert_eq!(p.len(), 102);
    assert_eq!(&p[96..], &[1, 2, 3, 4, 5, 6]);
    assert_eq!(create_magic_packet("01-02-03"), Err(AddressError::InvalidAddressFormat));
}

#[test]
fn written_address_reads_back_with_either_separator() {
    let samples: [[u8; 6]; 3] = [
        [0x00, 0x01, 0x7F, 0x80, 0xFE, 0xFF],
        [0xDE, 0xAD, 0xBE, 0xEF, 0x00, 0x42],
        [0x0A, 0x1B, 0x2C, 0x3D, 0x4E, 0x5F],
    ];
    for octets in samples {
        for sep in [":", "-"] {
            let text = octets.iter().map(|b| format!("{:02X}", b)).collect::<Vec<_>>().join(sep);
            assert_eq!(parse_mac(&text).unwrap().octets, octets);
        }
    }
}
