use icmp_tcp_tunnel::utils::ip_checksum::calc_checksum;

#[test]
fn checksum_of_empty_is_all_ones() {
    assert_eq!(calc_checksum(&[], 0), 0xFFFF);
}

#[test]
fn checksum_of_known_ipv4_header() {
    let mut h = vec![
        0x45, 0x00, 0x00, 0x3c, 0x1c, 0x46, 0x40, 0x00, 0x40, 0x06, 0x00, 0x00, 0xac, 0x10, 0x0a,
        0x63, 0xac, 0x10, 0x0a, 0x0c,
    ];
    assert_eq!(calc_checksum(&h, 0), 0xb1e6);
    h[10] = 0xb1;
    h[11] = 0xe6;
    assert_eq!(calc_checksum(&h, 0), 0);
}

#[test]
fn checksum_pads_odd_tail_as_high_byte() {
    // 0x0102 + 0x0300 = 0x0402
    assert_eq!(calc_checksum(&[0x01, 0x02, 0x03], 0), !0x0402u16);
}

#[test]
fn checksum_adds_initial_sum() {
    assert_eq!(calc_checksum(&[0x00, 0x01], 0x10), !0x0011u16);
}

#[test]
fn checksum_folds_carries_twice() {
    // 0xFFFF + 0xFFFF = 0x1FFFE -> 0xFFFF after folding
    assert_eq!(calc_checksum(&[0xFF, 0xFF, 0xFF, 0xFF], 0), 0);
    // 0xFFFF + 0x0001 = 0x10000 -> 0x0001
    assert_eq!(calc_checksum(&[0xFF, 0xFF, 0x00, 0x01], 0), !0x0001u16);
}
