use vm_devices::rss::{
    compute_rx_hash, toeplitz_hash, IPPROTO_TCP, IPPROTO_UDP, MANA_HASH_IPV4, MANA_HASH_IPV6,
    MANA_HASH_KEY_SIZE, MANA_HASH_TCP_IPV4, MANA_HASH_TCP_IPV6, MANA_HASH_UDP_IPV4,
};

/// The Microsoft-standard RSS hash key used in the published Toeplitz
/// verification vectors.
const TEST_KEY: [u8; MANA_HASH_KEY_SIZE] = [
    0x6d, 0x5a, 0x56, 0xda, 0x25, 0x5b, 0x0e, 0xc2, 0x41, 0x67, 0x25, 0x3d, 0x43, 0xa3, 0x8f, 0xb0,
    0xd0, 0xca, 0x2b, 0xcb, 0xae, 0x7b, 0x30, 0xb4, 0x77, 0xcb, 0x2d, 0xa3, 0x80, 0x30, 0xf2, 0x0c,
    0x6a, 0x42, 0xb7, 0x3b, 0xbe, 0xac, 0x01, 0xfa,
];

// The two canonical Microsoft RSS verification vectors for the first flow
// (src 66.9.149.187:2794 -> dst 161.142.100.80:1766).
const IPV4_2TUPLE: [u8; 8] = [66, 9, 149, 187, 161, 142, 100, 80];
const IPV4_2TUPLE_HASH: u32 = 0x323e8fc2;
const IPV4_4TUPLE: [u8; 12] = [66, 9, 149, 187, 161, 142, 100, 80, 0x0a, 0xea, 0x06, 0xe6];
const IPV4_4TUPLE_HASH: u32 = 0x51ccc178;

#[test]
fn toeplitz_matches_published_vectors() {
    assert_eq!(toeplitz_hash(&TEST_KEY, &IPV4_2TUPLE), IPV4_2TUPLE_HASH);
    assert_eq!(toeplitz_hash(&TEST_KEY, &IPV4_4TUPLE), IPV4_4TUPLE_HASH);
}

/// Builds an Ethernet + IPv4 frame with the given L4 protocol and ports.
fn ipv4_frame(protocol: u8, src_port: u16, dst_port: u16) -> Vec<u8> {
    let mut frame = vec![
        // Ethernet: dst MAC, src MAC, ethertype 0x0800.
        0x02, 0, 0, 0, 0, 1, 0x02, 0, 0, 0, 0, 2, 0x08, 0x00,
    ];
    // IPv4 header (20 bytes, IHL=5).
    let mut ip = vec![
        0x45, 0x00, 0, 40, 0, 0, 0, 0, 64, protocol, 0, 0, 66, 9, 149, 187, 161, 142, 100, 80,
    ];
    frame.append(&mut ip);
    // L4 ports.
    frame.extend_from_slice(&src_port.to_be_bytes());
    frame.extend_from_slice(&dst_port.to_be_bytes());
    frame.extend_from_slice(&[0u8; 4]);
    frame
}

#[test]
fn tcp_ipv4_frame_hashes_4tuple() {
    let frame = ipv4_frame(IPPROTO_TCP, 2794, 1766);
    assert_eq!(
        compute_rx_hash(&frame, &TEST_KEY),
        Some((MANA_HASH_TCP_IPV4, IPV4_4TUPLE_HASH))
    );
}

#[test]
fn udp_ipv4_frame_uses_udp_hashtype() {
    let frame = ipv4_frame(IPPROTO_UDP, 2794, 1766);
    assert_eq!(
        compute_rx_hash(&frame, &TEST_KEY),
        Some((MANA_HASH_UDP_IPV4, IPV4_4TUPLE_HASH))
    );
}

#[test]
fn non_l4_ipv4_frame_hashes_addresses_only() {
    // ICMP (protocol 1) is neither TCP nor UDP, so the device hashes the
    // addresses and reports the IPv4 (L3) hash type.
    let frame = ipv4_frame(1, 2794, 1766);
    assert_eq!(
        compute_rx_hash(&frame, &TEST_KEY),
        Some((MANA_HASH_IPV4, IPV4_2TUPLE_HASH))
    );
}

#[test]
fn vlan_tagged_frame_is_parsed() {
    let mut frame = ipv4_frame(IPPROTO_TCP, 2794, 1766);
    // Insert an 802.1Q tag: rewrite the ethertype to 0x8100 and splice in
    // the TCI (0x0064) + the real ethertype (0x0800).
    frame[12] = 0x81;
    frame[13] = 0x00;
    frame.splice(14..14, [0x00, 0x64, 0x08, 0x00]);
    assert_eq!(
        compute_rx_hash(&frame, &TEST_KEY),
        Some((MANA_HASH_TCP_IPV4, IPV4_4TUPLE_HASH))
    );
}

#[test]
fn non_ip_frame_is_not_hashed() {
    // An ARP frame (ethertype 0x0806) is not hashed.
    let frame = vec![
        0x02, 0, 0, 0, 0, 1, 0x02, 0, 0, 0, 0, 2, 0x08, 0x06, 0, 1, 0x08, 0, 6, 4,
    ];
    assert_eq!(compute_rx_hash(&frame, &TEST_KEY), None);
}

#[test]
fn truncated_frame_is_not_hashed() {
    // Ethertype says IPv4 but there is no IP header.
    let frame = vec![0x02, 0, 0, 0, 0, 1, 0x02, 0, 0, 0, 0, 2, 0x08, 0x00];
    assert_eq!(compute_rx_hash(&frame, &TEST_KEY), None);
}

/// Builds an Ethernet + IPv6 frame with the given next header.
fn ipv6_frame(next_header: u8) -> Vec<u8> {
    let mut frame = vec![
        // Ethernet: dst MAC, src MAC, ethertype 0x86dd.
        0x02, 0, 0, 0, 0, 1, 0x02, 0, 0, 0, 0, 2, 0x86, 0xdd,
    ];
    // IPv6 header: version/traffic class, flow label, payload len, next
    // header, hop limit, src (16), dst (16).
    let mut ip = vec![0x60, 0, 0, 0, 0, 24, next_header, 64];
    ip.extend_from_slice(&[0x20, 0x01, 0x0d, 0xb8, 0, 0, 0, 0, 0, 0, 0, 0, 0, 0, 0, 1]);
    ip.extend_from_slice(&[0x20, 0x01, 0x0d, 0xb8, 0, 0, 0, 0, 0, 0, 0, 0, 0, 0, 0, 2]);
    frame.append(&mut ip);
    frame.extend_from_slice(&2794u16.to_be_bytes());
    frame.extend_from_slice(&1766u16.to_be_bytes());
    frame
}

#[test]
fn tcp_ipv6_frame_hashes_4tuple() {
    let mut frame = vec![
        // Ethernet: dst MAC, src MAC, ethertype 0x86dd.
        0x02, 0, 0, 0, 0, 1, 0x02, 0, 0, 0, 0, 2, 0x86, 0xdd,
    ];
    // IPv6 header: version/traffic class, flow label, payload len, next
    // header = TCP, hop limit, src (16), dst (16).
    let mut ip = vec![0x60, 0, 0, 0, 0, 24, IPPROTO_TCP, 64];
    ip.extend_from_slice(&[0x20, 0x01, 0x0d, 0xb8, 0, 0, 0, 0, 0, 0, 0, 0, 0, 0, 0, 1]);
    ip.extend_from_slice(&[0x20, 0x01, 0x0d, 0xb8, 0, 0, 0, 0, 0, 0, 0, 0, 0, 0, 0, 2]);
    frame.append(&mut ip);
    frame.extend_from_slice(&2794u16.to_be_bytes());
    frame.extend_from_slice(&1766u16.to_be_bytes());
    let (hashtype, _value) = compute_rx_hash(&frame, &TEST_KEY).expect("ipv6 tcp hashed");
    assert_eq!(hashtype, MANA_HASH_TCP_IPV6);
}

#[test]
fn ipv6_without_ports_hashes_addresses_only() {
    let frame = ipv6_frame(0);
    let (hashtype, value) = compute_rx_hash(&frame, &TEST_KEY).expect("ipv6 hashed");
    assert_eq!(hashtype, MANA_HASH_IPV6);
    assert_eq!(value, toeplitz_hash(&TEST_KEY, &frame[22..54]));
    // The ports are cut off: the addresses are still there.
    let cut = &ipv6_frame(IPPROTO_TCP)[..57];
    assert_eq!(compute_rx_hash(cut, &TEST_KEY), Some((MANA_HASH_IPV6, value)));
    // One byte of the header is missing.
    assert_eq!(compute_rx_hash(&frame[..53], &TEST_KEY), None);
}

#[test]
fn fragment_is_hashed_on_addresses_only() {
    let mut first = ipv4_frame(IPPROTO_TCP, 2794, 1766);
    first[20] = 0x20; // more fragments
    let mut later = ipv4_frame(IPPROTO_TCP, 2794, 1766);
    later[21] = 0x01; // fragment offset
    let mut whole = ipv4_frame(IPPROTO_TCP, 2794, 1766);
    whole[20] = 0x40; // do not fragment
    let addresses = Some((MANA_HASH_IPV4, IPV4_2TUPLE_HASH));
    assert_eq!(compute_rx_hash(&first, &TEST_KEY), addresses);
    assert_eq!(compute_rx_hash(&later, &TEST_KEY), addresses);
    assert_eq!(
        compute_rx_hash(&whole, &TEST_KEY),
        Some((MANA_HASH_TCP_IPV4, IPV4_4TUPLE_HASH))
    );
}

#[test]
fn short_header_length_is_not_hashed() {
    let mut frame = ipv4_frame(IPPROTO_TCP, 2794, 1766);
    frame[14] = 0x44;
    assert_eq!(compute_rx_hash(&frame, &TEST_KEY), None);
    frame[14] = 0x4f;
    assert_eq!(compute_rx_hash(&frame, &TEST_KEY), None);
}

#[test]
fn key_bits_past_the_end_are_zero() {
    // With a four-byte key the window runs empty after 32 bits.
    assert_eq!(toeplitz_hash(&[0xff; 4], &[0x80]), 0xffff_ffff);
    assert_eq!(toeplitz_hash(&[0xff; 4], &[0x40]), 0xffff_fffe);
    assert_eq!(toeplitz_hash(&[0xff; 4], &[0, 0, 0, 1]), 0x8000_0000);
    assert_eq!(toeplitz_hash(&[0xff; 4], &[0, 0, 0, 0, 0xff]), 0);
}

#[test]
fn hash_is_linear() {
    let a = IPV4_4TUPLE;
    let b = [0x5a, 1, 0xff, 0, 7, 0x80, 33, 2, 0, 9, 0xa5, 0x10];
    let sum: Vec<u8> = a.iter().zip(&b).map(|(x, y)| x ^ y).collect();
    let expected = toeplitz_hash(&TEST_KEY, &a) ^ toeplitz_hash(&TEST_KEY, &b);
    assert_eq!(toeplitz_hash(&TEST_KEY, &sum), expected);
}

#[test]
fn trailing_zero_bytes_do_not_matter() {
    let mut input = IPV4_4TUPLE.to_vec();
    input.resize(20, 0);
    assert_eq!(toeplitz_hash(&TEST_KEY, &input), IPV4_4TUPLE_HASH);
}
