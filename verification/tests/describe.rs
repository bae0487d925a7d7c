use vm_devices::describe::{describe_frame, dhcp_mt_name, write_dhcp_label};
use vm_devices::wire::DhcpRequest;

fn eth(ethertype: u16, payload: &[u8]) -> Vec<u8> {
    let mut v = Vec::new();
    v.extend_from_slice(&[0xff; 6]); // dst
    v.extend_from_slice(&[0x02, 0, 0, 0, 0, 1]); // src
    v.extend_from_slice(&ethertype.to_be_bytes());
    v.extend_from_slice(payload);
    v
}

fn ipv4(proto: u8, src: [u8; 4], dst: [u8; 4], l4: &[u8]) -> Vec<u8> {
    let total = 20 + l4.len();
    let mut v = vec![0u8; 20];
    v[0] = 0x45;
    v[2..4].copy_from_slice(&(total as u16).to_be_bytes());
    v[8] = 64; // ttl
    v[9] = proto;
    v[12..16].copy_from_slice(&src);
    v[16..20].copy_from_slice(&dst);
    v.extend_from_slice(l4);
    eth(0x0800, &v)
}

fn udp(sp: u16, dp: u16, l7: &[u8]) -> Vec<u8> {
    let mut v = vec![0u8; 8];
    v[0..2].copy_from_slice(&sp.to_be_bytes());
    v[2..4].copy_from_slice(&dp.to_be_bytes());
    v[4..6].copy_from_slice(&((8 + l7.len()) as u16).to_be_bytes());
    v.extend_from_slice(l7);
    v
}

fn dhcp_discover() -> Vec<u8> {
    // Minimal RFC 2131 BOOTREQUEST + magic cookie + option 53=DISCOVER.
    let mut v = vec![0u8; 240];
    v[0] = 1; // op = BOOTREQUEST
    v[1] = 1; // htype = ethernet
    v[2] = 6; // hlen
    v[4..8].copy_from_slice(&0x1234_5678u32.to_be_bytes()); // xid
    v[28..34].copy_from_slice(&[0x02, 0, 0, 0, 0, 1]); // chaddr
    v[236..240].copy_from_slice(&[0x63, 0x82, 0x53, 0x63]); // magic cookie
    v.extend_from_slice(&[53, 1, 1]); // option 53: DHCP message type = DISCOVER
    v.push(255); // end
    v
}

#[test]
fn arp_request() {
    let mut p = vec![0u8; 28];
    p[6..8].copy_from_slice(&1u16.to_be_bytes()); // request
    p[14..18].copy_from_slice(&[10, 0, 0, 2]); // sender IP
    p[24..28].copy_from_slice(&[10, 0, 0, 1]); // target IP
    let frame = eth(0x0806, &p);
    let s = describe_frame(&frame).to_string();
    assert_eq!(s, "ARP who-has tpa=10.0.0.1 spa=10.0.0.2", "{s}");
}

#[test]
fn dhcp_discover_is_labeled() {
    let frame = ipv4(
        17,
        [0, 0, 0, 0],
        [255, 255, 255, 255],
        &udp(68, 67, &dhcp_discover()),
    );
    let s = describe_frame(&frame).to_string();
    assert!(
        s.starts_with("IPv4 UDP 0.0.0.0->255.255.255.255 68->67"),
        "{s}"
    );
    assert!(
        s.contains("DHCP:DISCOVER"),
        "expected decoded DHCP message type in: {s}"
    );
}

#[test]
fn tcp_syn_flags() {
    let mut tcp = vec![0u8; 20];
    tcp[0..2].copy_from_slice(&49152u16.to_be_bytes());
    tcp[2..4].copy_from_slice(&443u16.to_be_bytes());
    tcp[12] = 0x50; // data offset = 5 words
    tcp[13] = 0x02; // SYN
    let frame = ipv4(6, [10, 0, 0, 2], [1, 1, 1, 1], &tcp);
    let s = describe_frame(&frame).to_string();
    assert_eq!(s, "IPv4 TCP 10.0.0.2->1.1.1.1 49152->443 [S]", "{s}");
}

#[test]
fn ipv6_ndp_neighbor_solicit() {
    let mut ip6 = vec![0u8; 40];
    ip6[0] = 0x60; // version 6
    ip6[6] = 58; // next header = ICMPv6
    let mut icmp = vec![0u8; 8];
    icmp[0] = 135; // Neighbor Solicitation
    ip6.extend_from_slice(&icmp);
    let frame = eth(0x86dd, &ip6);
    let s = describe_frame(&frame).to_string();
    assert!(s.starts_with("IPv6 ICMPv6"), "{s}");
    assert!(s.ends_with(" NS"), "{s}");
}

#[test]
fn malformed_does_not_panic() {
    assert_eq!(describe_frame(&[]).to_string(), "runt len=0");
    assert_eq!(describe_frame(&[0u8; 10]).to_string(), "runt len=10");
    // Ethernet header claiming IPv4 but with a truncated L3 header.
    let s = describe_frame(&eth(0x0800, &[0x45, 0, 0])).to_string();
    assert!(s.starts_with("IPv4 (short)"), "{s}");
}

#[test]
fn every_prefix_of_a_frame_is_described() {
    let frame = ipv4(
        17,
        [0, 0, 0, 0],
        [255, 255, 255, 255],
        &udp(68, 67, &dhcp_discover()),
    );
    for len in 0..=frame.len() {
        assert!(!describe_frame(&frame[..len]).to_string().is_empty());
    }
    assert_eq!(
        describe_frame(&frame[..42]).to_string(),
        "IPv4 UDP 0.0.0.0->255.255.255.255 68->67 DHCP"
    );
    assert_eq!(
        describe_frame(&frame[..33]).to_string(),
        "IPv4 (short) len=33"
    );
}

#[test]
fn arp_variants_are_described() {
    let mut p = vec![0u8; 28];
    p[7] = 2;
    p[14..18].copy_from_slice(&[192, 168, 100, 1]);
    assert_eq!(
        describe_frame(&eth(0x0806, &p)).to_string(),
        "ARP is-at tpa=0.0.0.0 spa=192.168.100.1"
    );
    p[6] = 1;
    assert_eq!(
        describe_frame(&eth(0x0806, &p)).to_string(),
        "ARP op=258"
    );
    assert_eq!(
        describe_frame(&eth(0x0806, &p[..27])).to_string(),
        "ARP (short)"
    );
}

#[test]
fn other_ethertypes_are_described() {
    assert_eq!(
        describe_frame(&eth(0x88cc, &[0; 50])).to_string(),
        "ethertype=0x88cc len=64"
    );
    assert_eq!(
        describe_frame(&eth(0x000a, &[])).to_string(),
        "ethertype=0x000a len=14"
    );
}

#[test]
fn dhcp_kinds_are_named() {
    let label = |kind: u8, reply: bool| {
        let mut message = dhcp_discover();
        message[0] = if reply { 2 } else { 1 };
        message[242] = kind;
        let frame = ipv4(17, [1, 2, 3, 4], [5, 6, 7, 8], &udp(67, 9, &message));
        describe_frame(&frame).to_string()
    };
    let head = "IPv4 UDP 1.2.3.4->5.6.7.8 67->9 DHCP";
    assert_eq!(label(1, false), format!("{head}:DISCOVER"));
    assert_eq!(label(2, true), format!("{head}:OFFER"));
    assert_eq!(label(3, false), format!("{head}:REQUEST"));
    assert_eq!(label(4, false), format!("{head}:DECLINE"));
    assert_eq!(label(5, true), format!("{head}:ACK"));
    assert_eq!(label(6, true), format!("{head}:NAK"));
    assert_eq!(label(7, false), format!("{head}:RELEASE"));
    assert_eq!(label(8, false), format!("{head}:INFORM"));
    // A kind that does not go with the direction cannot be read.
    assert_eq!(label(1, true), head);
}

#[test]
fn dhcpv6_is_labeled() {
    let frame = ipv4(17, [1, 2, 3, 4], [5, 6, 7, 8], &udp(546, 547, &[]));
    assert_eq!(
        describe_frame(&frame).to_string(),
        "IPv4 UDP 1.2.3.4->5.6.7.8 546->547 DHCPv6"
    );
}

#[test]
fn icmp_and_flags_are_described() {
    let icmp = ipv4(1, [1, 2, 3, 4], [5, 6, 7, 8], &[8]);
    assert_eq!(
        describe_frame(&icmp).to_string(),
        "IPv4 ICMP 1.2.3.4->5.6.7.8 type=8"
    );
    let mut tcp = vec![0u8; 20];
    tcp[13] = 0x1f;
    let frame = ipv4(6, [1, 2, 3, 4], [5, 6, 7, 8], &tcp);
    assert_eq!(
        describe_frame(&frame).to_string(),
        "IPv4 TCP 1.2.3.4->5.6.7.8 0->0 [SAFRP]"
    );
    tcp[13] = 0x20;
    let frame = ipv4(6, [1, 2, 3, 4], [5, 6, 7, 8], &tcp);
    assert_eq!(
        describe_frame(&frame).to_string(),
        "IPv4 TCP 1.2.3.4->5.6.7.8 0->0 [.]"
    );
    let igmp = ipv4(2, [1, 2, 3, 4], [5, 6, 7, 8], &[]);
    assert_eq!(
        describe_frame(&igmp).to_string(),
        "IPv4 IGMP 1.2.3.4->5.6.7.8"
    );
    let other = ipv4(89, [1, 2, 3, 4], [5, 6, 7, 8], &[]);
    assert_eq!(
        describe_frame(&other).to_string(),
        "IPv4 proto 1.2.3.4->5.6.7.8"
    );
}

#[test]
fn ipv6_addresses_are_grouped() {
    let mut ip6 = vec![0u8; 40];
    ip6[0] = 0x60;
    ip6[6] = 17;
    ip6[8..12].copy_from_slice(&[0x20, 0x01, 0x0d, 0xb8]);
    ip6[23] = 0x0a;
    ip6[24] = 0xfe;
    ip6[25] = 0x80;
    assert_eq!(
        describe_frame(&eth(0x86dd, &ip6)).to_string(),
        "IPv6 UDP 2001:db8:0:0:0:0:0:a->fe80:0:0:0:0:0:0:0"
    );
    ip6[0] = 0x50;
    assert_eq!(
        describe_frame(&eth(0x86dd, &ip6)).to_string(),
        "IPv6 (short) len=54"
    );
}

#[test]
fn dhcp_messages_are_labeled_by_their_kind() {
    let label = |sp: u16, dp: u16, kind: Option<u8>| {
        let parsed = kind.map(|message_type| DhcpRequest {
            message_type,
            transaction_id: 0,
            client_hardware_address: [0; 6],
            broadcast: false,
            requested_ip: None,
        });
        let mut f = String::from("UDP");
        write_dhcp_label(&mut f, sp, dp, parsed);
        f
    };
    assert_eq!(label(68, 67, Some(1)), "UDP DHCP:DISCOVER");
    assert_eq!(label(67, 68, Some(6)), "UDP DHCP:NAK");
    assert_eq!(label(67, 68, Some(9)), "UDP DHCP:DHCP?");
    assert_eq!(label(68, 67, None), "UDP DHCP");
    assert_eq!(label(546, 67, Some(1)), "UDP DHCPv6");
    assert_eq!(label(53, 99, Some(1)), "UDP");
    assert_eq!(dhcp_mt_name(8), "INFORM");
}
