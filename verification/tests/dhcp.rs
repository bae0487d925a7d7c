use smoltcp::phy::ChecksumCapabilities;
use smoltcp::wire::{
    DhcpMessageType, DhcpPacket, DhcpRepr, EthernetAddress, EthernetFrame, Ipv4Address, Ipv4Packet,
    Ipv4Repr, UdpPacket,
};
use vm_devices::dhcp::{
    handle_dhcp, plan_reply, ChecksumState, ConsommeParams, DropReason, IpAddress, DHCP_CLIENT,
    DHCP_SERVER,
};
use vm_devices::wire::DhcpRequest;

const CLIENT_MAC: [u8; 6] = [0x00, 0x00, 0x00, 0x00, 0x01, 0x00];
const CLIENT_IP: [u8; 4] = [10, 0, 0, 2];
const GATEWAY_IP: [u8; 4] = [10, 0, 0, 1];
const GATEWAY_MAC: [u8; 6] = [0x52, 0x55, 10, 0, 0, 1];

fn params() -> ConsommeParams {
    ConsommeParams {
        gateway_ip: GATEWAY_IP,
        gateway_mac: GATEWAY_MAC,
        client_ip: CLIENT_IP,
        net_mask: [255, 255, 255, 0],
        nameservers: vec![
            IpAddress::Ipv6([0; 16]),
            IpAddress::Ipv4([1, 1, 1, 1]),
            IpAddress::Ipv4([2, 2, 2, 2]),
            IpAddress::Ipv6([1; 16]),
            IpAddress::Ipv4([3, 3, 3, 3]),
            IpAddress::Ipv4([4, 4, 4, 4]),
        ],
    }
}

/// Builds a DHCP message as a guest would emit it, with the BOOTP broadcast
/// flag set to `broadcast`.
fn build_request(
    message_type: DhcpMessageType,
    broadcast: bool,
    requested_ip: Option<[u8; 4]>,
) -> Vec<u8> {
    let dhcp = DhcpRepr {
        message_type,
        transaction_id: 0x1234_5678,
        secs: 0,
        client_hardware_address: EthernetAddress(CLIENT_MAC),
        client_ip: Ipv4Address::UNSPECIFIED,
        your_ip: Ipv4Address::UNSPECIFIED,
        server_ip: Ipv4Address::UNSPECIFIED,
        router: None,
        subnet_mask: None,
        relay_agent_ip: Ipv4Address::UNSPECIFIED,
        broadcast,
        requested_ip: requested_ip.map(Ipv4Address::from),
        client_identifier: None,
        server_identifier: None,
        parameter_request_list: None,
        dns_servers: None,
        max_size: None,
        lease_duration: None,
        renew_duration: None,
        rebind_duration: None,
        additional_options: &[],
    };
    let mut buffer = vec![0u8; dhcp.buffer_len()];
    dhcp.emit(&mut DhcpPacket::new_unchecked(&mut buffer[..]))
        .unwrap();
    buffer
}

/// The decoded destinations of the single OFFER that is delivered, plus the
/// configured client identity for unicast assertions.
struct DecodedOffer {
    eth_dst: EthernetAddress,
    ip_dst: Ipv4Address,
    dhcp_broadcast: bool,
    checksum: ChecksumState,
    client_mac: EthernetAddress,
    client_ip: Ipv4Address,
}

/// Sends a DISCOVER with the given broadcast flag and returns the decoded
/// destinations of the single OFFER that is delivered.
fn offer_for(broadcast: bool) -> DecodedOffer {
    let discover = build_request(DhcpMessageType::Discover, broadcast, None);
    let (frame, checksum) = handle_dhcp(&params(), &discover).expect("send");

    let eth = EthernetFrame::new_checked(frame.as_slice()).expect("eth");
    let eth_dst = eth.dst_addr();
    assert_eq!(eth.src_addr(), EthernetAddress(GATEWAY_MAC));
    let ipv4 = Ipv4Packet::new_checked(eth.payload()).expect("ipv4");
    let ip_dst = ipv4.dst_addr();
    Ipv4Repr::parse(&ipv4, &ChecksumCapabilities::default()).expect("ipv4 checksum");
    let udp = UdpPacket::new_checked(ipv4.payload()).expect("udp");
    assert!(udp.verify_checksum(&ipv4.src_addr().into(), &ipv4.dst_addr().into()));
    assert_eq!(udp.src_port(), DHCP_SERVER);
    assert_eq!(udp.dst_port(), DHCP_CLIENT);
    let dhcp_packet = DhcpPacket::new_checked(udp.payload()).expect("dhcp");
    let dhcp = DhcpRepr::parse(&dhcp_packet).expect("dhcp repr");
    assert_eq!(dhcp.message_type, DhcpMessageType::Offer);

    DecodedOffer {
        eth_dst,
        ip_dst,
        dhcp_broadcast: dhcp.broadcast,
        checksum,
        client_mac: EthernetAddress(CLIENT_MAC),
        client_ip: Ipv4Address::from(CLIENT_IP),
    }
}

// A broadcast-flagged DISCOVER (as the Windows DHCP client sends) must get a
// reply that echoes the flag and is broadcast at both layer 2 and layer 3,
// with the UDP checksum indicated as verified.
#[test]
fn offer_honors_broadcast_flag() {
    let offer = offer_for(true);
    assert_eq!(offer.eth_dst, EthernetAddress::BROADCAST);
    assert_eq!(offer.ip_dst, Ipv4Address::BROADCAST);
    assert!(offer.dhcp_broadcast, "OFFER must echo the broadcast flag");
    assert!(
        offer.checksum.ipv4 && offer.checksum.udp && !offer.checksum.tcp,
        "UDP4 checksum"
    );
}

// A DISCOVER with the broadcast flag clear gets a consistent unicast reply:
// layer-2 destination is the client MAC and layer-3 destination is the
// offered address (never a unicast/broadcast martian).
#[test]
fn offer_unicasts_when_flag_clear() {
    let offer = offer_for(false);
    assert_eq!(offer.eth_dst, offer.client_mac);
    assert_eq!(offer.ip_dst, offer.client_ip);
    assert!(
        !offer.dhcp_broadcast,
        "OFFER must not set the broadcast flag"
    );
    assert!(
        offer.checksum.ipv4 && offer.checksum.udp && !offer.checksum.tcp,
        "UDP4 checksum"
    );
}

/// The DHCP message in a reply frame.
fn message(frame: &[u8]) -> &[u8] {
    &frame[42..]
}

#[test]
fn offer_carries_the_lease() {
    let discover = build_request(DhcpMessageType::Discover, false, Some([9, 9, 9, 9]));
    let (frame, _) = handle_dhcp(&params(), &discover).unwrap();
    let packet = DhcpPacket::new_checked(message(&frame)).unwrap();
    let reply = DhcpRepr::parse(&packet).unwrap();
    let gateway = Ipv4Address::from(GATEWAY_IP);
    assert_eq!(reply.transaction_id, 0x1234_5678);
    assert_eq!(reply.your_ip, Ipv4Address::from(CLIENT_IP));
    assert_eq!(reply.server_ip, gateway);
    assert_eq!(reply.client_ip, Ipv4Address::UNSPECIFIED);
    assert_eq!(reply.relay_agent_ip, Ipv4Address::UNSPECIFIED);
    assert_eq!(reply.router, Some(gateway));
    assert_eq!(reply.server_identifier, Some(gateway));
    assert_eq!(reply.subnet_mask, Some(Ipv4Address::new(255, 255, 255, 0)));
    assert_eq!(reply.lease_duration, Some(86400));
    assert_eq!(reply.client_hardware_address, EthernetAddress(CLIENT_MAC));
    // The first three servers with IPv4 addresses, in order.
    let servers: Vec<Ipv4Address> = reply.dns_servers.unwrap().iter().copied().collect();
    assert_eq!(
        servers,
        vec![
            Ipv4Address::new(1, 1, 1, 1),
            Ipv4Address::new(2, 2, 2, 2),
            Ipv4Address::new(3, 3, 3, 3)
        ]
    );
    // The reply is exactly as long as its message needs.
    assert_eq!(frame.len(), 14 + 20 + 8 + 282);
}

#[test]
fn request_for_the_clients_address_is_acknowledged() {
    for requested in [Some(CLIENT_IP), None] {
        let request = build_request(DhcpMessageType::Request, false, requested);
        let (frame, _) = handle_dhcp(&params(), &request).unwrap();
        let packet = DhcpPacket::new_checked(message(&frame)).unwrap();
        let reply = DhcpRepr::parse(&packet).unwrap();
        assert_eq!(reply.message_type, DhcpMessageType::Ack);
        assert_eq!(reply.your_ip, Ipv4Address::from(CLIENT_IP));
        assert_eq!(&frame[0..6], &CLIENT_MAC);
        assert_eq!(&frame[30..34], &CLIENT_IP);
    }
}

#[test]
fn request_for_another_address_is_refused_by_broadcast() {
    for broadcast in [false, true] {
        let request = build_request(DhcpMessageType::Request, broadcast, Some([10, 0, 0, 3]));
        let (frame, _) = handle_dhcp(&params(), &request).unwrap();
        let packet = DhcpPacket::new_checked(message(&frame)).unwrap();
        let reply = DhcpRepr::parse(&packet).unwrap();
        assert_eq!(reply.message_type, DhcpMessageType::Nak);
        assert_eq!(reply.broadcast, broadcast);
        assert_eq!(reply.your_ip, Ipv4Address::BROADCAST);
        assert_eq!(reply.router, None);
        assert_eq!(reply.subnet_mask, None);
        assert_eq!(reply.server_identifier, None);
        assert_eq!(reply.lease_duration, None);
        assert!(reply.dns_servers.is_none());
        assert_eq!(&frame[0..6], &[0xff; 6]);
        assert_eq!(&frame[30..34], &[0xff; 4]);
        assert_eq!(frame.len(), 14 + 20 + 8 + 244);
    }
}

#[test]
fn other_messages_are_dropped() {
    let release = build_request(DhcpMessageType::Release, false, None);
    assert_eq!(
        handle_dhcp(&params(), &release).err(),
        Some(DropReason::UnsupportedDhcp(7))
    );
    assert_eq!(
        handle_dhcp(&params(), &release[..239]).err(),
        Some(DropReason::Packet)
    );
    let mut broken = release;
    broken[236] = 0;
    assert_eq!(
        handle_dhcp(&params(), &broken).err(),
        Some(DropReason::Packet)
    );
}

#[test]
fn plan_follows_the_request() {
    let request = DhcpRequest {
        message_type: 3,
        transaction_id: 7,
        client_hardware_address: CLIENT_MAC,
        broadcast: true,
        requested_ip: Some(CLIENT_IP),
    };
    let plan = plan_reply(&params(), &request).ok().unwrap();
    assert_eq!(plan.message_type, 5);
    assert_eq!(plan.transaction_id, 7);
    assert!(plan.granted && plan.broadcast);
    assert_eq!(plan.your_ip, CLIENT_IP);
    assert_eq!(plan.eth_dst, [0xff; 6]);
    assert_eq!(plan.ip_dst, [0xff; 4]);
    let inform = DhcpRequest {
        message_type: 8,
        ..request
    };
    assert_eq!(
        plan_reply(&params(), &inform).err(),
        Some(DropReason::UnsupportedDhcp(8))
    );
}

#[test]
fn reply_headers_are_exact() {
    for (broadcast, dst, checksum) in [(false, CLIENT_IP, 0x25b5u16), (true, [255; 4], 0x2fb7)] {
        let discover = build_request(DhcpMessageType::Discover, broadcast, None);
        let (frame, _) = handle_dhcp(&params(), &discover).expect("send");
        // 14 + 20 + 8 bytes of headers, and 282 of the message.
        assert_eq!(frame.len(), 324);
        let mut header = vec![0x45, 0, 0x01, 0x36, 0, 0, 0x40, 0, 64, 17];
        header.extend_from_slice(&checksum.to_be_bytes());
        header.extend_from_slice(&GATEWAY_IP);
        header.extend_from_slice(&dst);
        assert_eq!(frame[14..34], header);
        assert_eq!(frame[34..40], [0, 67, 0, 68, 0x01, 0x22]);
        // The words of the addresses, the protocol, the length and the packet.
        let mut sum: u32 = 17 + 0x122;
        for word in frame[26..40].chunks(2).chain(frame[42..].chunks(2)) {
            sum += u32::from(word[0]) << 8 | u32::from(word[1]);
        }
        while sum > 0xffff {
            sum = (sum >> 16) + (sum & 0xffff);
        }
        assert_eq!(frame[40..42], (!(sum as u16)).to_be_bytes());
        assert_eq!(frame[58..62], CLIENT_IP);
    }
}
