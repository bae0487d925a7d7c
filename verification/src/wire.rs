//! Packet formats that the `smoltcp` crate reads and writes, on plain values.

use crate::bytes::zero_bytes;
use crate::rss::be16_at;
use smoltcp::phy::ChecksumCapabilities;
use smoltcp::wire::{DhcpPacket, DhcpRepr, EthernetAddress, EthernetFrame, EthernetRepr};
use smoltcp::wire::{IpAddress as WireAddress, Ipv4Packet, Ipv4Repr, UdpPacket, UdpRepr};
use vstd::prelude::*;

verus! {

/// How many name servers a DHCP message can list.
pub const DHCP_MAX_DNS_SERVER_COUNT: usize = 3;

/// The length of a DHCP message without its options.
pub const DHCP_FIXED_LEN: usize = 240;

/// What is read of a DHCP message.
#[derive(Clone, Copy)]
pub struct DhcpRequest {
    /// The number of the message's kind.
    pub message_type: u8,
    pub transaction_id: u32,
    pub client_hardware_address: [u8; 6],
    /// Whether the client asks for a broadcast reply.
    pub broadcast: bool,
    pub requested_ip: Option<[u8; 4]>,
}

/// What `smoltcp` reads of the bytes of a DHCP message; `None` for bytes that are none.
pub uninterp spec fn dhcp_parsed(payload: Seq<u8>) -> Option<DhcpRequest>;

/// The 32-bit number at position `i`, most significant byte first.
pub open spec fn be32_at(bytes: Seq<u8>, i: int) -> int {
    bytes[i] * 0x100_0000 + bytes[i + 1] * 0x1_0000 + bytes[i + 2] * 0x100 + bytes[i + 3]
}

/// [`DhcpRepr::parse`] on [`DhcpPacket::new_checked`]: a message is at least as long as its fixed
/// part, from which the transaction, the client's address and the broadcast flag are taken.
#[verifier::external_body]
pub(crate) fn parse_dhcp(payload: &[u8]) -> (ret: Option<DhcpRequest>)
    ensures
        ret == dhcp_parsed(payload@),
        ret matches Some(req) ==> {
            &&& payload@.len() >= DHCP_FIXED_LEN
            &&& req.transaction_id == be32_at(payload@, 4)
            &&& req.broadcast == (payload@[10] >= 0x80)
            &&& req.client_hardware_address@ == payload@.subrange(28, 34)
        },
{
    let packet = DhcpPacket::new_checked(payload).ok()?;
    let repr = DhcpRepr::parse(&packet).ok()?;
    Some(DhcpRequest {
        message_type: repr.message_type.into(),
        transaction_id: repr.transaction_id,
        client_hardware_address: repr.client_hardware_address.0,
        broadcast: repr.broadcast,
        requested_ip: repr.requested_ip.map(|ip| ip.octets()),
    })
}

/// The vector of bounded length of the `heapless` crate.
#[verifier::external_type_specification]
#[verifier::external_body]
#[verifier::reject_recursive_types(T)]
pub struct ExHeaplessVec<T, const N: usize>(heapless::Vec<T, N>);

/// The addresses in a list of name servers, in order.
pub uninterp spec fn dns_servers(list: heapless::Vec<[u8; 4], 3>) -> Seq<[u8; 4]>;

/// [`heapless::Vec::new`]: an empty list.
#[verifier::external_body]
pub(crate) fn dns_list_new() -> (ret: heapless::Vec<[u8; 4], 3>)
    ensures
        dns_servers(ret) == Seq::<[u8; 4]>::empty(),
{
    heapless::Vec::new()
}

/// [`heapless::Vec::push`]: appends an item, or hands it back where the list is full.
#[verifier::external_body]
pub(crate) fn dns_list_push(list: &mut heapless::Vec<[u8; 4], 3>, ip: [u8; 4]) -> (ret: Result<
    (),
    [u8; 4],
>)
    ensures
        if dns_servers(*old(list)).len() < DHCP_MAX_DNS_SERVER_COUNT {
            ret is Ok && dns_servers(*final(list)) == dns_servers(*old(list)).push(ip)
        } else {
            ret == Err::<(), [u8; 4]>(ip) && dns_servers(*final(list)) == dns_servers(*old(list))
        },
{
    list.push(ip)
}

/// [`heapless::Vec::len`]: the number of items, which does not exceed the capacity.
#[verifier::external_body]
pub(crate) fn dns_list_len(list: &heapless::Vec<[u8; 4], 3>) -> (ret: usize)
    ensures
        ret == dns_servers(*list).len(),
        ret <= DHCP_MAX_DNS_SERVER_COUNT,
{
    list.len()
}

/// What a DHCP message says.
pub struct DhcpReplyView {
    pub message_type: u8,
    pub transaction_id: u32,
    pub secs: u16,
    pub client_hardware_address: Seq<u8>,
    pub client_ip: Seq<u8>,
    pub your_ip: Seq<u8>,
    pub server_ip: Seq<u8>,
    pub router: Option<Seq<u8>>,
    pub subnet_mask: Option<Seq<u8>>,
    pub relay_agent_ip: Seq<u8>,
    pub broadcast: bool,
    pub server_identifier: Option<Seq<u8>>,
    pub dns_servers: Option<Seq<[u8; 4]>>,
    pub lease_duration: Option<u32>,
}

/// The bytes of an optional address.
pub open spec fn octets(ip: Option<[u8; 4]>) -> Option<Seq<u8>> {
    match ip {
        Some(ip) => Some(ip@),
        None => None,
    }
}

/// The addresses of an optional list of name servers.
pub open spec fn servers_of(list: Option<heapless::Vec<[u8; 4], 3>>) -> Option<Seq<[u8; 4]>> {
    match list {
        Some(list) => Some(dns_servers(list)),
        None => None,
    }
}

/// The length of an option with `n` bytes of data, if it is there.
pub open spec fn option_len<T>(option: Option<T>, n: nat) -> nat {
    if option is Some {
        2 + n
    } else {
        0
    }
}

impl DhcpReplyView {
    /// How many bytes the message takes: its fixed part, the option with its kind, the options
    /// that it has, and the end mark.
    pub open spec fn len(self) -> nat {
        DHCP_FIXED_LEN as nat + 3 + option_len(self.server_identifier, 4) + option_len(
            self.router,
            4,
        ) + option_len(self.subnet_mask, 4) + option_len(self.lease_duration, 4) + option_len(
            self.dns_servers,
            match self.dns_servers {
                Some(list) => 4 * list.len(),
                None => 0,
            },
        ) + 1
    }
}

/// The bytes that `smoltcp` writes for a DHCP message.
pub uninterp spec fn dhcp_message(reply: DhcpReplyView) -> Seq<u8>;

/// [`DhcpRepr::emit`]: writes the message into a buffer that has exactly its length. Read again,
/// the message is the one that was written.
#[verifier::external_body]
pub(crate) fn emit_dhcp(
    mut bytes: Vec<u8>,
    message_type: u8,
    transaction_id: u32,
    secs: u16,
    client_hardware_address: [u8; 6],
    client_ip: [u8; 4],
    your_ip: [u8; 4],
    server_ip: [u8; 4],
    router: Option<[u8; 4]>,
    subnet_mask: Option<[u8; 4]>,
    relay_agent_ip: [u8; 4],
    broadcast: bool,
    server_identifier: Option<[u8; 4]>,
    dns: Option<heapless::Vec<[u8; 4], 3>>,
    lease_duration: Option<u32>,
) -> (ret: Vec<u8>)
    requires
        1 <= message_type <= 8,
        ({
            let reply = DhcpReplyView {
                message_type,
                transaction_id,
                secs,
                client_hardware_address: client_hardware_address@,
                client_ip: client_ip@,
                your_ip: your_ip@,
                server_ip: server_ip@,
                router: octets(router),
                subnet_mask: octets(subnet_mask),
                relay_agent_ip: relay_agent_ip@,
                broadcast,
                server_identifier: octets(server_identifier),
                dns_servers: servers_of(dns),
                lease_duration,
            };
            bytes@ == zero_bytes(reply.len())
        }),
    ensures
        ({
            let reply = DhcpReplyView {
                message_type,
                transaction_id,
                secs,
                client_hardware_address: client_hardware_address@,
                client_ip: client_ip@,
                your_ip: your_ip@,
                server_ip: server_ip@,
                router: octets(router),
                subnet_mask: octets(subnet_mask),
                relay_agent_ip: relay_agent_ip@,
                broadcast,
                server_identifier: octets(server_identifier),
                dns_servers: servers_of(dns),
                lease_duration,
            };
            ret@ == dhcp_message(reply) && ret@.len() == reply.len()
        }),
        ret@.subrange(16, 20) == your_ip@,
        dhcp_parsed(ret@) == Some(
            DhcpRequest {
                message_type,
                transaction_id,
                client_hardware_address,
                broadcast,
                requested_ip: None,
            },
        ),
{
    let dns_servers = dns.map(|list| list.into_iter().map(Into::into).collect());
    let repr = DhcpRepr {
        message_type: message_type.into(), transaction_id, secs,
        client_hardware_address: EthernetAddress(client_hardware_address),
        client_ip: client_ip.into(), your_ip: your_ip.into(), server_ip: server_ip.into(),
        router: router.map(Into::into), subnet_mask: subnet_mask.map(Into::into),
        relay_agent_ip: relay_agent_ip.into(), broadcast, requested_ip: None,
        client_identifier: None, server_identifier: server_identifier.map(Into::into),
        parameter_request_list: None, dns_servers, max_size: None, lease_duration,
        renew_duration: None, rebind_duration: None, additional_options: &[],
    };
    repr.emit(&mut DhcpPacket::new_unchecked(&mut bytes[..])).unwrap();
    bytes
}

/// The length of a UDP header.
pub const UDP_HEADER_LEN: usize = 8;

/// The checksum of 16-bit words that sum up to `sum`: the complement of their sum in ones'
/// complement.
pub open spec fn internet_checksum(sum: int) -> int {
    let folded = sum / 0x1_0000 + sum % 0x1_0000;
    0xffff - (folded / 0x1_0000 + folded % 0x1_0000)
}

/// The sum of the 16-bit words of a sequence of bytes, most significant byte first. An odd byte at
/// the end counts as the upper half of a word.
pub open spec fn word_sum(bytes: Seq<u8>) -> int
    decreases bytes.len(),
{
    if bytes.len() == 0 {
        0
    } else if bytes.len() == 1 {
        bytes[0] * 256
    } else {
        be16_at(bytes, 0) + word_sum(bytes.skip(2))
    }
}

/// The number of UDP among the protocols of IP.
pub const UDP_PROTOCOL: u8 = 17;

/// The header of a UDP packet: the ports, the length of the packet, and the checksum over the
/// addresses, the protocol, the length, the header and the payload. A checksum of zero would say
/// that there is none, so it is written as its other form.
pub open spec fn udp_header(
    src_port: u16,
    dst_port: u16,
    src: Seq<u8>,
    dst: Seq<u8>,
    payload: Seq<u8>,
) -> Seq<u8> {
    let len = UDP_HEADER_LEN + payload.len();
    let sum = word_sum(src) + word_sum(dst) + UDP_PROTOCOL + len + src_port + dst_port + len
        + word_sum(payload);
    let checksum = if internet_checksum(sum) == 0 {
        0xffff
    } else {
        internet_checksum(sum)
    };
    seq![
        (src_port / 256) as u8,
        (src_port % 256) as u8,
        (dst_port / 256) as u8,
        (dst_port % 256) as u8,
        (len / 256) as u8,
        (len % 256) as u8,
        (checksum / 256) as u8,
        (checksum % 256) as u8,
    ]
}

/// [`UdpRepr::emit`] on a packet whose payload is in place: fills in the header.
#[verifier::external_body]
pub(crate) fn emit_udp(
    packet: &mut Vec<u8>,
    src_port: u16,
    dst_port: u16,
    src: [u8; 4],
    dst: [u8; 4],
    payload_len: usize,
)
    requires
        old(packet)@.len() == UDP_HEADER_LEN + payload_len <= u16::MAX,
    ensures
        final(packet)@ == udp_header(
            src_port,
            dst_port,
            src@,
            dst@,
            old(packet)@.skip(UDP_HEADER_LEN as int),
        ) + old(packet)@.skip(UDP_HEADER_LEN as int),
{
    UdpRepr { src_port, dst_port }.emit(
        &mut UdpPacket::new_unchecked(&mut packet[..]),
        &WireAddress::Ipv4(src.into()),
        &WireAddress::Ipv4(dst.into()),
        payload_len,
        |_| {},
        &ChecksumCapabilities::default(),
    );
}

/// The length of an IPv4 header without options.
pub const IPV4_HEADER_LEN: usize = 20;

/// The header of an IPv4 packet that is not to be fragmented: version and length, the length of the
/// packet, the flag against fragmenting, the time to live, the protocol, the checksum over these
/// fields and the addresses, and the addresses.
pub open spec fn ipv4_header(
    src: Seq<u8>,
    dst: Seq<u8>,
    next_header: u8,
    hop_limit: u8,
    payload_len: nat,
) -> Seq<u8> {
    let len = IPV4_HEADER_LEN + payload_len;
    let checksum = internet_checksum(
        0x4500 + len + 0x4000 + (hop_limit * 256 + next_header) + be16_at(src, 0) + be16_at(src, 2)
            + be16_at(dst, 0) + be16_at(dst, 2),
    );
    seq![
        0x45u8,
        0u8,
        (len / 256) as u8,
        (len % 256) as u8,
        0u8,
        0u8,
        0x40u8,
        0u8,
        hop_limit,
        next_header,
        (checksum / 256) as u8,
        (checksum % 256) as u8,
    ] + src + dst
}

/// [`Ipv4Repr::emit`] on a packet whose payload is in place behind a header of zeroes: fills in
/// the header.
#[verifier::external_body]
pub(crate) fn emit_ipv4(
    packet: &mut Vec<u8>,
    src: [u8; 4],
    dst: [u8; 4],
    next_header: u8,
    hop_limit: u8,
    payload_len: usize,
)
    requires
        old(packet)@.len() == IPV4_HEADER_LEN + payload_len <= u16::MAX,
        old(packet)@.take(IPV4_HEADER_LEN as int) == zero_bytes(IPV4_HEADER_LEN as nat),
    ensures
        final(packet)@ == ipv4_header(
            src@,
            dst@,
            next_header,
            hop_limit,
            payload_len as nat,
        ) + old(packet)@.skip(IPV4_HEADER_LEN as int),
{
    Ipv4Repr {
        src_addr: src.into(),
        dst_addr: dst.into(),
        next_header: next_header.into(),
        payload_len,
        hop_limit,
    }.emit(&mut Ipv4Packet::new_unchecked(&mut packet[..]), &ChecksumCapabilities::default());
}

/// The length of an Ethernet header.
pub const ETHERNET_HEADER_LEN: usize = 14;

/// An Ethernet header: destination, source, and the type of what follows.
pub open spec fn ethernet_header(dst: Seq<u8>, src: Seq<u8>, ethertype: u16) -> Seq<u8> {
    dst + src + seq![(ethertype / 256) as u8, (ethertype % 256) as u8]
}

/// [`EthernetRepr::emit`] on a frame whose payload is in place: fills in the header.
#[verifier::external_body]
pub(crate) fn emit_ethernet(frame: &mut Vec<u8>, dst: [u8; 6], src: [u8; 6], ethertype: u16)
    requires
        ETHERNET_HEADER_LEN <= old(frame)@.len(),
    ensures
        final(frame)@ == ethernet_header(dst@, src@, ethertype) + old(frame)@.skip(
            ETHERNET_HEADER_LEN as int,
        ),
{
    EthernetRepr {
        src_addr: EthernetAddress(src),
        dst_addr: EthernetAddress(dst),
        ethertype: ethertype.into(),
    }.emit(&mut EthernetFrame::new_unchecked(&mut frame[..]));
}

/// A checksum fits 16 bits, and makes words that carry it verify: their sum with it is a multiple
/// of 0xffff, which is zero in ones' complement.
pub proof fn checksum_makes_words_verify(sum: int)
    requires
        0 <= sum < 0x1_0000_0000,
    ensures
        0 <= internet_checksum(sum) <= 0xffff,
        (sum + internet_checksum(sum)) % 0xffff == 0,
{
    let high = sum / 0x1_0000;
    let low = sum % 0x1_0000;
    let folded = high + low;
    let carry = folded / 0x1_0000;
    let rest = folded % 0x1_0000;
    assert(sum == 0xffff * high + folded);
    assert(folded == 0xffff * carry + (carry + rest));
    assert(carry <= 1);
    assert(sum + internet_checksum(sum) == 0xffff * (high + carry + 1));
    assert((0xffff * (high + carry + 1)) % 0xffff == 0) by (nonlinear_arith);
}

/// The header of an IPv4 packet verifies: its ten words, the checksum among them, add up to zero in
/// ones' complement. It has the addresses at its end, and tells the length of the packet.
pub proof fn ipv4_header_verifies(
    src: Seq<u8>,
    dst: Seq<u8>,
    next_header: u8,
    hop_limit: u8,
    payload_len: nat,
)
    requires
        src.len() == 4,
        dst.len() == 4,
        IPV4_HEADER_LEN + payload_len <= u16::MAX,
    ensures
        ({
            let h = ipv4_header(src, dst, next_header, hop_limit, payload_len);
            &&& h.len() == 20
            &&& be16_at(h, 2) == 20 + payload_len
            &&& h[8] == hop_limit && h[9] == next_header
            &&& h.subrange(12, 16) == src && h.subrange(16, 20) == dst
            &&& (be16_at(h, 0) + be16_at(h, 2) + be16_at(h, 4) + be16_at(h, 6) + be16_at(h, 8)
                + be16_at(h, 10) + be16_at(h, 12) + be16_at(h, 14) + be16_at(h, 16) + be16_at(
                h,
                18,
            )) % 0xffff == 0
        }),
{
    let h = ipv4_header(src, dst, next_header, hop_limit, payload_len);
    let len = IPV4_HEADER_LEN + payload_len;
    let sum = 0x4500 + len + 0x4000 + (hop_limit * 256 + next_header) + be16_at(src, 0) + be16_at(
        src,
        2,
    ) + be16_at(dst, 0) + be16_at(dst, 2);
    checksum_makes_words_verify(sum);
    assert(h.subrange(12, 16) =~= src);
    assert(h.subrange(16, 20) =~= dst);
    assert(be16_at(h, 10) == internet_checksum(sum));
    assert(be16_at(h, 12) == be16_at(src, 0) && be16_at(h, 14) == be16_at(src, 2));
    assert(be16_at(h, 16) == be16_at(dst, 0) && be16_at(h, 18) == be16_at(dst, 2));
}

} // verus!
