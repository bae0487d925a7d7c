//! The DHCP server of a user-mode network: it leases one address to one client.

use crate::bytes::{zero_bytes, zeroes};
use crate::rss::be16_at;
use crate::wire::{dhcp_message, dhcp_parsed, ethernet_header, ipv4_header, udp_header};
use crate::wire::{dns_list_len, dns_list_new, dns_list_push, dns_servers};
use crate::wire::{emit_dhcp, emit_ethernet, emit_ipv4, emit_udp, parse_dhcp};
use crate::wire::{DhcpReplyView, DhcpRequest, DHCP_FIXED_LEN, DHCP_MAX_DNS_SERVER_COUNT};
use crate::wire::{ETHERNET_HEADER_LEN, IPV4_HEADER_LEN, UDP_HEADER_LEN};
use vstd::prelude::*;

verus! {

pub const DHCP_SERVER: u16 = 67;

pub const DHCP_CLIENT: u16 = 68;

pub const DHCP_DISCOVER: u8 = 1;

pub const DHCP_OFFER: u8 = 2;

pub const DHCP_REQUEST: u8 = 3;

pub const DHCP_ACK: u8 = 5;

pub const DHCP_NAK: u8 = 6;

/// How long an address is leased, in seconds.
pub const LEASE_DURATION: u32 = 86400;

/// How many bytes of a reply's frame come before the message.
pub const DHCP_FRAME_HEADERS: usize = 42;

/// The time to live of a reply.
pub const HOP_LIMIT: u8 = 64;

pub const IPPROTO_UDP: u8 = 17;

pub const ETHERTYPE_IPV4: u16 = 0x0800;

/// An address of either version.
#[derive(Clone, Copy)]
pub enum IpAddress {
    Ipv4([u8; 4]),
    Ipv6([u8; 16]),
}

/// The network that is served.
pub struct ConsommeParams {
    pub gateway_ip: [u8; 4],
    pub gateway_mac: [u8; 6],
    pub client_ip: [u8; 4],
    pub net_mask: [u8; 4],
    pub nameservers: Vec<IpAddress>,
}

/// Why a packet was dropped.
#[derive(Clone, Copy, Debug, PartialEq, Eq, Structural)]
pub enum DropReason {
    /// The packet is malformed.
    Packet,
    /// The server does not answer messages of this kind.
    UnsupportedDhcp(u8),
}

/// The checksums of a frame that are known to be right.
#[derive(Clone, Copy, Debug, PartialEq, Eq, Structural)]
pub struct ChecksumState {
    pub ipv4: bool,
    pub udp: bool,
    pub tcp: bool,
}

/// What to answer, and to whom.
pub struct ReplyPlan {
    pub message_type: u8,
    pub transaction_id: u32,
    pub client_hardware_address: [u8; 6],
    pub your_ip: [u8; 4],
    pub broadcast: bool,
    /// Whether the reply grants an address; a refusal carries no options.
    pub granted: bool,
    pub eth_dst: [u8; 6],
    pub ip_dst: [u8; 4],
}

/// What is answered, and to whom.
pub struct PlanView {
    pub message_type: u8,
    pub transaction_id: u32,
    pub client_hardware_address: Seq<u8>,
    pub your_ip: Seq<u8>,
    pub broadcast: bool,
    pub granted: bool,
    pub eth_dst: Seq<u8>,
    pub ip_dst: Seq<u8>,
}

impl View for ReplyPlan {
    type V = PlanView;

    open spec fn view(&self) -> PlanView {
        PlanView {
            message_type: self.message_type,
            transaction_id: self.transaction_id,
            client_hardware_address: self.client_hardware_address@,
            your_ip: self.your_ip@,
            broadcast: self.broadcast,
            granted: self.granted,
            eth_dst: self.eth_dst@,
            ip_dst: self.ip_dst@,
        }
    }
}

/// The broadcast address of the link.
pub open spec fn eth_broadcast() -> Seq<u8> {
    seq![0xffu8, 0xff, 0xff, 0xff, 0xff, 0xff]
}

/// The broadcast address of the network.
pub open spec fn ip_broadcast() -> Seq<u8> {
    seq![0xffu8, 0xff, 0xff, 0xff]
}

/// No address.
pub open spec fn ip_unspecified() -> Seq<u8> {
    seq![0u8, 0, 0, 0]
}

/// Whether a request is granted the client's address: a client may ask for that address or for
/// none in particular.
pub open spec fn grants(client_ip: Seq<u8>, req: DhcpRequest) -> bool {
    req.message_type == DHCP_DISCOVER || match req.requested_ip {
        Some(ip) => ip@ == client_ip,
        None => true,
    }
}

/// The answer to a request. A reply echoes the request's broadcast flag. It goes to the client's
/// own addresses at both layers where it grants an address and the flag is clear, and is broadcast
/// at both layers otherwise, since the client cannot receive unicast yet.
pub open spec fn plan_of(client_ip: Seq<u8>, req: DhcpRequest) -> Result<PlanView, DropReason> {
    if req.message_type != DHCP_DISCOVER && req.message_type != DHCP_REQUEST {
        Err(DropReason::UnsupportedDhcp(req.message_type))
    } else {
        let granted = grants(client_ip, req);
        let unicast = granted && !req.broadcast;
        Ok(
            PlanView {
                message_type: if !granted {
                    DHCP_NAK
                } else if req.message_type == DHCP_DISCOVER {
                    DHCP_OFFER
                } else {
                    DHCP_ACK
                },
                transaction_id: req.transaction_id,
                client_hardware_address: req.client_hardware_address@,
                your_ip: if granted {
                    client_ip
                } else {
                    ip_broadcast()
                },
                broadcast: req.broadcast,
                granted,
                eth_dst: if unicast {
                    req.client_hardware_address@
                } else {
                    eth_broadcast()
                },
                ip_dst: if unicast {
                    client_ip
                } else {
                    ip_broadcast()
                },
            },
        )
    }
}

/// The IPv4 addresses of a list.
pub open spec fn ipv4_only(list: Seq<IpAddress>) -> Seq<[u8; 4]>
    decreases list.len(),
{
    if list.len() == 0 {
        Seq::empty()
    } else {
        let before = ipv4_only(list.drop_last());
        match list.last() {
            IpAddress::Ipv4(ip) => before.push(ip),
            IpAddress::Ipv6(_) => before,
        }
    }
}

/// The name servers that a reply lists: the first three with an IPv4 address.
pub open spec fn listed_servers(list: Seq<IpAddress>) -> Seq<[u8; 4]> {
    let all = ipv4_only(list);
    if all.len() <= DHCP_MAX_DNS_SERVER_COUNT {
        all
    } else {
        all.take(DHCP_MAX_DNS_SERVER_COUNT as int)
    }
}

/// The message of a planned reply.
pub open spec fn message_of(params: ConsommeParams, plan: PlanView) -> DhcpReplyView {
    let gateway = if plan.granted {
        Some(params.gateway_ip@)
    } else {
        None
    };
    DhcpReplyView {
        message_type: plan.message_type,
        transaction_id: plan.transaction_id,
        secs: 0,
        client_hardware_address: plan.client_hardware_address,
        client_ip: ip_unspecified(),
        your_ip: plan.your_ip,
        server_ip: params.gateway_ip@,
        router: gateway,
        subnet_mask: if plan.granted {
            Some(params.net_mask@)
        } else {
            None
        },
        relay_agent_ip: ip_unspecified(),
        broadcast: plan.broadcast,
        server_identifier: gateway,
        dns_servers: if plan.granted {
            Some(listed_servers(params.nameservers@))
        } else {
            None
        },
        lease_duration: if plan.granted {
            Some(LEASE_DURATION)
        } else {
            None
        },
    }
}

/// The frame of a planned reply: the message in a UDP packet from the server's to the client's
/// port, in an IPv4 packet from the gateway, in an Ethernet frame.
pub open spec fn frame_of(params: ConsommeParams, plan: PlanView) -> Seq<u8> {
    let message = dhcp_message(message_of(params, plan));
    let udp = udp_header(DHCP_SERVER, DHCP_CLIENT, params.gateway_ip@, plan.ip_dst, message)
        + message;
    let ip = ipv4_header(params.gateway_ip@, plan.ip_dst, IPPROTO_UDP, HOP_LIMIT, udp.len()) + udp;
    ethernet_header(plan.eth_dst, params.gateway_mac@, ETHERTYPE_IPV4) + ip
}

fn same_address(a: [u8; 4], b: [u8; 4]) -> (ret: bool)
    ensures
        ret == (a@ == b@),
{
    let ret = a[0] == b[0] && a[1] == b[1] && a[2] == b[2] && a[3] == b[3];
    proof {
        if ret {
            assert(a@ =~= b@);
        } else {
            assert(a@[0] != b@[0] || a@[1] != b@[1] || a@[2] != b@[2] || a@[3] != b@[3]);
        }
    }
    ret
}

/// Decides on the answer to a request.
pub fn plan_reply(params: &ConsommeParams, req: &DhcpRequest) -> (ret: Result<
    ReplyPlan,
    DropReason,
>)
    ensures
        match ret {
            Ok(plan) => plan_of(params.client_ip@, *req) == Ok::<PlanView, DropReason>(plan@),
            Err(err) => plan_of(params.client_ip@, *req) == Err::<PlanView, DropReason>(err),
        },
{
    let eth_all: [u8; 6] = [0xff, 0xff, 0xff, 0xff, 0xff, 0xff];
    let ip_all: [u8; 4] = [0xff, 0xff, 0xff, 0xff];
    assert(eth_all@ =~= eth_broadcast());
    assert(ip_all@ =~= ip_broadcast());
    let (granted, message_type) = if req.message_type == DHCP_DISCOVER {
        (true, DHCP_OFFER)
    } else if req.message_type == DHCP_REQUEST {
        match req.requested_ip {
            Some(ip) => if same_address(ip, params.client_ip) {
                (true, DHCP_ACK)
            } else {
                (false, DHCP_NAK)
            },
            None => (true, DHCP_ACK),
        }
    } else {
        return Err(DropReason::UnsupportedDhcp(req.message_type));
    };
    let your_ip: [u8; 4] = if granted {
        params.client_ip
    } else {
        ip_all
    };
    let unicast = granted && !req.broadcast;
    Ok(
        ReplyPlan {
            message_type,
            transaction_id: req.transaction_id,
            client_hardware_address: req.client_hardware_address,
            your_ip,
            broadcast: req.broadcast,
            granted,
            eth_dst: if unicast {
                req.client_hardware_address
            } else {
                eth_all
            },
            ip_dst: if unicast {
                your_ip
            } else {
                ip_all
            },
        },
    )
}

/// The name servers that a reply lists.
fn list_servers(nameservers: &Vec<IpAddress>) -> (ret: heapless::Vec<[u8; 4], 3>)
    ensures
        dns_servers(ret) == listed_servers(nameservers@),
{
    let mut list = dns_list_new();
    let mut i: usize = 0;
    assert(nameservers@.take(0) =~= Seq::<IpAddress>::empty());
    while i < nameservers.len()
        invariant
            i <= nameservers@.len(),
            dns_servers(list) == listed_servers(nameservers@.take(i as int)),
        decreases nameservers@.len() - i,
    {
        let ghost before = nameservers@.take(i as int);
        let ghost next = nameservers@.take(i + 1);
        assert(next.drop_last() =~= before);
        if let IpAddress::Ipv4(ip) = nameservers[i] {
            let ghost all = ipv4_only(before);
            let full = dns_list_push(&mut list, ip);
            proof {
                if all.len() < DHCP_MAX_DNS_SERVER_COUNT {
                    assert(dns_servers(list) =~= all.push(ip));
                } else {
                    assert(all.push(ip).take(3) =~= all.take(3));
                    if all.len() == 3 {
                        assert(all.take(3) =~= all);
                    }
                }
            }
        }
        i = i + 1;
    }
    assert(nameservers@.take(i as int) =~= nameservers@);
    list
}

/// Puts room for a header in front of a packet.
fn with_header_room(payload: &Vec<u8>, header: usize) -> (ret: Vec<u8>)
    requires
        header + payload@.len() <= usize::MAX,
    ensures
        ret@.len() == header + payload@.len(),
        ret@.take(header as int) == zero_bytes(header as nat),
        ret@.skip(header as int) == payload@,
{
    let mut packet = zeroes(header);
    let mut i: usize = 0;
    while i < payload.len()
        invariant
            i <= payload@.len(),
            packet@ =~= zero_bytes(header as nat) + payload@.take(i as int),
        decreases payload@.len() - i,
    {
        packet.push(payload[i]);
        i = i + 1;
    }
    assert(packet@.take(header as int) =~= zero_bytes(header as nat));
    assert(packet@.skip(header as int) =~= payload@);
    packet
}

/// Writes a planned reply.
fn write_message(params: &ConsommeParams, plan: &ReplyPlan) -> (ret: Vec<u8>)
    requires
        1 <= plan@.message_type <= 8,
    ensures
        ret@ == dhcp_message(message_of(*params, plan@)),
        ret@.len() == message_of(*params, plan@).len(),
        DHCP_FIXED_LEN <= ret@.len() <= 300,
        ret@.subrange(16, 20) == plan@.your_ip,
        dhcp_parsed(ret@) matches Some(read) && {
            &&& read.message_type == plan@.message_type
            &&& read.transaction_id == plan@.transaction_id
            &&& read.client_hardware_address@ == plan@.client_hardware_address
            &&& read.broadcast == plan@.broadcast
        },
{
    let gateway: Option<[u8; 4]> = if plan.granted {
        Some(params.gateway_ip)
    } else {
        None
    };
    let net_mask: Option<[u8; 4]> = if plan.granted {
        Some(params.net_mask)
    } else {
        None
    };
    let lease_duration: Option<u32> = if plan.granted {
        Some(LEASE_DURATION)
    } else {
        None
    };
    let unspecified: [u8; 4] = [0, 0, 0, 0];
    assert(unspecified@ =~= ip_unspecified());
    let servers = list_servers(&params.nameservers);
    let count: usize = dns_list_len(&servers);
    let (dns, len): (Option<heapless::Vec<[u8; 4], 3>>, usize) = if plan.granted {
        (Some(servers), DHCP_FIXED_LEN + 3 + 6 + 6 + 6 + 6 + 2 + 4 * count + 1)
    } else {
        (None, DHCP_FIXED_LEN + 3 + 1)
    };
    emit_dhcp(
        zeroes(len),
        plan.message_type,
        plan.transaction_id,
        0,
        plan.client_hardware_address,
        unspecified,
        plan.your_ip,
        params.gateway_ip,
        gateway,
        net_mask,
        unspecified,
        plan.broadcast,
        gateway,
        dns,
        lease_duration,
    )
}

/// Answers a DHCP message: the frame that goes to the client, with its IPv4 and UDP checksums
/// marked as verified, as for every other UDP packet.
pub fn handle_dhcp(params: &ConsommeParams, payload: &[u8]) -> (ret: Result<
    (Vec<u8>, ChecksumState),
    DropReason,
>)
    ensures
        match ret {
            Err(err) => match dhcp_parsed(payload@) {
                None => err == DropReason::Packet,
                Some(req) => plan_of(params.client_ip@, req) == Err::<PlanView, DropReason>(err),
            },
            Ok((frame, checksum)) => {
                &&& dhcp_parsed(payload@) matches Some(req) && plan_of(
                    params.client_ip@,
                    req,
                ) matches Ok(plan) && {
                    &&& frame@ == frame_of(*params, plan)
                    &&& frame@.len() == DHCP_FRAME_HEADERS + message_of(*params, plan).len()
                    &&& frame@.subrange(0, 6) == plan.eth_dst
                    &&& frame@.subrange(26, 30) == params.gateway_ip@
                    &&& frame@.subrange(30, 34) == plan.ip_dst
                    &&& be16_at(frame@, 34) == DHCP_SERVER
                    &&& be16_at(frame@, 36) == DHCP_CLIENT
                    &&& frame@.subrange(58, 62) == plan.your_ip
                    &&& dhcp_parsed(frame@.skip(42)) matches Some(read) && {
                        &&& read.message_type == plan.message_type
                        &&& read.transaction_id == req.transaction_id
                        &&& read.client_hardware_address@ == req.client_hardware_address@
                        &&& read.broadcast == req.broadcast
                    }
                }
                &&& checksum == (ChecksumState { ipv4: true, udp: true, tcp: false })
            },
        },
{
    let req = match parse_dhcp(payload) {
        Some(req) => req,
        None => {
            return Err(DropReason::Packet);
        },
    };
    let plan = match plan_reply(params, &req) {
        Ok(plan) => plan,
        Err(err) => {
            return Err(err);
        },
    };
    let message = write_message(params, &plan);
    let mut udp = with_header_room(&message, UDP_HEADER_LEN);
    emit_udp(
        &mut udp,
        DHCP_SERVER,
        DHCP_CLIENT,
        params.gateway_ip,
        plan.ip_dst,
        message.len(),
    );
    let mut ip = with_header_room(&udp, IPV4_HEADER_LEN);
    emit_ipv4(&mut ip, params.gateway_ip, plan.ip_dst, IPPROTO_UDP, HOP_LIMIT, udp.len());
    let mut frame = with_header_room(&ip, ETHERNET_HEADER_LEN);
    emit_ethernet(&mut frame, plan.eth_dst, params.gateway_mac, ETHERTYPE_IPV4);
    proof {
        assert(frame@.subrange(0, 6) =~= plan@.eth_dst);
        assert(frame@.skip(14) =~= ip@);
        assert(frame@.subrange(26, 30) =~= params.gateway_ip@);
        assert(frame@.subrange(30, 34) =~= plan@.ip_dst);
        assert(frame@.subrange(58, 62) =~= message@.subrange(16, 20));
        assert(frame@.skip(42) =~= ip@.skip(20).skip(8));
        assert(ip@.skip(20) =~= udp@);
        assert(udp@.skip(8) =~= message@);
    }
    Ok((frame, ChecksumState { ipv4: true, udp: true, tcp: false }))
}

/// The destinations of a reply agree at both layers: it goes to the client's own address and the
/// address that it grants, or it is broadcast at both. A broadcast is what a client gets that asks
/// for one, and one that is refused.
pub proof fn reply_destinations_agree(client_ip: Seq<u8>, req: DhcpRequest)
    requires
        plan_of(client_ip, req) is Ok,
    ensures
        ({
            let plan = plan_of(client_ip, req)->Ok_0;
            if plan.granted && !req.broadcast {
                plan.eth_dst == req.client_hardware_address@ && plan.ip_dst == plan.your_ip
            } else {
                plan.eth_dst == eth_broadcast() && plan.ip_dst == ip_broadcast()
            }
        }),
{
}

/// A reply echoes the transaction, the client and the broadcast flag of the request.
pub proof fn reply_echoes_the_request(client_ip: Seq<u8>, req: DhcpRequest)
    requires
        plan_of(client_ip, req) is Ok,
    ensures
        ({
            let plan = plan_of(client_ip, req)->Ok_0;
            &&& plan.broadcast == req.broadcast
            &&& plan.transaction_id == req.transaction_id
            &&& plan.client_hardware_address == req.client_hardware_address@
        }),
{
}

/// The only address that is ever granted is the client's, and a request for another one is
/// refused, without options.
pub proof fn only_the_clients_address_is_granted(params: ConsommeParams, req: DhcpRequest)
    requires
        plan_of(params.client_ip@, req) is Ok,
    ensures
        ({
            let plan = plan_of(params.client_ip@, req)->Ok_0;
            let message = message_of(params, plan);
            if plan.granted {
                &&& plan.your_ip == params.client_ip@
                &&& plan.message_type == DHCP_OFFER || plan.message_type == DHCP_ACK
                &&& message.lease_duration == Some(LEASE_DURATION)
            } else {
                &&& req.message_type == DHCP_REQUEST
                &&& req.requested_ip is Some && req.requested_ip->0@ != params.client_ip@
                &&& plan.message_type == DHCP_NAK
                &&& message.router is None && message.subnet_mask is None
                &&& message.server_identifier is None && message.dns_servers is None
                &&& message.lease_duration is None
            }
        }),
{
}

/// A reply lists at most three name servers, which are the first ones that have IPv4 addresses.
pub proof fn first_three_ipv4_servers_are_listed(list: Seq<IpAddress>)
    ensures
        listed_servers(list).len() <= DHCP_MAX_DNS_SERVER_COUNT,
        listed_servers(list).is_prefix_of(ipv4_only(list)),
        listed_servers(list).len() < DHCP_MAX_DNS_SERVER_COUNT ==> listed_servers(list)
            == ipv4_only(list),
{
    let all = ipv4_only(list);
    assert(all.take(all.len() as int) =~= all);
}

/// What is answered to what: an offer to a discovery; to a request, a grant where it asks for the
/// client's address or for none in particular, and a refusal otherwise; and nothing to a message
/// of any other kind, which is dropped for its kind.
pub proof fn answers_fit_their_requests(client_ip: Seq<u8>, req: DhcpRequest)
    ensures
        ({
            let plan = plan_of(client_ip, req);
            let asks_elsewhere = req.requested_ip is Some && req.requested_ip->0@ != client_ip;
            &&& req.message_type == 1 ==> (plan matches Ok(reply) && reply.message_type == 2
                && reply.granted && reply.your_ip == client_ip)
            &&& req.message_type == 3 && !asks_elsewhere ==> (plan matches Ok(reply)
                && reply.message_type == 5 && reply.granted && reply.your_ip == client_ip)
            &&& req.message_type == 3 && asks_elsewhere ==> (plan matches Ok(reply)
                && reply.message_type == 6 && !reply.granted && reply.your_ip == seq![
                255u8,
                255,
                255,
                255,
            ])
            &&& req.message_type != 1 && req.message_type != 3 ==> plan == Err::<
                PlanView,
                DropReason,
            >(DropReason::UnsupportedDhcp(req.message_type))
        }),
{
}

/// Where an answer goes: to the client's own address and the address granted, where it grants one
/// and the client did not ask for a broadcast, and to everyone otherwise; at both layers alike.
pub proof fn answers_go_to_the_client_or_to_everyone(client_ip: Seq<u8>, req: DhcpRequest)
    requires
        req.message_type == 1 || req.message_type == 3,
    ensures
        plan_of(client_ip, req) matches Ok(reply) && {
            &&& reply.granted && !req.broadcast ==> reply.eth_dst == req.client_hardware_address@
                && reply.ip_dst == client_ip
            &&& !reply.granted || req.broadcast ==> reply.eth_dst == seq![
                255u8,
                255,
                255,
                255,
                255,
                255,
            ] && reply.ip_dst == seq![255u8, 255, 255, 255]
            &&& reply.transaction_id == req.transaction_id
            &&& reply.client_hardware_address == req.client_hardware_address@
            &&& reply.broadcast == req.broadcast
        },
{
}

/// Every granting reply, an offer and a grant alike, names the gateway as the router and as the
/// server, carries the network's mask, lists the name servers, and leases the address for a day.
/// A refusal carries none of these. Both come from the gateway, and echo the request.
pub proof fn granting_replies_describe_the_network(params: ConsommeParams, req: DhcpRequest)
    requires
        req.message_type == 1 || req.message_type == 3,
    ensures
        plan_of(params.client_ip@, req) matches Ok(plan) && {
            let message = message_of(params, plan);
            let refused = req.message_type == 3 && req.requested_ip is Some
                && req.requested_ip->0@ != params.client_ip@;
            &&& !refused ==> {
                &&& message.message_type == if req.message_type == 1 {
                    2int
                } else {
                    5
                }
                &&& message.your_ip == params.client_ip@
                &&& message.router == Some(params.gateway_ip@)
                &&& message.server_identifier == Some(params.gateway_ip@)
                &&& message.subnet_mask == Some(params.net_mask@)
                &&& message.dns_servers == Some(listed_servers(params.nameservers@))
                &&& message.lease_duration == Some(86400u32)
            }
            &&& refused ==> {
                &&& message.message_type == 6
                &&& message.your_ip == seq![255u8, 255, 255, 255]
                &&& message.router is None
                &&& message.server_identifier is None
                &&& message.subnet_mask is None
                &&& message.dns_servers is None
                &&& message.lease_duration is None
            }
            &&& message.server_ip == params.gateway_ip@
            &&& message.transaction_id == req.transaction_id
            &&& message.client_hardware_address == req.client_hardware_address@
            &&& message.broadcast == req.broadcast
            &&& message.secs == 0
            &&& message.client_ip == seq![0u8, 0, 0, 0]
            &&& message.relay_agent_ip == seq![0u8, 0, 0, 0]
        },
{
}

/// The frame of a reply, byte by byte: from the gateway to the reply's destinations at both
/// layers, UDP over IPv4 from the server's to the client's port, with the message behind 42 bytes
/// of headers.
pub proof fn reply_frame_is_addressed(params: ConsommeParams, plan: PlanView)
    requires
        plan.eth_dst.len() == 6,
        plan.ip_dst.len() == 4,
    ensures
        ({
            let frame = frame_of(params, plan);
            &&& frame.len() >= 42
            &&& frame.subrange(0, 6) == plan.eth_dst
            &&& frame.subrange(6, 12) == params.gateway_mac@
            &&& frame[12] == 0x08 && frame[13] == 0x00
            &&& frame[14] == 0x45
            &&& frame[22] == 64
            &&& frame[23] == 17
            &&& frame.subrange(26, 30) == params.gateway_ip@
            &&& frame.subrange(30, 34) == plan.ip_dst
            &&& frame[34] == 0 && frame[35] == 67 && frame[36] == 0 && frame[37] == 68
            &&& frame.skip(42) == dhcp_message(message_of(params, plan))
        }),
{
    let frame = frame_of(params, plan);
    assert(frame.subrange(0, 6) =~= plan.eth_dst);
    assert(frame.subrange(6, 12) =~= params.gateway_mac@);
    assert(frame.subrange(26, 30) =~= params.gateway_ip@);
    assert(frame.subrange(30, 34) =~= plan.ip_dst);
    assert(frame.skip(42) =~= dhcp_message(message_of(params, plan)));
}

/// The name servers that count are those with an IPv4 address: a list has those of its two halves,
/// one after the other, and an address of its own where it is of that version.
pub proof fn servers_are_the_ipv4_addresses(
    a: Seq<IpAddress>,
    b: Seq<IpAddress>,
    ip: [u8; 4],
    other: [u8; 16],
)
    ensures
        ipv4_only(seq![IpAddress::Ipv4(ip)]) == seq![ip],
        ipv4_only(seq![IpAddress::Ipv6(other)]) == Seq::<[u8; 4]>::empty(),
        ipv4_only(a + b) == ipv4_only(a) + ipv4_only(b),
    decreases b.len(),
{
    reveal_with_fuel(ipv4_only, 2);
    assert(seq![IpAddress::Ipv4(ip)].drop_last() =~= Seq::<IpAddress>::empty());
    assert(seq![IpAddress::Ipv6(other)].drop_last() =~= Seq::<IpAddress>::empty());
    assert(ipv4_only(seq![IpAddress::Ipv4(ip)]) =~= seq![ip]);
    if b.len() == 0 {
        assert(a + b =~= a);
        assert(ipv4_only(a) + ipv4_only(b) =~= ipv4_only(a));
    } else {
        servers_are_the_ipv4_addresses(a, b.drop_last(), ip, other);
        assert((a + b).drop_last() =~= a + b.drop_last());
        assert((a + b).last() == b.last());
        assert(ipv4_only(a + b) =~= ipv4_only(a) + ipv4_only(b));
    }
}

} // verus!
