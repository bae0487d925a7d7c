//! What the description of a frame says, in terms of the frame's bytes.

use crate::describe::{description, dhcp_label, dhcp_text, ipv4_text, ipv6_groups, letter};
use crate::describe::{ndp_text, proto_text, tcp_flags_text};
use crate::rss::be16_at;
use crate::text::{dec, hex, hex4};
use crate::wire::{dhcp_parsed, DhcpRequest};
use vstd::prelude::*;

verus! {

/// A frame that is too short for an Ethernet header is told by its length, and one of a type that
/// is not known by its type and its length.
pub proof fn other_frames_are_told_by_type_and_length(data: Seq<u8>)
    ensures
        data.len() < 14 ==> description(data) == "runt len="@ + dec(data.len()),
        data.len() >= 14 && be16_at(data, 12) != 0x0806 && be16_at(data, 12) != 0x0800 && be16_at(
            data,
            12,
        ) != 0x86dd ==> description(data) == "ethertype=0x"@ + hex4(be16_at(data, 12) as nat)
            + " len="@ + dec(data.len()),
{
}

/// An ARP frame is told by its operation, and, where it asks or answers, by the addresses asked
/// for and asking.
pub proof fn arp_frames_are_told_by_their_addresses(data: Seq<u8>)
    requires
        data.len() >= 14,
        data[12] == 0x08 && data[13] == 0x06,
    ensures
        data.len() < 42 ==> description(data) == "ARP (short)"@,
        data.len() >= 42 && be16_at(data, 20) == 1 ==> description(data) == "ARP "@ + "who-has"@
            + " tpa="@ + ipv4_text(data, 38) + " spa="@ + ipv4_text(data, 28),
        data.len() >= 42 && be16_at(data, 20) == 2 ==> description(data) == "ARP "@ + "is-at"@
            + " tpa="@ + ipv4_text(data, 38) + " spa="@ + ipv4_text(data, 28),
        data.len() >= 42 && be16_at(data, 20) != 1 && be16_at(data, 20) != 2 ==> description(data)
            == "ARP op="@ + dec(be16_at(data, 20) as nat),
{
    let p = data.skip(14);
    if data.len() >= 42 {
        assert(be16_at(p, 6) == be16_at(data, 20));
        assert(ipv4_text(p, 24) == ipv4_text(data, 38));
        assert(ipv4_text(p, 14) == ipv4_text(data, 28));
    }
}

/// An address is told as its four numbers, in order, with dots between them.
pub proof fn ipv4_address_is_told_in_order(b: Seq<u8>, off: int)
    ensures
        ipv4_text(b, off) == dec(b[off] as nat) + "."@ + dec(b[off + 1] as nat) + "."@ + dec(
            b[off + 2] as nat,
        ) + "."@ + dec(b[off + 3] as nat),
{
}

/// An IPv6 address is told as its eight groups, in order, with colons between them.
pub proof fn ipv6_address_is_told_in_order(b: Seq<u8>, off: int)
    ensures
        ipv6_groups(b, off, 8) == hex(be16_at(b, off) as nat) + ":"@ + hex(
            be16_at(b, off + 2) as nat,
        ) + ":"@ + hex(be16_at(b, off + 4) as nat) + ":"@ + hex(be16_at(b, off + 6) as nat) + ":"@
            + hex(be16_at(b, off + 8) as nat) + ":"@ + hex(be16_at(b, off + 10) as nat) + ":"@
            + hex(be16_at(b, off + 12) as nat) + ":"@ + hex(be16_at(b, off + 14) as nat),
{
    reveal_with_fuel(ipv6_groups, 9);
}

/// How an IPv4 frame is told: by the name of its protocol, its source and its destination, and
/// then, behind the header with its options, by the ports of a UDP or TCP packet, with the label
/// of a DHCP message or the flags, by the kind of an ICMP message, or not at all. A frame without
/// a whole header is told by its length.
pub proof fn ipv4_frames_are_told_by_their_headers(data: Seq<u8>)
    requires
        data.len() >= 14,
        data[12] == 0x08 && data[13] == 0x00,
    ensures
        ({
            let whole = data.len() >= 34 && data[14] / 16 == 4;
            let proto = data[23];
            let l4 = 14 + 4 * (data[14] % 16);
            let behind = data.len() - l4;
            let head = "IPv4 "@ + proto_text(proto) + " "@ + ipv4_text(data, 26) + "->"@
                + ipv4_text(data, 30);
            let ports = " "@ + dec(be16_at(data, l4) as nat) + "->"@ + dec(
                be16_at(data, l4 + 2) as nat,
            );
            &&& !whole ==> description(data) == "IPv4 (short) len="@ + dec(data.len())
            &&& whole && l4 < 34 ==> description(data) == head + Seq::<char>::empty()
            &&& whole && l4 >= 34 && proto == 17 && behind >= 8 ==> description(data) == head + (
            ports + dhcp_label(
                be16_at(data, l4),
                be16_at(data, l4 + 2),
                dhcp_parsed(data.skip(l4 + 8)),
            ))
            &&& whole && l4 >= 34 && proto == 6 && behind >= 20 ==> description(data) == head + (
            ports + " ["@ + tcp_flags_text(data[l4 + 13]) + "]"@)
            &&& whole && l4 >= 34 && proto == 1 && behind >= 1 ==> description(data) == head + (
            " type="@ + dec(data[l4] as nat))
        }),
{
    let p = data.skip(14);
    if data.len() >= 34 {
        assert(ipv4_text(p, 12) == ipv4_text(data, 26));
        assert(ipv4_text(p, 16) == ipv4_text(data, 30));
        let ihl = 4 * (data[14] % 16);
        let l4 = 14 + ihl;
        if l4 <= data.len() {
            let rest = p.skip(ihl);
            assert(rest =~= data.skip(l4));
            if data.len() - l4 >= 8 {
                assert(rest.skip(8) =~= data.skip(l4 + 8));
            }
        }
    }
}

/// How an IPv6 frame is told: like an IPv4 frame, from what follows the fixed header.
pub proof fn ipv6_frames_are_told_by_their_headers(data: Seq<u8>)
    requires
        data.len() >= 14,
        data[12] == 0x86 && data[13] == 0xdd,
    ensures
        ({
            let whole = data.len() >= 54 && data[14] / 16 == 6;
            let proto = data[20];
            let head = "IPv6 "@ + proto_text(proto) + " "@ + ipv6_groups(data.skip(14), 8, 8)
                + "->"@ + ipv6_groups(data.skip(14), 24, 8);
            let ports = " "@ + dec(be16_at(data, 54) as nat) + "->"@ + dec(be16_at(data, 56) as nat);
            &&& !whole ==> description(data) == "IPv6 (short) len="@ + dec(data.len())
            &&& whole && proto == 17 && data.len() >= 62 ==> description(data) == head + (ports
                + dhcp_label(be16_at(data, 54), be16_at(data, 56), dhcp_parsed(data.skip(62))))
            &&& whole && proto == 6 && data.len() >= 74 ==> description(data) == head + (ports
                + " ["@ + tcp_flags_text(data[67]) + "]"@)
            &&& whole && proto == 58 && data.len() >= 55 ==> description(data) == head + (" "@
                + ndp_text(data[54]))
        }),
{
    let p = data.skip(14);
    if data.len() >= 54 {
        let rest = p.skip(40);
        assert(rest =~= data.skip(54));
        if data.len() >= 62 {
            assert(rest.skip(8) =~= data.skip(62));
        }
    }
}

/// The label of a DHCP message goes by its ports, whichever side they are on, and by its kind where
/// that could be read; any other packet has none.
pub proof fn dhcp_labels_go_by_ports_and_kind(sp: int, dp: int, parsed: Option<DhcpRequest>)
    ensures
        ({
            let v6 = sp == 546 || sp == 547 || dp == 546 || dp == 547;
            let v4 = sp == 67 || sp == 68 || dp == 67 || dp == 68;
            let label = dhcp_label(sp, dp, parsed);
            &&& v6 ==> label == " DHCPv6"@
            &&& v4 && !v6 && parsed is None ==> label == " DHCP"@
            &&& v4 && !v6 ==> (parsed matches Some(message) ==> label == " DHCP:"@ + dhcp_text(
                message.message_type,
            ))
            &&& !v4 && !v6 ==> label.len() == 0
            &&& label == dhcp_label(dp, sp, parsed)
        }),
{
}

/// The names of the kinds of DHCP message.
pub proof fn dhcp_kinds_have_their_names(kind: u8)
    ensures
        kind == 1 ==> dhcp_text(kind) == "DISCOVER"@,
        kind == 2 ==> dhcp_text(kind) == "OFFER"@,
        kind == 3 ==> dhcp_text(kind) == "REQUEST"@,
        kind == 4 ==> dhcp_text(kind) == "DECLINE"@,
        kind == 5 ==> dhcp_text(kind) == "ACK"@,
        kind == 6 ==> dhcp_text(kind) == "NAK"@,
        kind == 7 ==> dhcp_text(kind) == "RELEASE"@,
        kind == 8 ==> dhcp_text(kind) == "INFORM"@,
        kind == 0 || kind > 8 ==> dhcp_text(kind) == "DHCP?"@,
{
}

/// The names of the protocols.
pub proof fn protocols_have_their_names(proto: u8)
    ensures
        proto == 1 ==> proto_text(proto) == "ICMP"@,
        proto == 2 ==> proto_text(proto) == "IGMP"@,
        proto == 6 ==> proto_text(proto) == "TCP"@,
        proto == 17 ==> proto_text(proto) == "UDP"@,
        proto == 58 ==> proto_text(proto) == "ICMPv6"@,
        proto != 1 && proto != 2 && proto != 6 && proto != 17 && proto != 58 ==> proto_text(proto)
            == "proto"@,
{
}

/// The names of the ICMPv6 messages.
pub proof fn neighbor_messages_have_their_names(ty: u8)
    ensures
        ty == 128 ==> ndp_text(ty) == "echo-req"@,
        ty == 129 ==> ndp_text(ty) == "echo-reply"@,
        ty == 130 ==> ndp_text(ty) == "MLD-query"@,
        ty == 133 ==> ndp_text(ty) == "RS"@,
        ty == 134 ==> ndp_text(ty) == "RA"@,
        ty == 135 ==> ndp_text(ty) == "NS"@,
        ty == 136 ==> ndp_text(ty) == "NA"@,
        ty == 143 ==> ndp_text(ty) == "MLDv2-report"@,
        ty < 128 || ty == 131 || ty == 132 || 136 < ty < 143 || ty > 143 ==> ndp_text(ty)
            == "icmpv6"@,
{
}

/// The flags of a TCP segment are told by their letters, in one order: a letter is there exactly
/// where its bit is set, and a dot stands for none of them.
pub proof fn flags_are_told_by_their_letters(flags: u8)
    ensures
        ({
            let text = tcp_flags_text(flags);
            let fin = flags % 2 == 1;
            let syn = (flags / 2) % 2 == 1;
            let rst = (flags / 4) % 2 == 1;
            let psh = (flags / 8) % 2 == 1;
            let ack = (flags / 16) % 2 == 1;
            &&& syn || ack || fin || rst || psh ==> text == letter(syn, "S"@) + letter(ack, "A"@)
                + letter(fin, "F"@) + letter(rst, "R"@) + letter(psh, "P"@)
            &&& !syn && !ack && !fin && !rst && !psh ==> text == "."@
            &&& letter(true, text) == text
            &&& letter(false, text).len() == 0
        }),
{
}

} // verus!
