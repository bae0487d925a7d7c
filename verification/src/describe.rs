//! Compact, best-effort one-line descriptions of Ethernet frames for tracing what crosses the
//! boundary of a network backend: with enough detail of the link, network and transport layers
//! (the kind of a DHCP message among it) to answer "did DHCP complete?" or "what was dropped?"
//! without a packet capture.

use crate::rss::be16_at;
use crate::text::{dec, hex, hex4, push_dec, push_hex, push_hex4};
use crate::wire::{dhcp_parsed, parse_dhcp, DhcpRequest};
use vstd::prelude::*;
use vstd::string::*;

verus! {

pub const ETH_HDR: usize = 14;

pub const IPV4_MIN_HDR: usize = 20;

pub const IPV6_HDR: usize = 40;

pub const UDP_HDR: usize = 8;

pub const TCP_MIN_HDR: usize = 20;

/// An IPv4 address at a position.
pub open spec fn ipv4_text(b: Seq<u8>, off: int) -> Seq<char> {
    dec(b[off] as nat) + "."@ + dec(b[off + 1] as nat) + "."@ + dec(b[off + 2] as nat) + "."@ + dec(
        b[off + 3] as nat,
    )
}

/// The first `n` groups of an IPv6 address at a position, without zero-compression.
pub open spec fn ipv6_groups(b: Seq<u8>, off: int, n: nat) -> Seq<char>
    decreases n,
{
    if n == 0 {
        Seq::empty()
    } else if n == 1 {
        hex(be16_at(b, off) as nat)
    } else {
        ipv6_groups(b, off, (n - 1) as nat) + ":"@ + hex(be16_at(b, off + 2 * (n - 1)) as nat)
    }
}

/// The name of a protocol.
pub open spec fn proto_text(p: u8) -> Seq<char> {
    if p == 6 {
        "TCP"@
    } else if p == 17 {
        "UDP"@
    } else if p == 1 {
        "ICMP"@
    } else if p == 58 {
        "ICMPv6"@
    } else if p == 2 {
        "IGMP"@
    } else {
        "proto"@
    }
}

/// The name of an ICMPv6 message.
pub open spec fn ndp_text(ty: u8) -> Seq<char> {
    if ty == 133 {
        "RS"@
    } else if ty == 134 {
        "RA"@
    } else if ty == 135 {
        "NS"@
    } else if ty == 136 {
        "NA"@
    } else if ty == 130 {
        "MLD-query"@
    } else if ty == 143 {
        "MLDv2-report"@
    } else if ty == 128 {
        "echo-req"@
    } else if ty == 129 {
        "echo-reply"@
    } else {
        "icmpv6"@
    }
}

/// The name of a DHCP message.
pub open spec fn dhcp_text(mt: u8) -> Seq<char> {
    if mt == 1 {
        "DISCOVER"@
    } else if mt == 2 {
        "OFFER"@
    } else if mt == 3 {
        "REQUEST"@
    } else if mt == 4 {
        "DECLINE"@
    } else if mt == 5 {
        "ACK"@
    } else if mt == 6 {
        "NAK"@
    } else if mt == 7 {
        "RELEASE"@
    } else if mt == 8 {
        "INFORM"@
    } else {
        "DHCP?"@
    }
}

/// A letter, where it applies.
pub open spec fn letter(set: bool, name: Seq<char>) -> Seq<char> {
    if set {
        name
    } else {
        Seq::empty()
    }
}

/// The flags of a TCP segment: SYN, ACK, FIN, RST and PSH, or a dot where none is set.
pub open spec fn tcp_flags_text(flags: u8) -> Seq<char> {
    let s = flags % 4 >= 2;
    let a = flags % 32 >= 16;
    let f = flags % 2 == 1;
    let r = flags % 8 >= 4;
    let p = flags % 16 >= 8;
    if !s && !a && !f && !r && !p {
        "."@
    } else {
        letter(s, "S"@) + letter(a, "A"@) + letter(f, "F"@) + letter(r, "R"@) + letter(p, "P"@)
    }
}

/// The label of the DHCP message in a UDP packet, by its ports; with its kind where the message
/// could be read.
pub open spec fn dhcp_label(sp: int, dp: int, parsed: Option<DhcpRequest>) -> Seq<char> {
    if sp == 546 || dp == 546 || sp == 547 || dp == 547 {
        " DHCPv6"@
    } else if sp == 67 || dp == 67 || sp == 68 || dp == 68 {
        match parsed {
            Some(message) => " DHCP:"@ + dhcp_text(message.message_type),
            None => " DHCP"@,
        }
    } else {
        Seq::empty()
    }
}

/// What follows the addresses of a packet.
pub open spec fn l4_text(proto: u8, l4: Seq<u8>) -> Seq<char> {
    if proto == 17 && l4.len() >= UDP_HDR {
        " "@ + dec(be16_at(l4, 0) as nat) + "->"@ + dec(be16_at(l4, 2) as nat) + dhcp_label(
            be16_at(l4, 0),
            be16_at(l4, 2),
            dhcp_parsed(l4.skip(UDP_HDR as int)),
        )
    } else if proto == 6 && l4.len() >= TCP_MIN_HDR {
        " "@ + dec(be16_at(l4, 0) as nat) + "->"@ + dec(be16_at(l4, 2) as nat) + " ["@
            + tcp_flags_text(l4[13]) + "]"@
    } else if proto == 58 && l4.len() > 0 {
        " "@ + ndp_text(l4[0])
    } else if proto == 1 && l4.len() > 0 {
        " type="@ + dec(l4[0] as nat)
    } else {
        Seq::empty()
    }
}

/// An ARP packet for IPv4 over Ethernet: the operation at 6, the sender's address at 14, the
/// target's at 24.
pub open spec fn arp_text(p: Seq<u8>) -> Seq<char> {
    if p.len() < 28 {
        "ARP (short)"@
    } else if be16_at(p, 6) == 1 {
        "ARP "@ + "who-has"@ + " tpa="@ + ipv4_text(p, 24) + " spa="@ + ipv4_text(p, 14)
    } else if be16_at(p, 6) == 2 {
        "ARP "@ + "is-at"@ + " tpa="@ + ipv4_text(p, 24) + " spa="@ + ipv4_text(p, 14)
    } else {
        "ARP op="@ + dec(be16_at(p, 6) as nat)
    }
}

/// An IPv4 packet in a frame of a length.
pub open spec fn ipv4_packet_text(p: Seq<u8>, total: nat) -> Seq<char> {
    if p.len() < IPV4_MIN_HDR || p[0] / 16 != 4 {
        "IPv4 (short) len="@ + dec(total)
    } else {
        let ihl = (p[0] % 16) * 4;
        "IPv4 "@ + proto_text(p[9]) + " "@ + ipv4_text(p, 12) + "->"@ + ipv4_text(p, 16) + (if ihl
            >= IPV4_MIN_HDR && p.len() >= ihl {
            l4_text(p[9], p.skip(ihl))
        } else {
            Seq::empty()
        })
    }
}

/// An IPv6 packet in a frame of a length. Extension headers are not walked.
pub open spec fn ipv6_packet_text(p: Seq<u8>, total: nat) -> Seq<char> {
    if p.len() < IPV6_HDR || p[0] / 16 != 6 {
        "IPv6 (short) len="@ + dec(total)
    } else {
        "IPv6 "@ + proto_text(p[6]) + " "@ + ipv6_groups(p, 8, 8) + "->"@ + ipv6_groups(p, 24, 8)
            + l4_text(p[6], p.skip(IPV6_HDR as int))
    }
}

/// The one-line description of a frame.
pub open spec fn description(data: Seq<u8>) -> Seq<char> {
    if data.len() < ETH_HDR {
        "runt len="@ + dec(data.len())
    } else {
        let ethertype = be16_at(data, 12);
        let payload = data.skip(ETH_HDR as int);
        if ethertype == 0x0806 {
            arp_text(payload)
        } else if ethertype == 0x0800 {
            ipv4_packet_text(payload, data.len())
        } else if ethertype == 0x86dd {
            ipv6_packet_text(payload, data.len())
        } else {
            "ethertype=0x"@ + hex4(ethertype as nat) + " len="@ + dec(data.len())
        }
    }
}

fn be16(b: &[u8], off: usize) -> (ret: u16)
    requires
        off + 1 < b@.len(),
    ensures
        ret == be16_at(b@, off as int),
{
    b[off] as u16 * 256 + b[off + 1] as u16
}

fn fmt_ipv4(f: &mut String, b: &[u8], off: usize)
    requires
        off + 3 < b@.len(),
    ensures
        final(f)@ == old(f)@ + ipv4_text(b@, off as int),
{
    push_dec(f, b[off] as u64);
    f.append(".");
    push_dec(f, b[off + 1] as u64);
    f.append(".");
    push_dec(f, b[off + 2] as u64);
    f.append(".");
    push_dec(f, b[off + 3] as u64);
    assert(f@ =~= old(f)@ + ipv4_text(b@, off as int));
}

fn fmt_ipv6(f: &mut String, b: &[u8], off: usize)
    requires
        off + 15 < b@.len(),
    ensures
        final(f)@ == old(f)@ + ipv6_groups(b@, off as int, 8),
{
    assert(off + 15 < b.len());
    push_hex(f, be16(b, off) as u64);
    let mut i: usize = 1;
    while i < 8
        invariant
            1 <= i <= 8,
            off + 15 < b.len(),
            f@ =~= old(f)@ + ipv6_groups(b@, off as int, i as nat),
        decreases 8 - i,
    {
        f.append(":");
        push_hex(f, be16(b, off + 2 * i) as u64);
        i = i + 1;
    }
}

fn proto_short(p: u8) -> (ret: &'static str)
    ensures
        ret@ == proto_text(p),
{
    match p {
        6 => "TCP",
        17 => "UDP",
        1 => "ICMP",
        58 => "ICMPv6",
        2 => "IGMP",
        _ => "proto",
    }
}

fn icmpv6_name(ty: u8) -> (ret: &'static str)
    ensures
        ret@ == ndp_text(ty),
{
    match ty {
        133 => "RS",
        134 => "RA",
        135 => "NS",
        136 => "NA",
        130 => "MLD-query",
        143 => "MLDv2-report",
        128 => "echo-req",
        129 => "echo-reply",
        _ => "icmpv6",
    }
}

fn write_ndp(f: &mut String, ty: u8)
    ensures
        final(f)@ == old(f)@ + (" "@ + ndp_text(ty)),
{
    f.append(" ");
    f.append(icmpv6_name(ty));
    assert(f@ =~= old(f)@ + (" "@ + ndp_text(ty)));
}

/// The name of a kind of DHCP message.
pub fn dhcp_mt_name(mt: u8) -> (ret: &'static str)
    ensures
        ret@ == dhcp_text(mt),
{
    match mt {
        1 => "DISCOVER",
        2 => "OFFER",
        3 => "REQUEST",
        4 => "DECLINE",
        5 => "ACK",
        6 => "NAK",
        7 => "RELEASE",
        8 => "INFORM",
        _ => "DHCP?",
    }
}

fn tcp_flags(f: &mut String, flag_byte: u8)
    ensures
        final(f)@ == old(f)@ + tcp_flags_text(flag_byte),
{
    let syn = flag_byte % 4 >= 2;
    let ack = flag_byte % 32 >= 16;
    let fin = flag_byte % 2 == 1;
    let rst = flag_byte % 8 >= 4;
    let psh = flag_byte % 16 >= 8;
    if syn {
        f.append("S");
    }
    if ack {
        f.append("A");
    }
    if fin {
        f.append("F");
    }
    if rst {
        f.append("R");
    }
    if psh {
        f.append("P");
    }
    if !syn && !ack && !fin && !rst && !psh {
        f.append(".");
    }
    assert(f@ =~= old(f)@ + tcp_flags_text(flag_byte));
}

/// Whether a UDP packet carries a DHCP message over IPv4, by its ports.
fn is_dhcpv4(sp: u16, dp: u16) -> (ret: bool)
    ensures
        ret == (sp == 67 || dp == 67 || sp == 68 || dp == 68),
{
    sp == 67 || dp == 67 || sp == 68 || dp == 68
}

/// Writes the label of a DHCP message, given what could be read of it.
pub fn write_dhcp_label(f: &mut String, sp: u16, dp: u16, parsed: Option<DhcpRequest>)
    ensures
        final(f)@ == old(f)@ + dhcp_label(sp as int, dp as int, parsed),
{
    if sp == 546 || dp == 546 || sp == 547 || dp == 547 {
        f.append(" DHCPv6");
    } else if is_dhcpv4(sp, dp) {
        match parsed {
            Some(message) => {
                f.append(" DHCP:");
                f.append(dhcp_mt_name(message.message_type));
            },
            None => {
                f.append(" DHCP");
            },
        }
    }
    assert(f@ =~= old(f)@ + dhcp_label(sp as int, dp as int, parsed));
}

fn write_dhcp(f: &mut String, sp: u16, dp: u16, l7: &[u8])
    ensures
        final(f)@ == old(f)@ + dhcp_label(sp as int, dp as int, dhcp_parsed(l7@)),
{
    // Try to pull the message type out; fall back to a bare label.
    let parsed = if is_dhcpv4(sp, dp) {
        parse_dhcp(l7)
    } else {
        None
    };
    write_dhcp_label(f, sp, dp, parsed);
}

fn write_l4(f: &mut String, proto: u8, l4: &[u8])
    ensures
        final(f)@ == old(f)@ + l4_text(proto, l4@),
{
    if proto == 17 {
        if l4.len() >= UDP_HDR {
            let sp: u16 = be16(l4, 0);
            let dp: u16 = be16(l4, 2);
            f.append(" ");
            push_dec(f, sp as u64);
            f.append("->");
            push_dec(f, dp as u64);
            let l7 = vstd::slice::slice_subrange(l4, UDP_HDR, l4.len());
            assert(l7@ =~= l4@.skip(UDP_HDR as int));
            write_dhcp(f, sp, dp, l7);
        }
    } else if proto == 6 {
        if l4.len() >= TCP_MIN_HDR {
            f.append(" ");
            push_dec(f, be16(l4, 0) as u64);
            f.append("->");
            push_dec(f, be16(l4, 2) as u64);
            f.append(" [");
            tcp_flags(f, l4[13]);
            f.append("]");
        }
    } else if proto == 58 {
        // Neighbor discovery lives here.
        if l4.len() > 0 {
            write_ndp(f, l4[0]);
        }
    } else if proto == 1 {
        if l4.len() > 0 {
            f.append(" type=");
            push_dec(f, l4[0] as u64);
        }
    }
    assert(f@ =~= old(f)@ + l4_text(proto, l4@));
}

fn write_arp(f: &mut String, p: &[u8])
    ensures
        final(f)@ == old(f)@ + arp_text(p@),
{
    if p.len() < 28 {
        f.append("ARP (short)");
        return;
    }
    let op: u16 = be16(p, 6);
    if op != 1 && op != 2 {
        f.append("ARP op=");
        push_dec(f, op as u64);
        assert(f@ =~= old(f)@ + arp_text(p@));
        return;
    }
    f.append("ARP ");
    if op == 1 {
        f.append("who-has");
    } else {
        f.append("is-at");
    }
    f.append(" tpa=");
    fmt_ipv4(f, p, 24);
    f.append(" spa=");
    fmt_ipv4(f, p, 14);
    assert(f@ =~= old(f)@ + arp_text(p@));
}

fn write_ipv4(f: &mut String, p: &[u8], total: usize)
    ensures
        final(f)@ == old(f)@ + ipv4_packet_text(p@, total as nat),
{
    if p.len() < IPV4_MIN_HDR || p[0] / 16 != 4 {
        f.append("IPv4 (short) len=");
        push_dec(f, total as u64);
        assert(f@ =~= old(f)@ + ipv4_packet_text(p@, total as nat));
        return;
    }
    let ihl: usize = (p[0] % 16) as usize * 4;
    let proto: u8 = p[9];
    f.append("IPv4 ");
    f.append(proto_short(proto));
    f.append(" ");
    fmt_ipv4(f, p, 12);
    f.append("->");
    fmt_ipv4(f, p, 16);
    let ghost head = "IPv4 "@ + proto_text(proto) + " "@ + ipv4_text(p@, 12) + "->"@ + ipv4_text(
        p@,
        16,
    );
    assert(f@ =~= old(f)@ + head);
    if ihl >= IPV4_MIN_HDR && p.len() >= ihl {
        let l4 = vstd::slice::slice_subrange(p, ihl, p.len());
        assert(l4@ =~= p@.skip(ihl as int));
        write_l4(f, proto, l4);
        assert((old(f)@ + head) + l4_text(proto, l4@) =~= old(f)@ + (head + l4_text(proto, l4@)));
    } else {
        assert(head + Seq::<char>::empty() =~= head);
    }
}

fn write_ipv6(f: &mut String, p: &[u8], total: usize)
    ensures
        final(f)@ == old(f)@ + ipv6_packet_text(p@, total as nat),
{
    if p.len() < IPV6_HDR || p[0] / 16 != 6 {
        f.append("IPv6 (short) len=");
        push_dec(f, total as u64);
        assert(f@ =~= old(f)@ + ipv6_packet_text(p@, total as nat));
        return;
    }
    let proto: u8 = p[6];
    f.append("IPv6 ");
    f.append(proto_short(proto));
    f.append(" ");
    fmt_ipv6(f, p, 8);
    f.append("->");
    fmt_ipv6(f, p, 24);
    let l4 = vstd::slice::slice_subrange(p, IPV6_HDR, p.len());
    assert(l4@ =~= p@.skip(IPV6_HDR as int));
    write_l4(f, proto, l4);
    assert(f@ =~= old(f)@ + ipv6_packet_text(p@, total as nat));
}

/// A frame that is described on demand. Cheap to construct; parsing happens only in
/// [`FrameSummary::to_string`].
pub struct FrameSummary<'a>(&'a [u8]);

/// Wraps `data` for lazy, compact single-line rendering.
pub fn describe_frame(data: &[u8]) -> (ret: FrameSummary<'_>)
    ensures
        ret.frame() == data@,
{
    FrameSummary(data)
}

impl<'a> FrameSummary<'a> {
    /// The frame to be described.
    pub closed spec fn frame(&self) -> Seq<u8> {
        self.0@
    }

    /// The description of the frame. Never fails, however malformed the frame is.
    pub fn to_string(&self) -> (ret: String)
        ensures
            ret@ == description(self.frame()),
    {
        let data = self.0;
        let mut f = String::new();
        if data.len() < ETH_HDR {
            f.append("runt len=");
            push_dec(&mut f, data.len() as u64);
            assert(f@ =~= description(data@));
            return f;
        }
        let ethertype: u16 = be16(data, 12);
        let payload = vstd::slice::slice_subrange(data, ETH_HDR, data.len());
        assert(payload@ =~= data@.skip(ETH_HDR as int));
        if ethertype == 0x0806 {
            write_arp(&mut f, payload);
        } else if ethertype == 0x0800 {
            write_ipv4(&mut f, payload, data.len());
        } else if ethertype == 0x86dd {
            write_ipv6(&mut f, payload, data.len());
        } else {
            f.append("ethertype=0x");
            push_hex4(&mut f, ethertype);
            f.append(" len=");
            push_dec(&mut f, data.len() as u64);
        }
        assert(f@ =~= description(data@));
        f
    }
}

} // verus!
