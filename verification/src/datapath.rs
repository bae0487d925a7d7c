//! The data path of a vport: transmit requests, receive buffers, and their completions.
//!
//! Polling the guest's queues and the backend, and moving bytes in guest memory, is the caller's
//! work; this module says what is polled, what is moved where, and what is posted.

use crate::bnic::{SqChannel, TaskPlan};
use crate::completion::{fence_completion, CqPost, CqPostView, Cqe, CqeType, CqeView};
use crate::completion::{PacketInfo, RxCompletion, RxCompletionView, RxFlags};
use crate::rss::{compute_rx_hash, rx_hash, MANA_HASH_KEY_SIZE};
use crate::table::{Keys, Table};
use vstd::prelude::*;

verus! {

/// How many packets a coalesced receive completion can tell of.
pub const MANA_RXCOMP_OOB_NUM_PPI: usize = 4;

/// How many receive buffers a task takes from the guest at a time.
pub const MAX_RX_BUF: u32 = 256;

/// The length of an Ethernet header.
pub const ETHERNET_HEADER_LEN: u16 = 14;

/// The length of an Ethernet header with a VLAN tag.
pub const ETHERNET_VLAN_HEADER_LEN: u16 = 18;

/// The longest header of a large send.
pub const MAX_LSO_HEADER: u32 = 256;

/// Why a task stops.
#[derive(Clone, Copy, Debug, PartialEq, Eq, Structural)]
pub enum DatapathError {
    /// A transmit request carries less out-of-band data than its short form.
    OobTooSmall,
    /// A transmit request names no memory.
    NoSgl,
    /// The backend returned a receive buffer that it was not given.
    InvalidRxId,
}

/// A piece of guest memory.
#[derive(Clone, Copy, Debug, PartialEq, Eq, Structural)]
pub struct Sge {
    pub address: u64,
    pub size: u32,
}

/// A receive buffer that the guest posted, and what is known of the packet in it.
pub struct RxPacket {
    pub segments: Vec<Sge>,
    /// The capacity of the buffer.
    pub len: u32,
    pub wqe_offset: u32,
    /// The kind and the value of the packet's hash.
    pub hash: Option<(u16, u32)>,
    pub oob: RxCompletion,
}

/// What a [`RxPacket`] holds.
pub struct PacketView {
    pub segments: Seq<Sge>,
    pub len: u32,
    pub wqe_offset: u32,
    pub hash: Option<(u16, u32)>,
    pub oob: RxCompletionView,
}

impl View for RxPacket {
    type V = PacketView;

    open spec fn view(&self) -> PacketView {
        PacketView {
            segments: self.segments@,
            len: self.len,
            wqe_offset: self.wqe_offset,
            hash: self.hash,
            oob: self.oob@,
        }
    }
}

impl PacketView {
    /// A completion that tells of a packet tells of exactly one; one that was never filled in
    /// tells of none.
    pub open spec fn valid(self) -> bool {
        match self.oob.cqe_type {
            CqeType::Unset => self.oob == RxCompletionView::blank(),
            CqeType::RxOkay | CqeType::RxTruncated => self.oob.packets.len() == 1,
            _ => false,
        }
    }
}

/// What the backend found of a checksum.
#[derive(Clone, Copy, Debug, PartialEq, Eq, Structural)]
pub enum RxChecksumState {
    Unknown,
    Good,
    Bad,
    ValidatedButWrong,
}

#[derive(Clone, Copy, Debug, PartialEq, Eq, Structural)]
pub enum L4Protocol {
    Unknown,
    Tcp,
    Udp,
}

/// What the backend tells of a received packet.
#[derive(Clone, Copy, Debug, PartialEq, Eq, Structural)]
pub struct RxMetadata {
    /// Where in the buffer the packet begins.
    pub offset: usize,
    pub len: usize,
    pub ip_checksum: RxChecksumState,
    pub l4_checksum: RxChecksumState,
    pub l4_protocol: L4Protocol,
    pub vlan_id: Option<u16>,
}

/// Bytes `start .. start + len` of a packet that go to guest memory at `gpa`.
#[derive(Clone, Copy, Debug, PartialEq, Eq, Structural)]
pub struct GuestWrite {
    pub gpa: u64,
    pub start: usize,
    pub len: usize,
}

/// Where the bytes of a packet from `off` on go: into the segments from `k` on, one after the
/// other, as long as there are any.
pub open spec fn scatter(segments: Seq<Sge>, k: nat, off: nat, data_len: nat) -> Seq<GuestWrite>
    decreases segments.len() - k,
{
    if k >= segments.len() || off >= data_len {
        Seq::empty()
    } else {
        let len = if data_len - off <= segments[k as int].size {
            (data_len - off) as nat
        } else {
            segments[k as int].size as nat
        };
        seq![
            GuestWrite {
                gpa: segments[k as int].address,
                start: off as usize,
                len: len as usize,
            },
        ] + scatter(segments, k + 1, off + len, data_len)
    }
}

/// A receive buffer once a frame was written into it: with the frame's hash, where frames are
/// hashed.
pub open spec fn filled_buffer(
    packet: PacketView,
    frame: Seq<u8>,
    key: Option<[u8; MANA_HASH_KEY_SIZE]>,
) -> PacketView {
    PacketView {
        hash: match key {
            Some(key) => rx_hash(frame, key@),
            None => None,
        },
        ..packet
    }
}

/// The flags of a received packet.
pub open spec fn rx_flags(metadata: RxMetadata, hash: Option<(u16, u32)>) -> RxFlags {
    let tcp = metadata.l4_protocol == L4Protocol::Tcp;
    let udp = metadata.l4_protocol == L4Protocol::Udp;
    RxFlags {
        iphdr_csum_succeed: metadata.ip_checksum == RxChecksumState::Good,
        iphdr_csum_fail: metadata.ip_checksum == RxChecksumState::Bad,
        tcp_csum_succeed: tcp && metadata.l4_checksum == RxChecksumState::Good,
        tcp_csum_fail: tcp && metadata.l4_checksum == RxChecksumState::Bad,
        udp_csum_succeed: udp && metadata.l4_checksum == RxChecksumState::Good,
        udp_csum_fail: udp && metadata.l4_checksum == RxChecksumState::Bad,
        vlantag_present: metadata.vlan_id is Some,
        vlan_id: match metadata.vlan_id {
            Some(vlan_id) => vlan_id,
            None => 0,
        },
        hashtype: match hash {
            Some((hashtype, _)) => hashtype,
            None => 0,
        },
    }
}

/// The completion of a received packet. A packet that is longer than its buffer is reported as
/// truncated.
pub open spec fn packet_completion(packet: PacketView, metadata: RxMetadata) -> RxCompletionView {
    RxCompletionView {
        cqe_type: if metadata.len > packet.len {
            CqeType::RxTruncated
        } else {
            CqeType::RxOkay
        },
        flags: rx_flags(metadata, packet.hash),
        packets: seq![
            PacketInfo {
                pkt_len: metadata.len as u16,
                pkt_hash: match packet.hash {
                    Some((_, value)) => value,
                    None => 0,
                },
            },
        ],
        rx_wqe_offset: packet.wqe_offset,
    }
}

/// The receive buffers that the backend may fill.
pub struct GuestBuffers {
    pub rx_packets: Table<RxPacket>,
    /// The key under which received frames are hashed; `None` while hashing is off.
    pub rss_key: Option<[u8; MANA_HASH_KEY_SIZE]>,
}

impl GuestBuffers {
    /// The buffers by their identifiers.
    pub open spec fn packets(&self) -> Map<usize, PacketView> {
        self.rx_packets.map().map_values(|packet: RxPacket| packet@)
    }

    pub open spec fn wf(&self) -> bool {
        &&& self.rx_packets.wf()
        &&& forall|id: usize| #[trigger]
            self.packets().contains_key(id) ==> self.packets()[id].valid()
    }

    pub fn new(rss_key: Option<[u8; MANA_HASH_KEY_SIZE]>) -> (ret: Self)
        ensures
            ret.wf(),
            ret.packets() == Map::<usize, PacketView>::empty(),
            ret.rx_packets.keys() == Keys::none(),
            ret.rss_key == rss_key,
    {
        let ret = GuestBuffers { rx_packets: Table::new(), rss_key };
        assert(ret.packets() =~= Map::<usize, PacketView>::empty());
        assert(ret.rx_packets.keys().live =~= Set::<usize>::empty());
        ret
    }

    /// Writes a frame into a buffer: says which bytes go where, and takes the frame's hash where
    /// hashing is on. What exceeds the buffer is dropped, and will be reported as a truncation
    /// with the header.
    pub fn write_data(&mut self, id: u32, data: &[u8]) -> (ret: Vec<GuestWrite>)
        requires
            old(self).wf(),
            old(self).packets().contains_key(id as usize),
        ensures
            final(self).wf(),
            final(self).rss_key == old(self).rss_key,
            final(self).rx_packets.keys() == old(self).rx_packets.keys(),
            ({
                let packet = old(self).packets()[id as usize];
                &&& ret@ == scatter(packet.segments, 0, 0, data@.len())
                &&& final(self).packets() == old(self).packets().insert(
                    id as usize,
                    PacketView {
                        hash: match old(self).rss_key {
                            Some(key) => rx_hash(data@, key@),
                            None => None,
                        },
                        ..packet
                    },
                )
                &&& final(self).packets()[id as usize] == filled_buffer(
                    packet,
                    data@,
                    old(self).rss_key,
                )
            }),
    {
        let hash = match &self.rss_key {
            Some(key) => compute_rx_hash(data, key),
            None => None,
        };
        let mut writes: Vec<GuestWrite> = Vec::new();
        let packet = self.rx_packets.get_mut(id as usize).unwrap();
        packet.hash = hash;
        let ghost segments = packet.segments@;
        let mut k: usize = 0;
        let mut off: usize = 0;
        while k < packet.segments.len() && off < data.len()
            invariant
                k <= segments.len(),
                off <= data@.len(),
                packet.segments@ == segments,
                scatter(segments, 0, 0, data@.len()) == writes@ + scatter(
                    segments,
                    k as nat,
                    off as nat,
                    data@.len(),
                ),
            decreases segments.len() - k,
        {
            let segment = packet.segments[k];
            let left: usize = data.len() - off;
            let len: usize = if left <= segment.size as usize {
                left
            } else {
                segment.size as usize
            };
            let ghost before = writes@;
            let write = GuestWrite { gpa: segment.address, start: off, len };
            writes.push(write);
            proof {
                let rest = scatter(segments, (k + 1) as nat, (off + len) as nat, data@.len());
                assert(before + (seq![write] + rest) =~= writes@ + rest);
            }
            k = k + 1;
            off = off + len;
        }
        assert(writes@ + Seq::<GuestWrite>::empty() =~= writes@);
        assert(self.rx_packets.keys().live =~= old(self).rx_packets.keys().live);
        assert forall|other: usize| self.packets().contains_key(other) implies (
        #[trigger] self.packets()[other]).valid() by {
            assert(old(self).packets().contains_key(other));
            assert(old(self).packets()[other].valid());
        }
        writes
    }

    /// The segments of a buffer.
    pub fn push_guest_addresses(&self, id: u32, buf: &mut Vec<Sge>)
        requires
            self.wf(),
            self.packets().contains_key(id as usize),
        ensures
            final(buf)@ == old(buf)@ + self.packets()[id as usize].segments,
    {
        let packet = self.rx_packets.get(id as usize).unwrap();
        let mut i: usize = 0;
        while i < packet.segments.len()
            invariant
                i <= packet.segments@.len(),
                buf@ =~= old(buf)@ + packet.segments@.take(i as int),
            decreases packet.segments@.len() - i,
        {
            buf.push(packet.segments[i]);
            i = i + 1;
        }
        assert(packet.segments@.take(i as int) =~= packet.segments@);
    }

    /// The capacity of a buffer.
    pub fn capacity(&self, id: u32) -> (ret: u32)
        requires
            self.wf(),
            self.packets().contains_key(id as usize),
        ensures
            ret == self.packets()[id as usize].len,
    {
        self.rx_packets.get(id as usize).unwrap().len
    }

    /// Records what the backend tells of the packet in a buffer.
    pub fn write_header(&mut self, id: u32, metadata: &RxMetadata)
        requires
            old(self).wf(),
            old(self).packets().contains_key(id as usize),
            metadata.offset == 0,
        ensures
            final(self).wf(),
            final(self).rss_key == old(self).rss_key,
            final(self).rx_packets.keys() == old(self).rx_packets.keys(),
            ({
                let packet = old(self).packets()[id as usize];
                final(self).packets() == old(self).packets().insert(
                    id as usize,
                    PacketView { oob: packet_completion(packet, *metadata), ..packet },
                )
            }),
    {
        let mut flags = RxFlags::none();
        match metadata.ip_checksum {
            RxChecksumState::Good => {
                flags.iphdr_csum_succeed = true;
            },
            RxChecksumState::Bad => {
                flags.iphdr_csum_fail = true;
            },
            RxChecksumState::Unknown | RxChecksumState::ValidatedButWrong => {},
        }
        match (metadata.l4_protocol, metadata.l4_checksum) {
            (L4Protocol::Tcp, RxChecksumState::Good) => {
                flags.tcp_csum_succeed = true;
            },
            (L4Protocol::Tcp, RxChecksumState::Bad) => {
                flags.tcp_csum_fail = true;
            },
            (L4Protocol::Udp, RxChecksumState::Good) => {
                flags.udp_csum_succeed = true;
            },
            (L4Protocol::Udp, RxChecksumState::Bad) => {
                flags.udp_csum_fail = true;
            },
            _ => {},
        }
        if let Some(vlan_id) = metadata.vlan_id {
            flags.vlantag_present = true;
            flags.vlan_id = vlan_id;
        }
        let packet = self.rx_packets.get_mut(id as usize).unwrap();
        let mut pkt_hash: u32 = 0;
        if let Some((hashtype, value)) = packet.hash {
            flags.hashtype = hashtype;
            pkt_hash = value;
        }
        let cqe_type = if metadata.len > packet.len as usize {
            CqeType::RxTruncated
        } else {
            CqeType::RxOkay
        };
        let mut packets: Vec<PacketInfo> = Vec::new();
        packets.push(PacketInfo { pkt_len: metadata.len as u16, pkt_hash });
        packet.oob = RxCompletion { cqe_type, flags, packets, rx_wqe_offset: packet.wqe_offset };
        assert(packet@.oob.packets =~= packet_completion(packet@, *metadata).packets);
        assert(self.rx_packets.keys().live =~= old(self).rx_packets.keys().live);
        assert forall|other: usize| self.packets().contains_key(other) implies (
        #[trigger] self.packets()[other]).valid() by {
            assert(old(self).packets().contains_key(other));
            assert(old(self).packets()[other].valid());
        }
    }
}

/// Out-of-band data of a transmit request, short form.
#[derive(Clone, Copy, Debug, PartialEq, Eq, Structural)]
pub struct TxShortOob {
    /// Whether the request says that the long form follows.
    pub long_format: bool,
    pub is_outer_ipv4: bool,
    pub is_outer_ipv6: bool,
    pub comp_iphdr_csum: bool,
    pub comp_tcp_csum: bool,
    pub comp_udp_csum: bool,
    /// Where the transport header begins.
    pub trans_off: u16,
}

/// What the long form adds.
#[derive(Clone, Copy, Debug, PartialEq, Eq, Structural)]
pub struct TxLongOob {
    pub inject_vlan_pri_tag: bool,
    pub pcp: u8,
    pub dei: bool,
    pub vlan_id: u16,
}

/// Out-of-band data of a transmit request. The long form, where it is absent, reads as zero.
#[derive(Clone, Copy, Debug, PartialEq, Eq, Structural)]
pub struct TxOob {
    pub short: TxShortOob,
    pub long: Option<TxLongOob>,
}

/// A transmit request.
pub struct Sqe {
    /// `None` if there is less of it than its short form takes.
    pub oob: Option<TxOob>,
    pub sgl: Vec<Sge>,
    /// Whether the first piece of memory is the header of a large send.
    pub client_oob_in_sgl: bool,
    /// The segment size of a large send.
    pub gd_client_unit_data: u16,
}

/// A VLAN tag.
#[derive(Clone, Copy, Debug, PartialEq, Eq, Structural)]
pub struct VlanMetadata {
    pub priority: u8,
    pub drop_eligible_indicator: bool,
    pub vlan_id: u16,
}

#[derive(Clone, Copy, Debug, PartialEq, Eq, Structural)]
pub struct TxFlags {
    pub offload_ip_header_checksum: bool,
    pub offload_tcp_checksum: bool,
    pub offload_udp_checksum: bool,
    pub offload_tcp_segmentation: bool,
    pub is_ipv4: bool,
    pub is_ipv6: bool,
}

/// What the backend is told of a packet.
#[derive(Clone, Copy, Debug, PartialEq, Eq, Structural)]
pub struct TxMetadata {
    /// The slot of the send queue, by which its completion finds back.
    pub id: u32,
    pub segment_count: u8,
    pub len: u32,
    pub flags: TxFlags,
    pub l2_len: u8,
    pub l3_len: u16,
    pub l4_len: u8,
    pub transport_header_offset: u16,
    pub max_segment_size: u16,
    pub vlan: Option<VlanMetadata>,
}

#[derive(Clone, Copy, Debug, PartialEq, Eq, Structural)]
pub enum TxSegmentType {
    Head(TxMetadata),
    Tail,
}

/// A piece of a packet for the backend.
#[derive(Clone, Copy, Debug, PartialEq, Eq, Structural)]
pub struct TxSegment {
    pub ty: TxSegmentType,
    pub gpa: u64,
    pub len: u32,
}

/// How many bytes the first `n` pieces hold.
pub open spec fn total_size(sgl: Seq<Sge>, n: nat) -> nat
    decreases n,
{
    if n == 0 {
        0
    } else {
        total_size(sgl, (n - 1) as nat) + sgl[n - 1].size as nat
    }
}

/// More pieces hold no fewer bytes.
proof fn total_size_grows(sgl: Seq<Sge>, m: nat, n: nat)
    requires
        m <= n,
    ensures
        total_size(sgl, m) <= total_size(sgl, n),
    decreases n,
{
    if m < n {
        total_size_grows(sgl, m, (n - 1) as nat);
    }
}

/// The VLAN tag that a request has injected: the long form has to be announced, and to ask for it.
pub open spec fn injected_vlan(oob: TxOob) -> Option<VlanMetadata> {
    match oob.long {
        Some(long) if oob.short.long_format && long.inject_vlan_pri_tag => Some(
            VlanMetadata {
                priority: long.pcp,
                drop_eligible_indicator: long.dei,
                vlan_id: long.vlan_id,
            },
        ),
        _ => None,
    }
}

/// The length of a request's link header.
pub open spec fn link_header_len(oob: TxOob) -> u16 {
    if injected_vlan(oob) is Some {
        ETHERNET_VLAN_HEADER_LEN
    } else {
        ETHERNET_HEADER_LEN
    }
}

/// The length of a request's network header: what lies between the link header and the transport
/// header, which is taken to begin within the first 255 bytes and behind the link header.
pub open spec fn network_header_len(oob: TxOob) -> int {
    crate::bnic::clamped(oob.short.trans_off as int, link_header_len(oob) as int, 255)
        - link_header_len(oob)
}

/// What the backend is told of the packet of a request.
pub open spec fn tx_metadata(
    slot: usize,
    oob: TxOob,
    sgl: Seq<Sge>,
    large_send: bool,
    unit: u16,
) -> TxMetadata {
    let l2_len = link_header_len(oob);
    let l3_len = network_header_len(oob);
    let header = sgl[0].size - (l2_len + l3_len);
    TxMetadata {
        id: slot as u32,
        segment_count: sgl.len() as u8,
        len: total_size(sgl, sgl.len()) as u32,
        flags: TxFlags {
            offload_ip_header_checksum: oob.short.comp_iphdr_csum,
            offload_tcp_checksum: oob.short.comp_tcp_csum,
            offload_udp_checksum: oob.short.comp_udp_csum,
            offload_tcp_segmentation: large_send,
            is_ipv4: oob.short.is_outer_ipv4,
            is_ipv6: oob.short.is_outer_ipv6 && !oob.short.is_outer_ipv4,
        },
        l2_len: l2_len as u8,
        l3_len: l3_len as u16,
        l4_len: if !large_send || header <= 0 {
            0
        } else {
            (header as u32) as u8
        },
        transport_header_offset: oob.short.trans_off,
        max_segment_size: if large_send {
            unit
        } else {
            0
        },
        vlan: injected_vlan(oob),
    }
}

/// The pieces of a packet: the first one carries what the backend is told, the others follow.
pub open spec fn tx_segments(sgl: Seq<Sge>, meta: TxMetadata) -> Seq<TxSegment> {
    Seq::new(
        sgl.len(),
        |i: int|
            TxSegment {
                ty: if i == 0 {
                    TxSegmentType::Head(meta)
                } else {
                    TxSegmentType::Tail
                },
                gpa: sgl[i].address,
                len: sgl[i].size,
            },
    )
}

/// What a transmit request comes to.
pub enum SqeAction {
    /// The request is malformed: it is completed with an error.
    Reject(CqPost),
    /// The pieces go to the backend.
    Transmit(Vec<TxSegment>),
}

/// What a transmit request comes to.
pub enum SqeActionView {
    Reject(CqPostView),
    Transmit(Seq<TxSegment>),
}

impl View for SqeAction {
    type V = SqeActionView;

    open spec fn view(&self) -> SqeActionView {
        match self {
            SqeAction::Reject(post) => SqeActionView::Reject(post@),
            SqeAction::Transmit(segments) => SqeActionView::Transmit(segments@),
        }
    }
}

/// Something that a task waits for.
#[derive(Clone, Copy, Debug, PartialEq, Eq, Structural)]
pub enum PollSource {
    /// A fence request.
    Fence,
    /// A receive buffer from the guest.
    Rq,
    /// A transmit request on the send queue in this slot.
    Sq(usize),
    /// The backend.
    Backend,
}

/// What a task polls, in this order, while it holds `held` receive buffers and drains `queues` send
/// queues.
pub open spec fn poll_order(held: u32, queues: nat) -> Seq<PollSource> {
    seq![PollSource::Fence] + (if held < MAX_RX_BUF {
        seq![PollSource::Rq]
    } else {
        Seq::empty()
    }) + Seq::new(queues, |i: int| PollSource::Sq(i as usize)) + seq![PollSource::Backend]
}

/// Whether a packet that the backend was handed is completed at once: the backend is done with it,
/// or took none of it.
pub open spec fn completes_at_once(sync: bool, count: usize) -> bool {
    sync || count == 0
}

/// How many received packets the backend is asked for at a time.
pub open spec fn packets_at_a_time(coalescing: bool) -> int {
    if coalescing {
        MANA_RXCOMP_OOB_NUM_PPI as int
    } else {
        1
    }
}

/// A receive buffer as it is when the guest has posted it.
pub open spec fn posted_buffer(sgl: Seq<Sge>, wqe_offset: u32) -> PacketView {
    PacketView {
        segments: sgl,
        len: total_size(sgl, sgl.len()) as u32,
        wqe_offset,
        hash: None,
        oob: RxCompletionView::blank(),
    }
}

/// How receiving went on.
#[derive(Clone, Copy, Debug, PartialEq, Eq, Structural)]
pub enum PostEnd {
    Done,
    /// The backend returned a buffer that it was not given.
    InvalidId,
    /// The backend returned a buffer that it was not given behind one that could be coalesced
    /// with it, which must not be.
    Broken,
}

/// How many packets from `start` on go into one completion, `count` of them being known to: those
/// that were received well with the same flags, up to the number that a completion can tell of.
/// `None` if a buffer among them does not exist.
pub open spec fn run_length(
    packets: Map<usize, PacketView>,
    ids: Seq<u32>,
    start: nat,
    flags: RxFlags,
    count: nat,
) -> Option<nat>
    decreases MANA_RXCOMP_OOB_NUM_PPI - count,
{
    if start + count >= ids.len() || count >= MANA_RXCOMP_OOB_NUM_PPI {
        Some(count)
    } else {
        let id = ids[(start + count) as int] as usize;
        if !packets.contains_key(id) {
            None
        } else if packets[id].oob.cqe_type != CqeType::RxOkay || packets[id].oob.flags != flags {
            Some(count)
        } else {
            run_length(packets, ids, start, flags, count + 1)
        }
    }
}

/// The buffers without those at `from .. to` of the list, up to the first that does not exist;
/// whether all of them existed.
pub open spec fn without_ids(
    packets: Map<usize, PacketView>,
    ids: Seq<u32>,
    from: nat,
    to: nat,
) -> (Map<usize, PacketView>, bool)
    decreases to - from,
{
    if from >= to {
        (packets, true)
    } else if !packets.contains_key(ids[from as int] as usize) {
        (packets, false)
    } else {
        without_ids(packets.remove(ids[from as int] as usize), ids, from + 1, to)
    }
}

/// One completion for `count` packets, of which the first has the completion `first` of its own.
pub open spec fn joined(
    first: RxCompletionView,
    packets: Map<usize, PacketView>,
    ids: Seq<u32>,
    start: nat,
    count: nat,
) -> RxCompletionView {
    if count <= 1 {
        first
    } else {
        RxCompletionView {
            cqe_type: CqeType::RxCoalesced4,
            packets: first.packets + Seq::new(
                (count - 1) as nat,
                |k: int| packets[ids[start + 1 + k] as usize].oob.packets[0],
            ),
            ..first
        }
    }
}

/// The completions for the buffers from `start` on of a list, the buffers that are left, and how
/// it ended.
pub open spec fn completions(
    packets: Map<usize, PacketView>,
    ids: Seq<u32>,
    start: nat,
    coalescing: bool,
) -> (Seq<RxCompletionView>, Map<usize, PacketView>, PostEnd)
    decreases
            if start < ids.len() {
                ids.len() - start
            } else {
                0
            },
{
    if start >= ids.len() {
        (Seq::empty(), packets, PostEnd::Done)
    } else if !packets.contains_key(ids[start as int] as usize) {
        (Seq::empty(), packets, PostEnd::InvalidId)
    } else {
        let first = packets[ids[start as int] as usize].oob;
        let rest = packets.remove(ids[start as int] as usize);
        let run = if coalescing && first.cqe_type == CqeType::RxOkay {
            run_length(rest, ids, start, first.flags, 1)
        } else {
            Some(1nat)
        };
        match run {
            None => (Seq::empty(), rest, PostEnd::Broken),
            Some(count) => {
                let (left, all) = without_ids(rest, ids, start + 1, start + count);
                if !all || count == 0 {
                    (Seq::empty(), left, PostEnd::InvalidId)
                } else {
                    let (more, end, how) = completions(left, ids, start + count, coalescing);
                    (seq![joined(first, rest, ids, start, count)] + more, end, how)
                }
            },
        }
    }
}

/// The keys of the buffers of a list.
pub open spec fn as_keys(ids: Seq<u32>) -> Seq<usize> {
    ids.map_values(|id: u32| id as usize)
}

/// What puts completions of a receive queue on its completion queue.
pub open spec fn receive_posts(list: Seq<RxCompletionView>, cq_id: u32, wq_id: u32) -> Seq<
    CqPostView,
> {
    list.map_values(
        |completion: RxCompletionView|
            CqPostView { cq_id, cqe: CqeView::Rx(completion), wq_id, is_send: false },
    )
}

/// One data path task, between the guest's queues and one queue of the backend.
pub struct TxRxTask {
    pub pool: GuestBuffers,
    /// The guest send queues funneled through the backend queue. A transmit completion carries the
    /// index into this list, so that it is posted to the queue it came from.
    pub sqs: Vec<SqChannel>,
    pub rq_id: u32,
    pub rq_cq_id: u32,
    pub rx_buf_count: u32,
}

impl TxRxTask {
    pub open spec fn wf(&self) -> bool {
        self.pool.wf() && self.sqs@.len() > 0
    }

    /// The slot that a completion goes to; an index past the end stands for the last one.
    pub open spec fn channel(&self, slot: int) -> SqChannel {
        if slot < self.sqs@.len() {
            self.sqs@[slot]
        } else {
            self.sqs@.last()
        }
    }

    /// A transmit completion of a kind.
    pub open spec fn tx_post(&self, slot: int, cqe_type: CqeType) -> CqPostView {
        CqPostView {
            cq_id: self.channel(slot).sq_cq_id,
            cqe: CqeView::Tx { cqe_type },
            wq_id: self.channel(slot).sq_id,
            is_send: true,
        }
    }

    pub fn new(plan: TaskPlan) -> (ret: Self)
        requires
            plan@.sqs.len() > 0,
        ensures
            ret.wf(),
            ret.sqs@ == plan@.sqs,
            ret.rq_id == plan@.rq_id,
            ret.rq_cq_id == plan@.rq_cq_id,
            ret.rx_buf_count == 0,
            ret.pool.packets() == Map::<usize, PacketView>::empty(),
            ret.pool.rx_packets.keys() == Keys::none(),
            ret.pool.rss_key == plan@.rss_key,
    {
        TxRxTask {
            pool: GuestBuffers::new(plan.rss_key),
            sqs: plan.sqs,
            rq_id: plan.rq_id,
            rq_cq_id: plan.rq_cq_id,
            rx_buf_count: 0,
        }
    }

    /// What to poll, in this order; the first that is ready is serviced.
    ///
    /// A fence comes first: the driver blocks on it with a bounded timeout, and sustained traffic
    /// must not starve it. Receive buffers come before transmit requests, to avoid running out of
    /// them.
    pub fn poll_sources(&self) -> (ret: Vec<PollSource>)
        ensures
            ret@ == seq![PollSource::Fence] + (if self.rx_buf_count < MAX_RX_BUF {
                seq![PollSource::Rq]
            } else {
                Seq::empty()
            }) + Seq::new(self.sqs@.len(), |i: int| PollSource::Sq(i as usize)) + seq![
                PollSource::Backend,
            ],
            ret@ == poll_order(self.rx_buf_count, self.sqs@.len()),
    {
        let mut sources: Vec<PollSource> = Vec::new();
        sources.push(PollSource::Fence);
        if self.rx_buf_count < MAX_RX_BUF {
            sources.push(PollSource::Rq);
        }
        let ghost front = sources@;
        let mut slot: usize = 0;
        while slot < self.sqs.len()
            invariant
                slot <= self.sqs@.len(),
                sources@ =~= front + Seq::new(slot as nat, |i: int| PollSource::Sq(i as usize)),
            decreases self.sqs@.len() - slot,
        {
            sources.push(PollSource::Sq(slot));
            slot = slot + 1;
        }
        sources.push(PollSource::Backend);
        assert(front =~= seq![PollSource::Fence] + (if self.rx_buf_count < MAX_RX_BUF {
            seq![PollSource::Rq]
        } else {
            Seq::empty()
        }));
        assert(sources@ =~= front + Seq::new(
            self.sqs@.len(),
            |i: int| PollSource::Sq(i as usize),
        ) + seq![PollSource::Backend]);
        sources
    }

    fn tx_completion(&self, slot: usize, cqe_type: CqeType) -> (ret: CqPost)
        requires
            self.wf(),
        ensures
            ret@ == self.tx_post(slot as int, cqe_type),
    {
        let last: usize = self.sqs.len() - 1;
        let sq = self.sqs[if slot < last {
            slot
        } else {
            last
        }];
        CqPost {
            cq_id: sq.sq_cq_id,
            cqe: Cqe::Tx { cqe_type },
            wq_id: sq.sq_id,
            is_send: true,
        }
    }

    /// Completes a transmit request that was malformed.
    pub fn post_tx_completion_error(&self, slot: usize) -> (ret: CqPost)
        requires
            self.wf(),
        ensures
            ret@ == self.tx_post(slot as int, CqeType::TxGdmaErr),
    {
        self.tx_completion(slot, CqeType::TxGdmaErr)
    }

    /// Completes a transmit request.
    pub fn post_tx_completion(&self, slot: usize) -> (ret: CqPost)
        requires
            self.wf(),
        ensures
            ret@ == self.tx_post(slot as int, CqeType::TxOkay),
    {
        self.tx_completion(slot, CqeType::TxOkay)
    }

    /// What a transmit request comes to.
    pub open spec fn sqe_outcome(&self, slot: usize, sqe: Sqe) -> Result<
        SqeActionView,
        DatapathError,
    > {
        if sqe.oob is None {
            Err(DatapathError::OobTooSmall)
        } else if sqe.sgl@.len() == 0 {
            Err(DatapathError::NoSgl)
        } else if sqe.client_oob_in_sgl && (sqe.sgl@.len() < 2 || sqe.sgl@[0].size
            > MAX_LSO_HEADER) {
            Ok(SqeActionView::Reject(self.tx_post(slot as int, CqeType::TxGdmaErr)))
        } else {
            Ok(
                SqeActionView::Transmit(
                    tx_segments(
                        sqe.sgl@,
                        tx_metadata(
                            slot,
                            sqe.oob->0,
                            sqe.sgl@,
                            sqe.client_oob_in_sgl,
                            sqe.gd_client_unit_data,
                        ),
                    ),
                ),
            )
        }
    }

    /// Turns a transmit request into pieces for the backend.
    ///
    /// In a large send the first piece of memory is the header and the rest is the payload: the
    /// device requires the header to be at most 256 bytes long and at least one other piece, and
    /// completes a request that breaks this with an error.
    pub fn process_sqe(&self, slot: usize, sqe: Sqe) -> (ret: Result<SqeAction, DatapathError>)
        requires
            self.wf(),
            sqe.oob is Some ==> sqe.sgl@.len() <= u8::MAX && total_size(
                sqe.sgl@,
                sqe.sgl@.len(),
            ) <= u32::MAX,
        ensures
            match ret {
                Ok(action) => self.sqe_outcome(slot, sqe) == Ok::<SqeActionView, DatapathError>(
                    action@,
                ),
                Err(err) => self.sqe_outcome(slot, sqe) == Err::<SqeActionView, DatapathError>(err),
            },
    {
        let oob = match sqe.oob {
            Some(oob) => oob,
            None => {
                return Err(DatapathError::OobTooSmall);
            },
        };
        if sqe.sgl.len() == 0 {
            return Err(DatapathError::NoSgl);
        }
        let sge0 = sqe.sgl[0];
        let mut total_len: u32 = 0;
        let mut i: usize = 0;
        while i < sqe.sgl.len()
            invariant
                i <= sqe.sgl@.len(),
                total_len == total_size(sqe.sgl@, i as nat),
                total_size(sqe.sgl@, sqe.sgl@.len()) <= u32::MAX,
            decreases sqe.sgl@.len() - i,
        {
            proof {
                total_size_grows(sqe.sgl@, (i + 1) as nat, sqe.sgl@.len());
            }
            total_len = total_len + sqe.sgl[i].size;
            i = i + 1;
        }
        let mut l2_len: u16 = ETHERNET_HEADER_LEN;
        let mut vlan: Option<VlanMetadata> = None;
        if let Some(long) = oob.long {
            if oob.short.long_format && long.inject_vlan_pri_tag {
                l2_len = ETHERNET_VLAN_HEADER_LEN;
                vlan = Some(
                    VlanMetadata {
                        priority: long.pcp,
                        drop_eligible_indicator: long.dei,
                        vlan_id: long.vlan_id,
                    },
                );
            }
        }
        let trans_off: u16 = oob.short.trans_off;
        let l3_len: u16 = if trans_off < l2_len {
            0
        } else if trans_off > 255 {
            255 - l2_len
        } else {
            trans_off - l2_len
        };
        let mut meta = TxMetadata {
            id: slot as u32,
            segment_count: sqe.sgl.len() as u8,
            len: total_len,
            flags: TxFlags {
                offload_ip_header_checksum: oob.short.comp_iphdr_csum,
                offload_tcp_checksum: oob.short.comp_tcp_csum,
                offload_udp_checksum: oob.short.comp_udp_csum,
                offload_tcp_segmentation: false,
                is_ipv4: oob.short.is_outer_ipv4,
                is_ipv6: oob.short.is_outer_ipv6 && !oob.short.is_outer_ipv4,
            },
            l2_len: l2_len as u8,
            l3_len,
            l4_len: 0,
            transport_header_offset: trans_off,
            max_segment_size: 0,
            vlan,
        };
        if sqe.client_oob_in_sgl {
            let headers: u32 = l2_len as u32 + l3_len as u32;
            meta.l4_len = if sge0.size > headers {
                (sge0.size - headers) as u8
            } else {
                0
            };
            meta.max_segment_size = sqe.gd_client_unit_data;
            meta.flags.offload_tcp_segmentation = true;
            if sqe.sgl.len() < 2 || sge0.size > MAX_LSO_HEADER {
                return Ok(SqeAction::Reject(self.post_tx_completion_error(slot)));
            }
        }
        let mut segments: Vec<TxSegment> = Vec::new();
        let mut k: usize = 0;
        while k < sqe.sgl.len()
            invariant
                k <= sqe.sgl@.len(),
                segments@ =~= tx_segments(sqe.sgl@, meta).take(k as int),
            decreases sqe.sgl@.len() - k,
        {
            segments.push(
                TxSegment {
                    ty: if k == 0 {
                        TxSegmentType::Head(meta)
                    } else {
                        TxSegmentType::Tail
                    },
                    gpa: sqe.sgl[k].address,
                    len: sqe.sgl[k].size,
                },
            );
            k = k + 1;
        }
        assert(segments@ =~= tx_segments(sqe.sgl@, meta));
        Ok(SqeAction::Transmit(segments))
    }

    /// What follows once the backend took a packet: it is completed at once if the backend is
    /// done with it, or took none of it.
    pub fn transmitted(&self, slot: usize, sync: bool, count: usize) -> (ret: Option<CqPost>)
        requires
            self.wf(),
        ensures
            match ret {
                Some(post) => (sync || count == 0) && post@ == self.tx_post(
                    slot as int,
                    CqeType::TxOkay,
                ),
                None => !sync && count > 0,
            },
            ret is Some <==> completes_at_once(sync, count),
    {
        if sync || count == 0 {
            Some(self.post_tx_completion(slot))
        } else {
            None
        }
    }

    /// Takes a receive buffer from the guest. Returns the identifier under which the backend is
    /// offered it.
    pub fn process_rqe(&mut self, sgl: Vec<Sge>, wqe_offset: u32) -> (ret: u32)
        requires
            old(self).wf(),
            old(self).rx_buf_count < MAX_RX_BUF,
            total_size(sgl@, sgl@.len()) <= u32::MAX,
        ensures
            final(self).wf(),
            ({
                let keys = old(self).pool.rx_packets.keys();
                let key = keys.next();
                &&& ret == key as u32
                &&& final(self).pool.rx_packets.keys() == keys.take()
                &&& !old(self).pool.packets().contains_key(key)
                &&& final(self).pool.packets() == old(self).pool.packets().insert(
                    key,
                    PacketView {
                        segments: sgl@,
                        len: total_size(sgl@, sgl@.len()) as u32,
                        wqe_offset,
                        hash: None,
                        oob: RxCompletionView::blank(),
                    },
                )
                &&& final(self).pool.packets()[key] == posted_buffer(sgl@, wqe_offset)
            }),
            final(self).rx_buf_count == old(self).rx_buf_count + 1,
            final(self).pool.rss_key == old(self).pool.rss_key,
            final(self).sqs@ == old(self).sqs@,
            final(self).rq_id == old(self).rq_id,
            final(self).rq_cq_id == old(self).rq_cq_id,
    {
        let mut len: u32 = 0;
        let mut i: usize = 0;
        while i < sgl.len()
            invariant
                i <= sgl@.len(),
                len == total_size(sgl@, i as nat),
                total_size(sgl@, sgl@.len()) <= u32::MAX,
            decreases sgl@.len() - i,
        {
            proof {
                total_size_grows(sgl@, (i + 1) as nat, sgl@.len());
            }
            len = len + sgl[i].size;
            i = i + 1;
        }
        self.rx_buf_count = self.rx_buf_count + 1;
        let packet = RxPacket {
            segments: sgl,
            len,
            wqe_offset,
            hash: None,
            oob: RxCompletion {
                cqe_type: CqeType::Unset,
                flags: RxFlags::none(),
                packets: Vec::new(),
                rx_wqe_offset: 0,
            },
        };
        assert(packet@.oob =~= RxCompletionView::blank());
        let key: usize = self.pool.rx_packets.insert(packet);
        assert(self.pool.packets() =~= old(self).pool.packets().insert(key, packet@));
        assert forall|other: usize| self.pool.packets().contains_key(other) implies (
        #[trigger] self.pool.packets()[other]).valid() by {
            if other != key {
                assert(old(self).pool.packets().contains_key(other));
                assert(old(self).pool.packets()[other].valid());
            }
        }
        key as u32
    }

    /// How many received packets to ask the backend for at a time: as many as a coalesced
    /// completion can tell of, or one.
    pub fn rx_poll_limit(coalescing: bool) -> (ret: usize)
        ensures
            ret == if coalescing {
                MANA_RXCOMP_OOB_NUM_PPI
            } else {
                1
            },
            ret == packets_at_a_time(coalescing),
    {
        if coalescing {
            MANA_RXCOMP_OOB_NUM_PPI
        } else {
            1
        }
    }
}

/// The end of a run of packets that go into one completion lies within the list.
proof fn run_length_bounds(
    packets: Map<usize, PacketView>,
    ids: Seq<u32>,
    start: nat,
    flags: RxFlags,
    count: nat,
)
    requires
        start + count <= ids.len(),
        count <= MANA_RXCOMP_OOB_NUM_PPI,
    ensures
        run_length(packets, ids, start, flags, count) matches Some(end) ==> {
            &&& count <= end <= MANA_RXCOMP_OOB_NUM_PPI
            &&& start + end <= ids.len()
            &&& forall|k: int|
                start + count <= k < start + end ==> {
                    let id = #[trigger] ids[k] as usize;
                    &&& packets.contains_key(id)
                    &&& packets[id].oob.cqe_type == CqeType::RxOkay
                    &&& packets[id].oob.flags == flags
                }
        },
    decreases MANA_RXCOMP_OOB_NUM_PPI - count,
{
    if start + count < ids.len() && count < MANA_RXCOMP_OOB_NUM_PPI {
        let id = ids[(start + count) as int] as usize;
        if packets.contains_key(id) && packets[id].oob.cqe_type == CqeType::RxOkay
            && packets[id].oob.flags == flags {
            run_length_bounds(packets, ids, start, flags, count + 1);
        }
    }
}

impl TxRxTask {
    /// Removes the buffers at `from .. to` of a list; whether all of them existed.
    fn remove_ids(&mut self, ids: &[u32], from: usize, to: usize) -> (ret: bool)
        requires
            old(self).wf(),
            from <= to <= ids@.len(),
        ensures
            final(self).wf(),
            final(self).pool.packets() == without_ids(
                old(self).pool.packets(),
                ids@,
                from as nat,
                to as nat,
            ).0,
            ret == without_ids(old(self).pool.packets(), ids@, from as nat, to as nat).1,
            final(self).same_queues(old(self)),
            ret ==> final(self).pool.rx_packets.released() == old(self).pool.rx_packets.released()
                + as_keys(ids@.subrange(from as int, to as int)),
    {
        let mut i: usize = from;
        while i < to
            invariant
                self.wf(),
                from <= i <= to <= ids@.len(),
                without_ids(old(self).pool.packets(), ids@, from as nat, to as nat) == without_ids(
                    self.pool.packets(),
                    ids@,
                    i as nat,
                    to as nat,
                ),
                self.same_queues(old(self)),
                self.pool.rx_packets.released() =~= old(self).pool.rx_packets.released() + as_keys(
                    ids@.subrange(from as int, i as int),
                ),
            decreases to - i,
        {
            let ghost before = self.pool.packets();
            let removed = self.pool.rx_packets.try_remove(ids[i] as usize);
            assert(self.pool.packets() =~= before.remove(ids@[i as int] as usize));
            assert(self.pool.wf());
            if removed.is_none() {
                assert(before.remove(ids@[i as int] as usize) =~= before);
                return false;
            }
            i = i + 1;
        }
        true
    }

    /// Whether nothing but the receive buffers differs.
    pub open spec fn same_queues(&self, other: &TxRxTask) -> bool {
        &&& self.sqs@ == other.sqs@
        &&& self.rq_id == other.rq_id
        &&& self.rq_cq_id == other.rq_cq_id
        &&& self.rx_buf_count == other.rx_buf_count
        &&& self.pool.rss_key == other.pool.rss_key
    }

    /// Posts receive completions for `ids` (given in the order in which the buffers were posted).
    ///
    /// With coalescing on, a maximal run of consecutive packets that were received well and carry
    /// the same flags, which the driver reads once per completion and applies to every packet of
    /// it, is packed into one coalesced completion. A run of one, and any other completion (such
    /// as a truncation), is posted on its own. The driver consumes one posted buffer per packet,
    /// in order, so coalescing never changes which buffer a packet lands in.
    ///
    /// The completions that were posted before a failure stay posted.
    pub fn post_rx_completions(&mut self, ids: &[u32], coalescing: bool) -> (ret: (
        Vec<CqPost>,
        Result<(), DatapathError>,
    ))
        requires
            old(self).wf(),
            completions(old(self).pool.packets(), ids@, 0, coalescing).2 != PostEnd::Broken,
        ensures
            final(self).wf(),
            final(self).same_queues(old(self)),
            ({
                let (list, left, how) = completions(
                    old(self).pool.packets(),
                    ids@,
                    0,
                    coalescing,
                );
                &&& ret.0@.map_values(|post: CqPost| post@) == receive_posts(
                    list,
                    old(self).rq_cq_id,
                    old(self).rq_id,
                )
                &&& final(self).pool.packets() == left
                &&& how == PostEnd::Done ==> final(self).pool.rx_packets.released() == old(
                    self,
                ).pool.rx_packets.released() + as_keys(ids@)
                &&& ret.1 == if how == PostEnd::Done {
                    Ok::<(), DatapathError>(())
                } else {
                    Err::<(), DatapathError>(DatapathError::InvalidRxId)
                }
            }),
    {
        let mut posts: Vec<CqPost> = Vec::new();
        let mut start: usize = 0;
        let ghost all = completions(self.pool.packets(), ids@, 0, coalescing);
        let ghost mut posted: Seq<RxCompletionView> = Seq::empty();
        assert(posted + all.0 =~= all.0);
        while start < ids.len()
            invariant
                self.wf(),
                self.same_queues(old(self)),
                start <= ids@.len(),
                all == completions(old(self).pool.packets(), ids@, 0, coalescing),
                all.2 != PostEnd::Broken,
                ({
                    let (list, left, how) = completions(
                        self.pool.packets(),
                        ids@,
                        start as nat,
                        coalescing,
                    );
                    all == (posted + list, left, how)
                }),
                self.pool.rx_packets.released() =~= old(self).pool.rx_packets.released() + as_keys(
                    ids@.take(start as int),
                ),
                posts@.map_values(|post: CqPost| post@) == receive_posts(
                    posted,
                    self.rq_cq_id,
                    self.rq_id,
                ),
            decreases ids@.len() - start,
        {
            let ghost before = self.pool.packets();
            let ghost id0 = ids@[start as int] as usize;
            let first = match self.pool.rx_packets.try_remove(ids[start] as usize) {
                Some(first) => first,
                None => {
                    assert(self.pool.packets() =~= before);
                    assert(self.pool.wf());
                    assert(posted + Seq::<RxCompletionView>::empty() =~= posted);
                    return (posts, Err(DatapathError::InvalidRxId));
                },
            };
            let ghost rest = before.remove(id0);
            assert(self.pool.packets() =~= rest);
            assert(before.contains_key(id0) && before[id0] == first@ && first@.valid());
            assert(self.pool.wf());
            let mut oob = first.oob;
            let ghost own = oob@;
            let can_coalesce = coalescing && oob.cqe_type == CqeType::RxOkay;
            let first_flags = oob.flags;
            let mut count: usize = 1;
            if can_coalesce {
                while count < ids.len() - start && count < MANA_RXCOMP_OOB_NUM_PPI
                    invariant_except_break
                        1 <= count <= MANA_RXCOMP_OOB_NUM_PPI,
                        start + count <= ids@.len(),
                        self.pool.wf(),
                        self.pool.packets() == rest,
                        first_flags == own.flags,
                        own.packets.len() == 1,
                        run_length(rest, ids@, start as nat, first_flags, 1) is Some,
                        run_length(rest, ids@, start as nat, first_flags, 1) == run_length(
                            rest,
                            ids@,
                            start as nat,
                            first_flags,
                            count as nat,
                        ),
                        oob.cqe_type == own.cqe_type,
                        oob.flags == own.flags,
                        oob.rx_wqe_offset == own.rx_wqe_offset,
                        oob.packets@ =~= own.packets + Seq::new(
                            (count - 1) as nat,
                            |k: int| rest[ids@[start + 1 + k] as usize].oob.packets[0],
                        ),
                    ensures
                        1 <= count <= MANA_RXCOMP_OOB_NUM_PPI,
                        start + count <= ids@.len(),
                        run_length(rest, ids@, start as nat, first_flags, 1) == Some(count as nat),
                        oob.cqe_type == own.cqe_type,
                        oob.flags == own.flags,
                        oob.rx_wqe_offset == own.rx_wqe_offset,
                        oob.packets@ =~= own.packets + Seq::new(
                            (count - 1) as nat,
                            |k: int| rest[ids@[start + 1 + k] as usize].oob.packets[0],
                        ),
                    decreases MANA_RXCOMP_OOB_NUM_PPI - count,
                {
                    let next = self.pool.rx_packets.get(ids[start + count] as usize).unwrap();
                    assert(rest[ids@[start + count] as usize] == next@);
                    if next.oob.cqe_type != CqeType::RxOkay || next.oob.flags != first_flags {
                        break;
                    }
                    assert(next@.valid());
                    oob.packets.push(next.oob.packets[0]);
                    count = count + 1;
                }
            }
            if count > 1 {
                oob.cqe_type = CqeType::RxCoalesced4;
                if !self.remove_ids(ids, start + 1, start + count) {
                    assert(posted + Seq::<RxCompletionView>::empty() =~= posted);
                    return (posts, Err(DatapathError::InvalidRxId));
                }
            }
            let ghost whole = joined(own, rest, ids@, start as nat, count as nat);
            let ghost before_posts = posts@.map_values(|post: CqPost| post@);
            proof {
                assert(oob@.packets =~= whole.packets);
                assert(oob@ == whole);
                let more = completions(
                    self.pool.packets(),
                    ids@,
                    (start + count) as nat,
                    coalescing,
                ).0;
                assert(posted + (seq![whole] + more) =~= posted.push(whole) + more);
                posted = posted.push(whole);
            }
            let post = CqPost {
                cq_id: self.rq_cq_id,
                cqe: Cqe::Rx(oob),
                wq_id: self.rq_id,
                is_send: false,
            };
            assert(post@.cqe == CqeView::Rx(whole));
            posts.push(post);
            assert(posts@.map_values(|post: CqPost| post@) =~= before_posts.push(post@));
            assert(receive_posts(posted, self.rq_cq_id, self.rq_id) =~= receive_posts(
                posted.drop_last(),
                self.rq_cq_id,
                self.rq_id,
            ).push(post@));
            assert(posted.drop_last().push(whole) =~= posted);
            start = start + count;
        }
        assert(posted + Seq::<RxCompletionView>::empty() =~= posted);
        assert(ids@.take(start as int) =~= ids@);
        (posts, Ok(()))
    }
}

/// The buffers without the first `n` of a list.
spec fn remaining(packets: Map<usize, PacketView>, ids: Seq<u32>, n: int) -> Map<
    usize,
    PacketView,
> {
    Map::new(
        |id: usize|
            packets.contains_key(id) && !exists|j: int|
                0 <= j < n && #[trigger] ids[j] as usize == id,
        |id: usize| packets[id],
    )
}

/// One buffer more is gone.
proof fn remaining_without_the_next(packets: Map<usize, PacketView>, ids: Seq<u32>, n: int)
    requires
        0 <= n < ids.len(),
    ensures
        remaining(packets, ids, n).remove(ids[n] as usize) == remaining(packets, ids, n + 1),
{
    let removed = remaining(packets, ids, n).remove(ids[n] as usize);
    let next = remaining(packets, ids, n + 1);
    assert forall|id: usize| removed.contains_key(id) == #[trigger] next.contains_key(id) by {
        if removed.contains_key(id) && exists|j: int|
            0 <= j < n + 1 && #[trigger] ids[j] as usize == id {
            let j = choose|j: int| 0 <= j < n + 1 && #[trigger] ids[j] as usize == id;
            assert(j < n);
        }
        if next.contains_key(id) {
            assert(ids[n] as usize != id);
        }
    }
    assert(removed =~= next);
}

impl TxRxTask {
    /// Whether a buffer is among those that are left once the first `n` of a list are gone.
    fn remains(&self, ids: &[u32], n: usize, id: u32) -> (ret: bool)
        requires
            self.wf(),
            n <= ids@.len(),
        ensures
            ret == remaining(self.pool.packets(), ids@, n as int).contains_key(id as usize),
    {
        let mut i: usize = 0;
        while i < n
            invariant
                i <= n <= ids@.len(),
                forall|j: int| 0 <= j < i ==> #[trigger] ids@[j] != id,
            decreases n - i,
        {
            if ids[i] == id {
                assert(ids@[i as int] as usize == id as usize);
                return false;
            }
            i = i + 1;
        }
        self.pool.rx_packets.contains(id as usize)
    }

    /// Whether the buffers at `from .. to` of a list can be taken one after the other, once those
    /// before them are gone.
    fn remain_all(&self, ids: &[u32], from: usize, to: usize) -> (ret: bool)
        requires
            self.wf(),
            from <= to <= ids@.len(),
        ensures
            ({
                let (left, all) = without_ids(
                    remaining(self.pool.packets(), ids@, from as int),
                    ids@,
                    from as nat,
                    to as nat,
                );
                &&& ret == all
                &&& ret ==> left == remaining(self.pool.packets(), ids@, to as int)
            }),
    {
        let ghost packets = self.pool.packets();
        let mut i: usize = from;
        while i < to
            invariant
                self.wf(),
                packets == self.pool.packets(),
                from <= i <= to <= ids@.len(),
                without_ids(remaining(packets, ids@, from as int), ids@, from as nat, to as nat)
                    == without_ids(remaining(packets, ids@, i as int), ids@, i as nat, to as nat),
            decreases to - i,
        {
            if !self.remains(ids, i, ids[i]) {
                return false;
            }
            proof {
                remaining_without_the_next(packets, ids@, i as int);
            }
            i = i + 1;
        }
        true
    }

    /// How completing the packets in the given buffers will end.
    pub fn received_end(&self, ids: &[u32], coalescing: bool) -> (ret: PostEnd)
        requires
            self.wf(),
        ensures
            ret == completions(self.pool.packets(), ids@, 0, coalescing).2,
    {
        let ghost packets = self.pool.packets();
        let mut start: usize = 0;
        assert(remaining(packets, ids@, 0) =~= packets);
        while start < ids.len()
            invariant
                self.wf(),
                packets == self.pool.packets(),
                start <= ids@.len(),
                completions(packets, ids@, 0, coalescing).2 == completions(
                    remaining(packets, ids@, start as int),
                    ids@,
                    start as nat,
                    coalescing,
                ).2,
            decreases ids@.len() - start,
        {
            if !self.remains(ids, start, ids[start]) {
                return PostEnd::InvalidId;
            }
            proof {
                remaining_without_the_next(packets, ids@, start as int);
            }
            let ghost rest = remaining(packets, ids@, start + 1);
            let first = self.pool.rx_packets.get(ids[start] as usize).unwrap();
            assert(packets[ids@[start as int] as usize] == first@);
            let mut count: usize = 1;
            if coalescing && first.oob.cqe_type == CqeType::RxOkay {
                while count < ids.len() - start && count < MANA_RXCOMP_OOB_NUM_PPI
                    invariant_except_break
                        1 <= count <= MANA_RXCOMP_OOB_NUM_PPI,
                        start + count <= ids@.len(),
                        self.wf(),
                        packets == self.pool.packets(),
                        rest == remaining(packets, ids@, start + 1),
                        coalescing,
                        first.oob.cqe_type == CqeType::RxOkay,
                        run_length(rest, ids@, start as nat, first.oob.flags, 1) == run_length(
                            rest,
                            ids@,
                            start as nat,
                            first.oob.flags,
                            count as nat,
                        ),
                        completions(packets, ids@, 0, coalescing).2 == completions(
                            remaining(packets, ids@, start as int),
                            ids@,
                            start as nat,
                            coalescing,
                        ).2,
                        remaining(packets, ids@, start as int).contains_key(
                            ids@[start as int] as usize,
                        ),
                        remaining(packets, ids@, start as int).remove(ids@[start as int] as usize)
                            == rest,
                        packets[ids@[start as int] as usize] == first@,
                    ensures
                        1 <= count <= MANA_RXCOMP_OOB_NUM_PPI,
                        start + count <= ids@.len(),
                        run_length(rest, ids@, start as nat, first.oob.flags, 1) == Some(
                            count as nat,
                        ),
                    decreases MANA_RXCOMP_OOB_NUM_PPI - count,
                {
                    if !self.remains(ids, start + 1, ids[start + count]) {
                        return PostEnd::Broken;
                    }
                    let next = self.pool.rx_packets.get(ids[start + count] as usize).unwrap();
                    assert(rest[ids@[start + count] as usize] == next@);
                    if next.oob.cqe_type != CqeType::RxOkay || next.oob.flags != first.oob.flags {
                        break;
                    }
                    count = count + 1;
                }
            }
            if !self.remain_all(ids, start + 1, start + count) {
                return PostEnd::InvalidId;
            }
            start = start + count;
        }
        PostEnd::Done
    }

    /// Completes the packets that the backend received into the given buffers.
    pub fn process_received(&mut self, ids: &[u32], coalescing: bool) -> (ret: (
        Vec<CqPost>,
        Result<(), DatapathError>,
    ))
        requires
            old(self).wf(),
            completions(old(self).pool.packets(), ids@, 0, coalescing).2 != PostEnd::Broken,
            completions(old(self).pool.packets(), ids@, 0, coalescing).2 == PostEnd::Done
                ==> ids@.len() <= old(self).rx_buf_count,
        ensures
            final(self).wf(),
            final(self).sqs@ == old(self).sqs@,
            final(self).rq_id == old(self).rq_id,
            final(self).rq_cq_id == old(self).rq_cq_id,
            final(self).pool.rss_key == old(self).pool.rss_key,
            ({
                let (list, left, how) = completions(
                    old(self).pool.packets(),
                    ids@,
                    0,
                    coalescing,
                );
                &&& ret.0@.map_values(|post: CqPost| post@) == receive_posts(
                    list,
                    old(self).rq_cq_id,
                    old(self).rq_id,
                )
                &&& final(self).pool.packets() == left
                &&& if how == PostEnd::Done {
                    &&& ret.1 == Ok::<(), DatapathError>(())
                    &&& final(self).rx_buf_count == old(self).rx_buf_count - ids@.len()
                    &&& final(self).pool.rx_packets.released() == old(
                        self,
                    ).pool.rx_packets.released() + as_keys(ids@)
                } else {
                    &&& ret.1 == Err::<(), DatapathError>(DatapathError::InvalidRxId)
                    &&& final(self).rx_buf_count == old(self).rx_buf_count
                }
            }),
    {
        let (posts, result) = self.post_rx_completions(ids, coalescing);
        if result.is_ok() {
            self.rx_buf_count = self.rx_buf_count - ids.len() as u32;
        }
        (posts, result)
    }

    /// One step towards answering a fence: completes the packets that the backend had ready, or,
    /// where it had none left, completes the fence. Tells whether the fence is answered.
    ///
    /// A task is the sole producer of its receive completions, so the driver observes all prior
    /// ones ahead of the fence.
    pub fn post_fence(&mut self, ids: &[u32], coalescing: bool) -> (ret: (
        Vec<CqPost>,
        Result<bool, DatapathError>,
    ))
        requires
            old(self).wf(),
            completions(old(self).pool.packets(), ids@, 0, coalescing).2 != PostEnd::Broken,
            completions(old(self).pool.packets(), ids@, 0, coalescing).2 == PostEnd::Done
                ==> ids@.len() <= old(self).rx_buf_count,
        ensures
            final(self).wf(),
            final(self).sqs@ == old(self).sqs@,
            final(self).rq_id == old(self).rq_id,
            final(self).rq_cq_id == old(self).rq_cq_id,
            final(self).pool.rss_key == old(self).pool.rss_key,
            ({
                let (list, left, how) = completions(
                    old(self).pool.packets(),
                    ids@,
                    0,
                    coalescing,
                );
                &&& ret.0@.map_values(|post: CqPost| post@) == receive_posts(
                    if ids@.len() == 0 {
                        seq![RxCompletionView::fence()]
                    } else {
                        list
                    },
                    old(self).rq_cq_id,
                    old(self).rq_id,
                )
                &&& ret.0@.map_values(|post: CqPost| post@) == receive_posts(
                    fence_step(old(self).pool.packets(), ids@, coalescing),
                    old(self).rq_cq_id,
                    old(self).rq_id,
                )
                &&& final(self).pool.packets() == left
                &&& if how == PostEnd::Done {
                    &&& ret.1 == Ok::<bool, DatapathError>(ids@.len() == 0)
                    &&& final(self).rx_buf_count == old(self).rx_buf_count - ids@.len()
                    &&& final(self).pool.rx_packets.released() == old(
                        self,
                    ).pool.rx_packets.released() + as_keys(ids@)
                } else {
                    &&& ret.1 == Err::<bool, DatapathError>(DatapathError::InvalidRxId)
                    &&& final(self).rx_buf_count == old(self).rx_buf_count
                }
            }),
    {
        if ids.len() == 0 {
            let mut posts: Vec<CqPost> = Vec::new();
            posts.push(
                CqPost {
                    cq_id: self.rq_cq_id,
                    cqe: Cqe::Rx(fence_completion()),
                    wq_id: self.rq_id,
                    is_send: false,
                },
            );
            assert(posts@.map_values(|post: CqPost| post@) =~= receive_posts(
                seq![RxCompletionView::fence()],
                self.rq_cq_id,
                self.rq_id,
            ));
            assert(self.pool.rx_packets.released() + as_keys(ids@)
                =~= self.pool.rx_packets.released());
            return (posts, Ok(true));
        }
        let (posts, result) = self.process_received(ids, coalescing);
        match result {
            Ok(()) => (posts, Ok(false)),
            Err(err) => (posts, Err(err)),
        }
    }
}

/// Whether every buffer's completion is well-formed.
pub open spec fn all_valid(packets: Map<usize, PacketView>) -> bool {
    forall|id: usize| #[trigger] packets.contains_key(id) ==> packets[id].valid()
}

/// Whether one set of buffers is part of another.
pub open spec fn part_of(part: Map<usize, PacketView>, whole: Map<usize, PacketView>) -> bool {
    forall|id: usize| #[trigger]
        part.contains_key(id) ==> whole.contains_key(id) && part[id] == whole[id]
}

proof fn without_ids_is_part(packets: Map<usize, PacketView>, ids: Seq<u32>, from: nat, to: nat)
    ensures
        part_of(without_ids(packets, ids, from, to).0, packets),
        without_ids(packets, ids, from, to).1 ==> forall|k: int|
            from <= k < to ==> packets.contains_key(#[trigger] ids[k] as usize)
                && !without_ids(packets, ids, from, to).0.contains_key(ids[k] as usize),
    decreases to - from,
{
    if from < to && packets.contains_key(ids[from as int] as usize) {
        without_ids_is_part(packets.remove(ids[from as int] as usize), ids, from + 1, to);
    }
}

/// What the completions of a list tell, packet by packet.
pub open spec fn told(list: Seq<RxCompletionView>) -> Seq<PacketInfo>
    decreases list.len(),
{
    if list.len() == 0 {
        Seq::empty()
    } else {
        list[0].packets + told(list.drop_first())
    }
}

/// What the buffers from `start` on hold, packet by packet.
pub open spec fn held(packets: Map<usize, PacketView>, ids: Seq<u32>, start: nat) -> Seq<PacketInfo>
    decreases ids.len() - start,
{
    if start >= ids.len() {
        Seq::empty()
    } else {
        packets[ids[start as int] as usize].oob.packets + held(packets, ids, start + 1)
    }
}

/// Which buffers are looked at from `start` on is all that `held` depends on.
proof fn held_of_equal_buffers(
    a: Map<usize, PacketView>,
    b: Map<usize, PacketView>,
    ids: Seq<u32>,
    start: nat,
)
    requires
        forall|k: int| start <= k < ids.len() ==> a[#[trigger] ids[k] as usize] == b[ids[k] as usize],
    ensures
        held(a, ids, start) == held(b, ids, start),
    decreases ids.len() - start,
{
    if start < ids.len() {
        held_of_equal_buffers(a, b, ids, start + 1);
    }
}

/// What a run of packets holds comes before what the rest holds.
proof fn held_run(packets: Map<usize, PacketView>, ids: Seq<u32>, start: nat, count: nat)
    requires
        start + count <= ids.len(),
        forall|k: int|
            start <= k < start + count ==> packets[#[trigger] ids[k] as usize].oob.packets.len()
                == 1,
    ensures
        held(packets, ids, start) == Seq::new(
            count,
            |k: int| packets[ids[start + k] as usize].oob.packets[0],
        ) + held(packets, ids, start + count),
    decreases count,
{
    if count > 0 {
        held_run(packets, ids, start + 1, (count - 1) as nat);
        let rest = Seq::new(
            (count - 1) as nat,
            |k: int| packets[ids[start + 1 + k] as usize].oob.packets[0],
        );
        let all = Seq::new(count, |k: int| packets[ids[start + k] as usize].oob.packets[0]);
        assert(packets[ids[start as int] as usize].oob.packets.len() == 1);
        assert(packets[ids[start as int] as usize].oob.packets + rest =~= all);
        assert(held(packets, ids, start) =~= all + held(packets, ids, start + count));
    } else {
        assert(Seq::new(0, |k: int| packets[ids[start + k] as usize].oob.packets[0]) + held(
            packets,
            ids,
            start,
        ) =~= held(packets, ids, start));
    }
}

/// The well-formedness of a single completion: it tells of at most four packets, a coalesced one
/// of at least two, and any other one is some packet's own.
pub open spec fn well_packed(completion: RxCompletionView, packets: Map<usize, PacketView>) -> bool {
    if completion.cqe_type == CqeType::RxCoalesced4 {
        2 <= completion.packets.len() <= MANA_RXCOMP_OOB_NUM_PPI
    } else {
        exists|id: usize| #[trigger] packets.contains_key(id) && completion == packets[id].oob
    }
}

/// Coalescing loses and reorders nothing: once all buffers are completed, the completions tell of
/// every packet, in the order of the buffers; each tells of at most four, a batch of one is
/// reported as that packet's own completion, and the buffers are gone.
pub proof fn coalescing_keeps_every_packet_in_order(
    packets: Map<usize, PacketView>,
    ids: Seq<u32>,
    start: nat,
    coalescing: bool,
)
    requires
        all_valid(packets),
        start <= ids.len(),
        completions(packets, ids, start, coalescing).2 == PostEnd::Done,
    ensures
        ({
            let (list, left, how) = completions(packets, ids, start, coalescing);
            &&& told(list) == held(packets, ids, start)
            &&& part_of(left, packets)
            &&& forall|k: int|
                start <= k < ids.len() ==> packets.contains_key(#[trigger] ids[k] as usize)
                    && !left.contains_key(ids[k] as usize)
            &&& forall|i: int| 0 <= i < list.len() ==> well_packed(#[trigger] list[i], packets)
            &&& !coalescing ==> list.len() == ids.len() - start && forall|i: int|
                0 <= i < list.len() ==> #[trigger] list[i]
                    == packets[ids[start + i] as usize].oob
        }),
    decreases ids.len() - start,
{
    let (list, left, how) = completions(packets, ids, start, coalescing);
    if start < ids.len() {
        let id0 = ids[start as int] as usize;
        let first = packets[id0].oob;
        let rest = packets.remove(id0);
        assert(packets[id0].valid());
        let run = if coalescing && first.cqe_type == CqeType::RxOkay {
            run_length(rest, ids, start, first.flags, 1)
        } else {
            Some(1nat)
        };
        let count = run->0;
        if coalescing && first.cqe_type == CqeType::RxOkay {
            run_length_bounds(rest, ids, start, first.flags, 1);
        }
        without_ids_is_part(rest, ids, start + 1, start + count);
        let after = without_ids(rest, ids, start + 1, start + count).0;
        assert(all_valid(after)) by {
            assert forall|id: usize| #[trigger] after.contains_key(id) implies after[id].valid() by {
                assert(rest.contains_key(id));
                assert(packets.contains_key(id));
            }
        }
        coalescing_keeps_every_packet_in_order(after, ids, start + count, coalescing);
        let (more, end, _) = completions(after, ids, start + count, coalescing);
        let whole = joined(first, rest, ids, start, count);
        assert(list == seq![whole] + more);
        assert(list.drop_first() =~= more);
        assert(told(list) == whole.packets + told(more));
        assert forall|k: int| start + count <= k < ids.len() implies after[
            #[trigger] ids[k] as usize
        ] == packets[ids[k] as usize] by {
            assert(after.contains_key(ids[k] as usize));
            assert(rest.contains_key(ids[k] as usize));
        }
        held_of_equal_buffers(after, packets, ids, start + count);
        if count == 1 {
            assert(told(list) =~= held(packets, ids, start));
            assert(well_packed(whole, packets));
        } else {
            assert forall|k: int| start <= k < start + count implies packets[
                #[trigger] ids[k] as usize
            ].oob.packets.len() == 1 by {
                if k > start {
                    assert(rest.contains_key(ids[k] as usize));
                    assert(packets.contains_key(ids[k] as usize));
                    assert(packets[ids[k] as usize].valid());
                }
            }
            held_run(packets, ids, start, count);
            let all = Seq::new(count, |k: int| packets[ids[start + k] as usize].oob.packets[0]);
            assert forall|k: int| 0 <= k < count - 1 implies packets[
                #[trigger] ids[start + 1 + k] as usize
            ] == rest[ids[start + 1 + k] as usize] by {
                assert(rest.contains_key(ids[start + 1 + k] as usize));
            }
            assert(whole.packets =~= all);
        }
        assert forall|i: int| 0 <= i < list.len() implies well_packed(
            #[trigger] list[i],
            packets,
        ) by {
            if i > 0 {
                assert(list[i] == more[i - 1]);
                assert(well_packed(more[i - 1], after));
                if list[i].cqe_type != CqeType::RxCoalesced4 {
                    let id = choose|id: usize| #[trigger]
                        after.contains_key(id) && list[i] == after[id].oob;
                    assert(rest.contains_key(id));
                    assert(packets.contains_key(id) && list[i] == packets[id].oob);
                }
            }
        }
        assert forall|id: usize| #[trigger] left.contains_key(id) implies packets.contains_key(id)
            && left[id] == packets[id] by {
            assert(after.contains_key(id));
            assert(rest.contains_key(id));
        }
        assert forall|k: int| start <= k < ids.len() implies packets.contains_key(
            #[trigger] ids[k] as usize,
        ) && !left.contains_key(ids[k] as usize) by {
            if k >= start + count {
                assert(after.contains_key(ids[k] as usize));
                assert(rest.contains_key(ids[k] as usize));
            } else if k > start {
                assert(rest.contains_key(ids[k] as usize));
                assert(!after.contains_key(ids[k] as usize));
            } else {
                assert(!rest.contains_key(id0));
                assert(!after.contains_key(id0));
            }
        }
        if !coalescing {
            assert forall|i: int| 0 <= i < list.len() implies #[trigger] list[i]
                == packets[ids[start + i] as usize].oob by {
                if i > 0 {
                    assert(list[i] == more[i - 1]);
                    assert(after.contains_key(ids[start + i] as usize));
                    assert(rest.contains_key(ids[start + i] as usize));
                }
            }
        }
    }
}

/// What is posted towards answering a fence, given the buffers that the backend had ready: their
/// completions, or, where it had none left, the completion of the fence.
pub open spec fn fence_step(
    packets: Map<usize, PacketView>,
    ids: Seq<u32>,
    coalescing: bool,
) -> Seq<RxCompletionView> {
    if ids.len() == 0 {
        seq![RxCompletionView::fence()]
    } else {
        completions(packets, ids, 0, coalescing).0
    }
}

/// What is posted from a fence request on, given what the backend has ready each time it is asked,
/// until it has nothing.
pub open spec fn fence_completions(
    packets: Map<usize, PacketView>,
    batches: Seq<Seq<u32>>,
    coalescing: bool,
) -> Seq<RxCompletionView>
    decreases batches.len(),
{
    if batches.len() == 0 {
        seq![RxCompletionView::fence()]
    } else {
        let (list, left, how) = completions(packets, batches[0], 0, coalescing);
        list + fence_completions(left, batches.drop_first(), coalescing)
    }
}

/// Whether the backend returns only buffers that it was given.
pub open spec fn all_received(
    packets: Map<usize, PacketView>,
    batches: Seq<Seq<u32>>,
    coalescing: bool,
) -> bool
    decreases batches.len(),
{
    batches.len() > 0 ==> {
        let (list, left, how) = completions(packets, batches[0], 0, coalescing);
        how == PostEnd::Done && all_received(left, batches.drop_first(), coalescing)
    }
}

/// A fence is a barrier: its completion comes last, behind the completions of every packet that
/// was ready, and nothing before it is taken for a fence.
pub proof fn fence_comes_after_every_receive(
    packets: Map<usize, PacketView>,
    batches: Seq<Seq<u32>>,
    coalescing: bool,
)
    requires
        all_valid(packets),
        all_received(packets, batches, coalescing),
    ensures
        ({
            let posted = fence_completions(packets, batches, coalescing);
            &&& posted.len() > 0
            &&& posted.last() == RxCompletionView::fence()
            &&& forall|i: int|
                0 <= i < posted.len() - 1 ==> (#[trigger] posted[i]).cqe_type
                    != CqeType::RxObjectFence
        }),
    decreases batches.len(),
{
    if batches.len() > 0 {
        let (list, left, how) = completions(packets, batches[0], 0, coalescing);
        coalescing_keeps_every_packet_in_order(packets, batches[0], 0, coalescing);
        assert(all_valid(left)) by {
            assert forall|id: usize| #[trigger] left.contains_key(id) implies left[id].valid() by {
                assert(packets.contains_key(id));
            }
        }
        fence_comes_after_every_receive(left, batches.drop_first(), coalescing);
        let more = fence_completions(left, batches.drop_first(), coalescing);
        let posted = list + more;
        assert(posted.last() == more.last());
        assert forall|i: int| 0 <= i < posted.len() - 1 implies (#[trigger] posted[i]).cqe_type
            != CqeType::RxObjectFence by {
            if i < list.len() {
                assert(well_packed(list[i], packets));
                if list[i].cqe_type != CqeType::RxCoalesced4 {
                    let id = choose|id: usize| #[trigger]
                        packets.contains_key(id) && list[i] == packets[id].oob;
                    assert(packets[id].valid());
                }
            } else {
                assert(posted[i] == more[i - list.len()]);
            }
        }
    }
}

/// The bytes of a packet are scattered without gaps or overlaps from its front on, each write
/// keeps to its segment, and no more is dropped than the buffer cannot hold.
pub proof fn scatter_fills_the_buffer(segments: Seq<Sge>, k: nat, off: nat, data_len: nat)
    requires
        k <= segments.len(),
        off <= data_len <= usize::MAX,
    ensures
        ({
            let writes = scatter(segments, k, off, data_len);
            &&& writes.len() <= segments.len() - k
            &&& forall|i: int|
                0 <= i < writes.len() ==> (#[trigger] writes[i]).gpa == segments[k + i].address
                    && writes[i].len <= segments[k + i].size
            &&& writes.len() > 0 ==> writes[0].start == off
            &&& forall|i: int, j: int|
                0 <= i && j == i + 1 && j < writes.len() ==> (#[trigger] writes[j]).start == (
                #[trigger] writes[i]).start + writes[i].len
            &&& off + written(writes) == if data_len - off <= total_size(
                segments,
                segments.len(),
            ) - total_size(segments, k) {
                data_len as int
            } else {
                off + total_size(segments, segments.len()) - total_size(segments, k)
            }
        }),
    decreases segments.len() - k,
{
    let writes = scatter(segments, k, off, data_len);
    total_size_grows(segments, k, segments.len());
    if k < segments.len() && off < data_len {
        let len = if data_len - off <= segments[k as int].size {
            (data_len - off) as nat
        } else {
            segments[k as int].size as nat
        };
        scatter_fills_the_buffer(segments, k + 1, off + len, data_len);
        total_size_grows(segments, k + 1, segments.len());
        let rest = scatter(segments, k + 1, off + len, data_len);
        assert(writes.drop_first() =~= rest);
        assert forall|i: int| 0 <= i < writes.len() implies (#[trigger] writes[i]).gpa == segments[k
            + i].address && writes[i].len <= segments[k + i].size by {
            if i > 0 {
                assert(writes[i] == rest[i - 1]);
            }
        }
        assert forall|i: int, j: int| 0 <= i && j == i + 1 && j < writes.len() implies (
        #[trigger] writes[j]).start == (#[trigger] writes[i]).start + writes[i].len by {
            assert(writes[j] == rest[j - 1]);
            if i > 0 {
                assert(writes[i] == rest[i - 1]);
            }
        }
    }
}

/// How many bytes a list of writes covers.
pub open spec fn written(writes: Seq<GuestWrite>) -> nat
    decreases writes.len(),
{
    if writes.len() == 0 {
        0
    } else {
        writes[0].len as nat + written(writes.drop_first())
    }
}

/// A received frame is reported with its hash: the kind and the value that its flow has under the
/// key, or a zero kind where it is not hashed.
pub proof fn received_frame_reports_its_hash(
    packet: PacketView,
    frame: Seq<u8>,
    key: Seq<u8>,
    metadata: RxMetadata,
)
    requires
        packet.hash == rx_hash(frame, key),
    ensures
        ({
            let completion = packet_completion(packet, metadata);
            match rx_hash(frame, key) {
                Some((hashtype, value)) => completion.flags.hashtype == hashtype
                    && completion.packets[0].pkt_hash == value,
                None => completion.flags.hashtype == 0 && completion.packets[0].pkt_hash == 0,
            }
        }),
{
}

} // verus!
