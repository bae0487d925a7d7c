//! Completions that the device posts on the guest's completion queues.

use vstd::prelude::*;

verus! {

/// The kinds of completion.
#[derive(Clone, Copy, Debug, PartialEq, Eq, Structural)]
pub enum CqeType {
    /// The kind of a completion that was never filled in.
    Unset,
    RxOkay,
    RxCoalesced4,
    RxObjectFence,
    RxTruncated,
    TxOkay,
    TxGdmaErr,
}

/// What the device tells of every packet of a receive completion.
#[derive(Clone, Copy, Debug, PartialEq, Eq, Structural)]
pub struct RxFlags {
    pub iphdr_csum_succeed: bool,
    pub iphdr_csum_fail: bool,
    pub tcp_csum_succeed: bool,
    pub tcp_csum_fail: bool,
    pub udp_csum_succeed: bool,
    pub udp_csum_fail: bool,
    pub vlantag_present: bool,
    pub vlan_id: u16,
    /// The fields that went into the packet hash; zero for a packet that was not hashed.
    pub hashtype: u16,
}

impl RxFlags {
    /// Flags that tell nothing.
    pub open spec fn none_spec() -> RxFlags {
        RxFlags {
            iphdr_csum_succeed: false,
            iphdr_csum_fail: false,
            tcp_csum_succeed: false,
            tcp_csum_fail: false,
            udp_csum_succeed: false,
            udp_csum_fail: false,
            vlantag_present: false,
            vlan_id: 0,
            hashtype: 0,
        }
    }

    pub fn none() -> (ret: RxFlags)
        ensures
            ret == RxFlags::none_spec(),
    {
        RxFlags {
            iphdr_csum_succeed: false,
            iphdr_csum_fail: false,
            tcp_csum_succeed: false,
            tcp_csum_fail: false,
            udp_csum_succeed: false,
            udp_csum_fail: false,
            vlantag_present: false,
            vlan_id: 0,
            hashtype: 0,
        }
    }
}

/// What a receive completion tells of one packet.
#[derive(Clone, Copy, Debug, PartialEq, Eq, Structural)]
pub struct PacketInfo {
    pub pkt_len: u16,
    pub pkt_hash: u32,
}

/// A receive completion. The packet entries beyond those listed read as zero.
pub struct RxCompletion {
    pub cqe_type: CqeType,
    pub flags: RxFlags,
    pub packets: Vec<PacketInfo>,
    pub rx_wqe_offset: u32,
}

/// What a receive completion says.
pub struct RxCompletionView {
    pub cqe_type: CqeType,
    pub flags: RxFlags,
    pub packets: Seq<PacketInfo>,
    pub rx_wqe_offset: u32,
}

impl View for RxCompletion {
    type V = RxCompletionView;

    open spec fn view(&self) -> RxCompletionView {
        RxCompletionView {
            cqe_type: self.cqe_type,
            flags: self.flags,
            packets: self.packets@,
            rx_wqe_offset: self.rx_wqe_offset,
        }
    }
}

impl RxCompletionView {
    /// The completion of a receive buffer that holds no packet yet.
    pub open spec fn blank() -> RxCompletionView {
        RxCompletionView {
            cqe_type: CqeType::Unset,
            flags: RxFlags::none_spec(),
            packets: Seq::empty(),
            rx_wqe_offset: 0,
        }
    }

    /// The completion that answers a fence.
    pub open spec fn fence() -> RxCompletionView {
        RxCompletionView {
            cqe_type: CqeType::RxObjectFence,
            flags: RxFlags::none_spec(),
            packets: Seq::empty(),
            rx_wqe_offset: 0,
        }
    }
}

/// The completion that answers a fence.
pub fn fence_completion() -> (ret: RxCompletion)
    ensures
        ret@ == RxCompletionView::fence(),
{
    RxCompletion {
        cqe_type: CqeType::RxObjectFence,
        flags: RxFlags::none(),
        packets: Vec::new(),
        rx_wqe_offset: 0,
    }
}

/// What a completion carries.
pub enum Cqe {
    /// No data.
    Empty,
    /// A response message on the hardware channel.
    Hwc { wqe_addr_low_or_offset: u32, tx_oob_data_size: u32 },
    /// A transmit completion: its kind, with every other field zero.
    Tx { cqe_type: CqeType },
    Rx(RxCompletion),
}

/// What a completion says.
pub enum CqeView {
    Empty,
    Hwc { wqe_addr_low_or_offset: u32, tx_oob_data_size: u32 },
    Tx { cqe_type: CqeType },
    Rx(RxCompletionView),
}

impl View for Cqe {
    type V = CqeView;

    open spec fn view(&self) -> CqeView {
        match self {
            Cqe::Empty => CqeView::Empty,
            Cqe::Hwc { wqe_addr_low_or_offset, tx_oob_data_size } => CqeView::Hwc {
                wqe_addr_low_or_offset: *wqe_addr_low_or_offset,
                tx_oob_data_size: *tx_oob_data_size,
            },
            Cqe::Tx { cqe_type } => CqeView::Tx { cqe_type: *cqe_type },
            Cqe::Rx(completion) => CqeView::Rx(completion@),
        }
    }
}

/// A completion, the queue it goes to and the work queue it is for.
pub struct CqPost {
    pub cq_id: u32,
    pub cqe: Cqe,
    pub wq_id: u32,
    pub is_send: bool,
}

/// What a posted completion says.
pub struct CqPostView {
    pub cq_id: u32,
    pub cqe: CqeView,
    pub wq_id: u32,
    pub is_send: bool,
}

impl View for CqPost {
    type V = CqPostView;

    open spec fn view(&self) -> CqPostView {
        CqPostView {
            cq_id: self.cq_id,
            cqe: self.cqe@,
            wq_id: self.wq_id,
            is_send: self.is_send,
        }
    }
}

} // verus!
