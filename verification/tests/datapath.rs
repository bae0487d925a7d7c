use vm_devices::bnic::{SqChannel, TaskPlan};
use vm_devices::completion::{CqPost, Cqe, CqeType, PacketInfo, RxCompletion};
use vm_devices::datapath::{
    DatapathError, GuestWrite, L4Protocol, PollSource, PostEnd, RxChecksumState, RxMetadata, Sge, Sqe,
    SqeAction, TxLongOob, TxOob, TxRxTask, TxSegmentType, TxShortOob,
};
use vm_devices::rss::MANA_HASH_TCP_IPV4;

fn task(sqs: u32, rss_key: Option<[u8; 40]>) -> TxRxTask {
    TxRxTask::new(TaskPlan {
        sqs: (0..sqs)
            .map(|i| SqChannel {
                sq_id: 10 + i,
                sq_cq_id: 20 + i,
            })
            .collect(),
        rq_id: 30,
        rq_cq_id: 40,
        rss_key,
    })
}

fn sge(address: u64, size: u32) -> Sge {
    Sge { address, size }
}

const METADATA: RxMetadata = RxMetadata {
    offset: 0,
    len: 60,
    ip_checksum: RxChecksumState::Unknown,
    l4_checksum: RxChecksumState::Unknown,
    l4_protocol: L4Protocol::Unknown,
    vlan_id: None,
};

/// Posts a receive buffer and has a packet of a length received into it.
fn receive(task: &mut TxRxTask, len: usize, metadata: RxMetadata) -> u32 {
    let id = task.process_rqe(vec![sge(0x1000, 1514)], 7);
    task.pool.write_header(id, &RxMetadata { len, ..metadata });
    id
}

fn completion(post: &CqPost) -> &RxCompletion {
    assert_eq!((post.cq_id, post.wq_id, post.is_send), (40, 30, false));
    match &post.cqe {
        Cqe::Rx(completion) => completion,
        _ => panic!("no receive completion"),
    }
}

fn lengths(post: &CqPost) -> Vec<u16> {
    completion(post).packets.iter().map(|p| p.pkt_len).collect()
}

#[test]
fn sources_are_polled_in_order() {
    let mut task = task(2, None);
    assert_eq!(
        task.poll_sources(),
        vec![
            PollSource::Fence,
            PollSource::Rq,
            PollSource::Sq(0),
            PollSource::Sq(1),
            PollSource::Backend
        ]
    );
    // No more buffers are taken than the task can hold.
    for _ in 0..256 {
        task.process_rqe(vec![sge(0, 1)], 0);
    }
    assert_eq!(
        task.poll_sources(),
        vec![
            PollSource::Fence,
            PollSource::Sq(0),
            PollSource::Sq(1),
            PollSource::Backend
        ]
    );
}

#[test]
fn data_is_scattered_over_the_segments() {
    let mut task = task(1, None);
    let id = task.process_rqe(vec![sge(0x1000, 4), sge(0x2000, 0), sge(0x3000, 8)], 7);
    assert_eq!(task.pool.capacity(id), 12);
    let mut addresses = Vec::new();
    task.pool.push_guest_addresses(id, &mut addresses);
    assert_eq!(addresses.len(), 3);
    let write = |gpa: u64, start: usize, len: usize| GuestWrite { gpa, start, len };
    assert_eq!(
        task.pool.write_data(id, &[0; 6]),
        vec![write(0x1000, 0, 4), write(0x2000, 4, 0), write(0x3000, 4, 2)]
    );
    // What exceeds the buffer is dropped, and reported as a truncation.
    assert_eq!(
        task.pool.write_data(id, &[0; 20]),
        vec![write(0x1000, 0, 4), write(0x2000, 4, 0), write(0x3000, 4, 8)]
    );
    task.pool.write_header(id, &RxMetadata { len: 20, ..METADATA });
    let (posts, result) = task.process_received(&[id], false);
    assert_eq!(result, Ok(()));
    let truncated = completion(&posts[0]);
    assert_eq!(truncated.cqe_type, CqeType::RxTruncated);
    assert_eq!(truncated.rx_wqe_offset, 7);
    assert_eq!(lengths(&posts[0]), vec![20]);
}

#[test]
fn checksums_are_reported() {
    let flags = |metadata: RxMetadata| {
        let mut task = task(1, None);
        let id = receive(&mut task, 60, metadata);
        let (posts, _) = task.process_received(&[id], false);
        completion(&posts[0]).flags
    };
    let good = RxChecksumState::Good;
    let bad = RxChecksumState::Bad;
    let f = flags(RxMetadata { ip_checksum: good, ..METADATA });
    assert!(f.iphdr_csum_succeed && !f.iphdr_csum_fail);
    let f = flags(RxMetadata { ip_checksum: bad, ..METADATA });
    assert!(!f.iphdr_csum_succeed && f.iphdr_csum_fail);
    let f = flags(RxMetadata {
        ip_checksum: RxChecksumState::ValidatedButWrong,
        l4_checksum: good,
        ..METADATA
    });
    assert!(!f.iphdr_csum_succeed && !f.iphdr_csum_fail);
    assert!(!f.tcp_csum_succeed && !f.udp_csum_succeed);
    let f = flags(RxMetadata { l4_protocol: L4Protocol::Tcp, l4_checksum: good, ..METADATA });
    assert!(f.tcp_csum_succeed && !f.tcp_csum_fail && !f.udp_csum_succeed);
    let f = flags(RxMetadata { l4_protocol: L4Protocol::Udp, l4_checksum: bad, ..METADATA });
    assert!(f.udp_csum_fail && !f.udp_csum_succeed && !f.tcp_csum_fail);
    assert!(!f.vlantag_present && f.vlan_id == 0 && f.hashtype == 0);
    let f = flags(RxMetadata { vlan_id: Some(100), ..METADATA });
    assert!(f.vlantag_present && f.vlan_id == 100);
}

#[test]
fn received_frame_reports_its_hash() {
    let key: [u8; 40] = [
        0x6d, 0x5a, 0x56, 0xda, 0x25, 0x5b, 0x0e, 0xc2, 0x41, 0x67, 0x25, 0x3d, 0x43, 0xa3, 0x8f,
        0xb0, 0xd0, 0xca, 0x2b, 0xcb, 0xae, 0x7b, 0x30, 0xb4, 0x77, 0xcb, 0x2d, 0xa3, 0x80, 0x30,
        0xf2, 0x0c, 0x6a, 0x42, 0xb7, 0x3b, 0xbe, 0xac, 0x01, 0xfa,
    ];
    let mut frame = vec![
        0x02, 0, 0, 0, 0, 1, 0x02, 0, 0, 0, 0, 2, 0x08, 0x00, 0x45, 0x00, 0, 40, 0, 0, 0, 0, 64, 6,
        0, 0, 66, 9, 149, 187, 161, 142, 100, 80, 0x0a, 0xea, 0x06, 0xe6,
    ];
    frame.resize(60, 0);
    for (rss_key, hashtype, pkt_hash) in [
        (Some(key), MANA_HASH_TCP_IPV4, 0x51ccc178),
        (None, 0, 0),
    ] {
        let mut task = task(1, rss_key);
        let id = task.process_rqe(vec![sge(0x1000, 1514)], 7);
        task.pool.write_data(id, &frame);
        task.pool.write_header(id, &METADATA);
        let (posts, _) = task.process_received(&[id], false);
        let completion = completion(&posts[0]);
        assert_eq!(completion.flags.hashtype, hashtype);
        assert_eq!(
            completion.packets,
            vec![PacketInfo {
                pkt_len: 60,
                pkt_hash
            }]
        );
    }
}

#[test]
fn without_coalescing_every_packet_has_its_completion() {
    let mut task = task(1, None);
    let ids: Vec<u32> = (1..4).map(|n| receive(&mut task, n, METADATA)).collect();
    let (posts, result) = task.process_received(&ids, false);
    assert_eq!(result, Ok(()));
    assert_eq!(posts.len(), 3);
    assert!(posts.iter().all(|p| completion(p).cqe_type == CqeType::RxOkay));
    assert_eq!(task.rx_buf_count, 0);
    assert_eq!(TxRxTask::rx_poll_limit(false), 1);
}

#[test]
fn equal_packets_are_coalesced_by_four() {
    let mut task = task(1, None);
    let ids: Vec<u32> = (1..7).map(|n| receive(&mut task, n, METADATA)).collect();
    let (posts, result) = task.process_received(&ids, true);
    assert_eq!(result, Ok(()));
    let all: Vec<Vec<u16>> = posts.iter().map(lengths).collect();
    assert_eq!(all, vec![vec![1, 2, 3, 4], vec![5, 6]]);
    assert!(posts
        .iter()
        .all(|p| completion(p).cqe_type == CqeType::RxCoalesced4));
    assert_eq!(TxRxTask::rx_poll_limit(true), 4);
}

#[test]
fn runs_end_where_packets_differ() {
    let mut task = task(1, None);
    let tagged = RxMetadata { vlan_id: Some(1), ..METADATA };
    let ids = vec![
        receive(&mut task, 1, METADATA),
        receive(&mut task, 2, METADATA),
        receive(&mut task, 3, tagged),
        receive(&mut task, 2000, METADATA), // longer than its buffer
        receive(&mut task, 5, METADATA),
    ];
    let (posts, result) = task.process_received(&ids, true);
    assert_eq!(result, Ok(()));
    let all: Vec<(CqeType, Vec<u16>)> = posts
        .iter()
        .map(|p| (completion(p).cqe_type, lengths(p)))
        .collect();
    assert_eq!(
        all,
        vec![
            (CqeType::RxCoalesced4, vec![1, 2]),
            // A batch of one is reported as a single packet.
            (CqeType::RxOkay, vec![3]),
            (CqeType::RxTruncated, vec![2000]),
            (CqeType::RxOkay, vec![5]),
        ]
    );
}

#[test]
fn unknown_buffers_are_refused() {
    let mut task = task(1, None);
    let id = receive(&mut task, 1, METADATA);
    let other = receive(&mut task, 2, METADATA);
    let (posts, result) = task.process_received(&[id, 99], false);
    assert_eq!(result, Err(DatapathError::InvalidRxId));
    // What was completed before stays completed.
    assert_eq!(posts.len(), 1);
    assert_eq!(task.rx_buf_count, 2);
    let (posts, result) = task.process_received(&[id, other], true);
    assert_eq!((posts.len(), result), (0, Err(DatapathError::InvalidRxId)));
    let (posts, _) = task.process_received(&[other], true);
    assert_eq!(lengths(&posts[0]), vec![2]);
}

#[test]
fn fence_waits_for_every_receive() {
    let mut task = task(1, None);
    let ids: Vec<u32> = (1..4).map(|n| receive(&mut task, n, METADATA)).collect();
    let mut order = Vec::new();
    for batch in [&ids[..2], &ids[2..], &[]] {
        let (posts, done) = task.post_fence(batch, true);
        assert_eq!(done, Ok(batch.is_empty()));
        order.extend(posts.iter().map(|p| completion(p).cqe_type));
    }
    assert_eq!(
        order,
        vec![
            CqeType::RxCoalesced4,
            CqeType::RxOkay,
            CqeType::RxObjectFence
        ]
    );
    assert_eq!(task.rx_buf_count, 0);
}

const SHORT: TxShortOob = TxShortOob {
    long_format: false,
    is_outer_ipv4: true,
    is_outer_ipv6: true,
    comp_iphdr_csum: true,
    comp_tcp_csum: false,
    comp_udp_csum: true,
    trans_off: 34,
};

fn sqe(sgl: Vec<Sge>) -> Sqe {
    Sqe {
        oob: Some(TxOob {
            short: SHORT,
            long: None,
        }),
        sgl,
        client_oob_in_sgl: false,
        gd_client_unit_data: 1460,
    }
}

fn segments(action: Result<SqeAction, DatapathError>) -> Vec<vm_devices::datapath::TxSegment> {
    match action {
        Ok(SqeAction::Transmit(segments)) => segments,
        _ => panic!("nothing is transmitted"),
    }
}

#[test]
fn transmit_request_becomes_segments() {
    let task = task(3, None);
    let segments = segments(task.process_sqe(2, sqe(vec![sge(1, 54), sge(2, 100), sge(3, 200)])));
    assert_eq!(segments.len(), 3);
    let meta = match segments[0].ty {
        TxSegmentType::Head(meta) => meta,
        TxSegmentType::Tail => panic!("no head"),
    };
    assert_eq!((segments[0].gpa, segments[0].len), (1, 54));
    assert_eq!((segments[2].gpa, segments[2].len), (3, 200));
    assert_eq!(segments[1].ty, TxSegmentType::Tail);
    assert_eq!((meta.id, meta.segment_count, meta.len), (2, 3, 354));
    assert_eq!((meta.l2_len, meta.l3_len, meta.l4_len), (14, 20, 0));
    assert_eq!(meta.transport_header_offset, 34);
    assert_eq!(meta.max_segment_size, 0);
    assert!(meta.flags.offload_ip_header_checksum && meta.flags.offload_udp_checksum);
    assert!(!meta.flags.offload_tcp_checksum && !meta.flags.offload_tcp_segmentation);
    // A packet is of one version only.
    assert!(meta.flags.is_ipv4 && !meta.flags.is_ipv6);
    assert_eq!(meta.vlan, None);
}

#[test]
fn vlan_tag_is_injected_by_the_long_form() {
    let task = task(1, None);
    let long = TxLongOob {
        inject_vlan_pri_tag: true,
        pcp: 3,
        dei: true,
        vlan_id: 100,
    };
    let head = |oob: TxOob| {
        let request = Sqe {
            oob: Some(oob),
            ..sqe(vec![sge(1, 60)])
        };
        match segments(task.process_sqe(0, request))[0].ty {
            TxSegmentType::Head(meta) => meta,
            TxSegmentType::Tail => panic!("no head"),
        }
    };
    let announced = TxShortOob {
        long_format: true,
        trans_off: 38,
        ..SHORT
    };
    let meta = head(TxOob { short: announced, long: Some(long) });
    let vlan = meta.vlan.unwrap();
    assert_eq!((vlan.priority, vlan.vlan_id), (3, 100));
    assert!(vlan.drop_eligible_indicator);
    assert_eq!((meta.l2_len, meta.l3_len), (18, 20));
    // The long form has to be announced, and to be there.
    assert_eq!(head(TxOob { short: SHORT, long: Some(long) }).vlan, None);
    assert_eq!(head(TxOob { short: announced, long: None }).vlan, None);
    // A transport header out of reach is taken to be at the limit.
    let far = TxShortOob { trans_off: 300, ..SHORT };
    assert_eq!(head(TxOob { short: far, long: None }).l3_len, 241);
    let near = TxShortOob { trans_off: 3, ..SHORT };
    assert_eq!(head(TxOob { short: near, long: None }).l3_len, 0);
}

#[test]
fn large_sends_are_checked() {
    let task = task(1, None);
    let large = |sgl: Vec<Sge>| Sqe {
        client_oob_in_sgl: true,
        ..sqe(sgl)
    };
    let sent = segments(task.process_sqe(0, large(vec![sge(1, 54), sge(2, 4000)])));
    match sent[0].ty {
        TxSegmentType::Head(meta) => {
            assert_eq!((meta.l4_len, meta.max_segment_size), (20, 1460));
            assert!(meta.flags.offload_tcp_segmentation);
        }
        TxSegmentType::Tail => panic!("no head"),
    }
    for broken in [vec![sge(1, 54)], vec![sge(1, 257), sge(2, 1)]] {
        match task.process_sqe(0, large(broken)) {
            Ok(SqeAction::Reject(post)) => {
                assert_eq!((post.cq_id, post.wq_id, post.is_send), (20, 10, true));
                assert!(matches!(
                    post.cqe,
                    Cqe::Tx {
                        cqe_type: CqeType::TxGdmaErr
                    }
                ));
            }
            _ => panic!("not refused"),
        }
    }
    assert!(matches!(
        task.process_sqe(0, large(vec![sge(1, 256), sge(2, 1)])),
        Ok(SqeAction::Transmit(_))
    ));
}

#[test]
fn malformed_transmit_requests_stop_the_task() {
    let task = task(1, None);
    let no_oob = Sqe {
        oob: None,
        ..sqe(vec![])
    };
    assert_eq!(task.process_sqe(0, no_oob).err(), Some(DatapathError::OobTooSmall));
    assert_eq!(task.process_sqe(0, sqe(vec![])).err(), Some(DatapathError::NoSgl));
}

#[test]
fn transmit_completions_find_their_queue() {
    let task = task(2, None);
    let post = task.transmitted(1, true, 1).unwrap();
    assert_eq!((post.cq_id, post.wq_id), (21, 11));
    assert!(matches!(
        post.cqe,
        Cqe::Tx {
            cqe_type: CqeType::TxOkay
        }
    ));
    assert!(task.transmitted(0, false, 0).is_some());
    assert!(task.transmitted(0, false, 1).is_none());
    // An index past the end stands for the last queue.
    assert_eq!(task.post_tx_completion(9).cq_id, 21);
    assert_eq!(task.post_tx_completion_error(0).cq_id, 20);
}

#[test]
fn end_of_a_batch_is_foreseen() {
    let mut task = task(1, None);
    let a = receive(&mut task, 1, METADATA);
    let b = receive(&mut task, 2, METADATA);
    let long = receive(&mut task, 2000, METADATA);
    let end = |ids: &[u32], coalescing: bool| task.received_end(ids, coalescing);
    assert_eq!(end(&[a, b, long], true), PostEnd::Done);
    assert_eq!(end(&[a, 99], false), PostEnd::InvalidId);
    assert_eq!(end(&[99, a], true), PostEnd::InvalidId);
    // Only a buffer that is looked at to be coalesced breaks the batch.
    assert_eq!(end(&[a, 99], true), PostEnd::Broken);
    assert_eq!(end(&[a, a], true), PostEnd::Broken);
    assert_eq!(end(&[long, 99], true), PostEnd::InvalidId);
    assert_eq!(end(&[a, b, b], true), PostEnd::InvalidId);
    // More buffers than were posted are no more than a buffer that was not.
    let (posts, result) = task.process_received(&[long, 97, 98, 99], true);
    assert_eq!((posts.len(), result), (1, Err(DatapathError::InvalidRxId)));
}
