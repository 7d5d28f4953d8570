use toytcp::errors::TcpError;
use toytcp::recv::SegmentArrival;
use toytcp::retrans::{backoff_threshold, RetransmissionQueueEntry};
use toytcp::segment::TcpSegment;
use toytcp::socket::{SockID, Socket};
use toytcp::status::{SideEffect, TcpEvent, TcpStatus, Transition};
use toytcp::tcpflags;
use toytcp::SOCKET_BUFFER_SIZE;

const LOCAL: u32 = 0x0a00_0001; // 10.0.0.1
const REMOTE: u32 = 0x0a00_0002; // 10.0.0.2

fn established_socket() -> Socket {
    let mut s = Socket::new(LOCAL, REMOTE, 40000, 50000, TcpStatus::Established);
    s.recv_param.next = 100;
    s.recv_param.initial_seq = 99;
    s
}

#[test]
fn syn_to_listener_spawns_syn_rcvd_child() {
    // Scenario: SYN(seq=100) arrives at a listening socket.
    let listener = Socket::new(LOCAL, 0, 40000, 0, TcpStatus::Listen);
    let (child, seg) = listener.on_syn_received(REMOTE, 50000, 100, 5000, 7);
    assert_eq!(child.status, TcpStatus::SynRcvd);
    assert_eq!(child.recv_param.next, 101);
    assert_eq!(child.recv_param.initial_seq, 100);
    assert_eq!(child.send_param.unacked_seq, 5000);
    assert_eq!(child.send_param.next, 5001);
    assert_eq!(child.listening_socket, Some(SockID(LOCAL, 0, 40000, 0)));
    assert_eq!(seg.seq, 5000);
    assert_eq!(seg.ack, 101);
    assert_eq!(seg.flag, tcpflags::SYN | tcpflags::ACK);
    assert_eq!(seg.src_port, 40000);
    assert_eq!(seg.dst_port, 50000);
    assert!(seg.payload.is_empty());
    // The SYN+ACK must survive loss: it is queued for retransmission.
    assert_eq!(child.retransmission_queue.len(), 1);
    assert_eq!(child.retransmission_queue[0].transmission_count, 1);
    assert_eq!(child.retransmission_queue[0].latest_transmission_time, 7);
}

#[test]
fn ack_completes_handshake_and_enqueues_on_listener() {
    // Scenario: the child in SynRcvd receives ACK(ack=X+1).
    let mut listener = Socket::new(LOCAL, 0, 40000, 0, TcpStatus::Listen);
    let (mut child, _seg) = listener.on_syn_received(REMOTE, 50000, 100, 5000, 0);
    let ok = child.establish(&mut listener, 5001);
    assert!(ok);
    assert_eq!(child.status, TcpStatus::Established);
    assert_eq!(child.send_param.unacked_seq, 5001);
    // The SYN+ACK is acknowledged, so its queue entry is gone.
    assert!(child.retransmission_queue.is_empty());
    let id = listener.connected_connection_queue.pop_front();
    assert_eq!(id, Some(SockID(LOCAL, REMOTE, 40000, 50000)));
}

#[test]
fn wrong_ack_does_not_establish() {
    let mut listener = Socket::new(LOCAL, 0, 40000, 0, TcpStatus::Listen);
    let (mut child, _seg) = listener.on_syn_received(REMOTE, 50000, 100, 5000, 0);
    let ok = child.establish(&mut listener, 5002);
    assert!(!ok);
    assert_eq!(child.status, TcpStatus::SynRcvd);
    assert!(listener.connected_connection_queue.is_empty());
}

#[test]
fn out_of_order_then_fill_advances_past_both() {
    // Scenario: Established socket with next=100 receives [150,200), then
    // [100,150); after the second arrival next is 200 and nothing pends.
    let mut s = established_socket();
    let high = vec![0xbb; 50];
    let r1 = s.receive_payload(150, &high);
    assert_eq!(r1, SegmentArrival::Stored);
    assert_eq!(s.recv_param.next, 100);
    assert_eq!(s.recv_param.tails, vec![(150u32, 200u32)]);
    let low = vec![0xaa; 50];
    let r2 = s.receive_payload(100, &low);
    assert_eq!(r2, SegmentArrival::Delivered);
    assert_eq!(s.recv_param.next, 200);
    assert!(s.recv_param.tails.is_empty());
    // The buffer holds both payloads at their stream offsets.
    assert_eq!(&s.recv_buffer[0..50], &low[..]);
    assert_eq!(&s.recv_buffer[50..100], &high[..]);
}

#[test]
fn duplicate_segment_changes_nothing() {
    let mut s = established_socket();
    let data = vec![1u8; 30];
    assert_eq!(s.receive_payload(100, &data), SegmentArrival::Delivered);
    assert_eq!(s.recv_param.next, 130);
    // The same segment again is fully behind the cursor.
    let r = s.receive_payload(100, &data);
    assert_eq!(r, SegmentArrival::Duplicate);
    assert_eq!(s.recv_param.next, 130);
    assert!(s.recv_param.tails.is_empty());
}

#[test]
fn covered_out_of_order_range_is_deduplicated() {
    let mut s = established_socket();
    let data = vec![2u8; 50];
    assert_eq!(s.receive_payload(150, &data), SegmentArrival::Stored);
    assert_eq!(s.receive_payload(150, &data), SegmentArrival::Stored);
    assert_eq!(s.recv_param.tails.len(), 1);
    assert_eq!(s.recv_param.tails[0], (150, 200));
}

#[test]
fn delivery_folds_every_contiguous_pending_range() {
    let mut s = established_socket();
    assert_eq!(s.receive_payload(110, &vec![3u8; 10]), SegmentArrival::Stored);
    assert_eq!(s.receive_payload(130, &vec![4u8; 10]), SegmentArrival::Stored);
    assert_eq!(s.recv_param.tails, vec![(110, 120), (130, 140)]);
    // [100,110) folds only the first range: a gap remains before 130.
    assert_eq!(s.receive_payload(100, &vec![5u8; 10]), SegmentArrival::Delivered);
    assert_eq!(s.recv_param.next, 120);
    assert_eq!(s.recv_param.tails, vec![(130, 140)]);
    // [120,130) closes the gap and folds the rest.
    assert_eq!(s.receive_payload(120, &vec![6u8; 10]), SegmentArrival::Delivered);
    assert_eq!(s.recv_param.next, 140);
    assert!(s.recv_param.tails.is_empty());
}

#[test]
fn in_order_delivery_across_sequence_wrap() {
    let mut s = Socket::new(LOCAL, REMOTE, 40000, 50000, TcpStatus::Established);
    s.recv_param.next = u32::MAX - 5;
    let r = s.receive_payload(u32::MAX - 5, &vec![7u8; 10]);
    assert_eq!(r, SegmentArrival::Delivered);
    assert_eq!(s.recv_param.next, 4);
}

#[test]
fn oversized_range_is_dropped() {
    let mut s = established_socket();
    let r = s.receive_payload(100, &vec![8u8; SOCKET_BUFFER_SIZE + 1]);
    assert_eq!(r, SegmentArrival::Dropped);
    assert_eq!(s.recv_param.next, 100);
}

#[test]
fn pure_ack_is_not_queued_for_retransmission() {
    let mut s = established_socket();
    let before = s.retransmission_queue.len();
    let seg = s.send_tcp_packet(5000, 100, tcpflags::ACK, &[], 0);
    assert!(seg.payload.is_empty());
    assert_eq!(seg.flag, tcpflags::ACK);
    assert_eq!(s.retransmission_queue.len(), before);
}

#[test]
fn payload_segment_is_queued_once_with_fresh_metadata() {
    let mut s = established_socket();
    let seg = s.send_tcp_packet(5000, 100, tcpflags::ACK, &[9u8; 4], 42);
    assert_eq!(s.retransmission_queue.len(), 1);
    let entry = &s.retransmission_queue[0];
    assert_eq!(entry.transmission_count, 1);
    assert_eq!(entry.latest_transmission_time, 42);
    assert_eq!(entry.packet.seq, seg.seq);
    assert_eq!(entry.packet.payload, seg.payload);
}

#[test]
fn partial_ack_keeps_entry_full_ack_removes_it() {
    let mut s = established_socket();
    s.send_param.next = 0;
    let _ = s.send_tcp_packet(0, 100, tcpflags::ACK, &[1u8; 10], 0);
    s.send_param.next = 10;
    assert_eq!(s.retransmission_queue.len(), 1);
    // An acknowledgment that covers half the segment keeps the entry.
    assert!(s.on_ack(5));
    assert_eq!(s.send_param.unacked_seq, 5);
    assert_eq!(s.retransmission_queue.len(), 1);
    // The cumulative acknowledgment of the whole range removes it.
    assert!(s.on_ack(10));
    assert_eq!(s.send_param.unacked_seq, 10);
    assert!(s.retransmission_queue.is_empty());
}

#[test]
fn stale_or_overreaching_ack_is_rejected() {
    let mut s = established_socket();
    s.send_param.unacked_seq = 100;
    s.send_param.next = 150;
    assert!(!s.on_ack(100)); // no new data acknowledged
    assert!(!s.on_ack(151)); // beyond everything transmitted
    assert_eq!(s.send_param.unacked_seq, 100);
}

#[test]
fn retry_cap_aborts_with_retransmission_exhausted() {
    // Scenario: a payload segment is never acknowledged; after the backoff
    // threshold elapses five times the connection aborts.
    let mut s = established_socket();
    s.send_param.next = 0;
    let _ = s.send_tcp_packet(0, 100, tcpflags::ACK, &[1u8; 10], 0);
    s.send_param.next = 10;
    let mut now = 0u64;
    for expected_count in 2..=5u8 {
        now += backoff_threshold(expected_count - 1);
        let resend = s.on_timer(now).unwrap();
        assert_eq!(resend, vec![0]);
        assert_eq!(s.retransmission_queue[0].transmission_count, expected_count);
        assert_eq!(s.retransmission_queue[0].latest_transmission_time, now);
    }
    // A sweep before the next threshold resends nothing.
    let quiet = s.on_timer(now + 1).unwrap();
    assert!(quiet.is_empty());
    // Once the fifth wait elapses the cap converts failure into an abort.
    now += backoff_threshold(5);
    let r = s.on_timer(now);
    assert_eq!(r, Err(TcpError::RetransmissionExhausted));
    assert!(s.retransmission_queue.is_empty());
}

#[test]
fn timer_drops_entries_already_acknowledged() {
    let mut s = established_socket();
    s.send_param.next = 0;
    let _ = s.send_tcp_packet(0, 100, tcpflags::ACK, &[1u8; 10], 0);
    s.send_param.next = 10;
    s.send_param.unacked_seq = 10; // peer acknowledged out of band
    let resend = s.on_timer(100_000).unwrap();
    assert!(resend.is_empty());
    assert!(s.retransmission_queue.is_empty());
}

#[test]
fn close_handshake_reaches_time_wait_and_destroys() {
    // From Established: local close, peer's ACK, peer's FIN, linger.
    let mut s = established_socket();
    let t1 = s.apply_event(TcpEvent::LocalClose);
    assert_eq!(t1, Transition::Step(TcpStatus::FinWait1, SideEffect::SendFin));
    assert_eq!(s.status, TcpStatus::FinWait1);
    let t2 = s.apply_event(TcpEvent::AckReceived);
    assert_eq!(t2, Transition::Step(TcpStatus::FinWait2, SideEffect::Quiet));
    let t3 = s.apply_event(TcpEvent::FinReceived);
    assert_eq!(t3, Transition::Step(TcpStatus::TimeWait, SideEffect::SendAck));
    let t4 = s.apply_event(TcpEvent::LingerElapsed);
    assert_eq!(t4, Transition::Destroy);
}

#[test]
fn unlisted_events_are_discarded_without_state_change() {
    let mut s = established_socket();
    assert_eq!(s.apply_event(TcpEvent::SynReceived), Transition::Discard);
    assert_eq!(s.apply_event(TcpEvent::SynAckReceived), Transition::Discard);
    assert_eq!(s.apply_event(TcpEvent::LingerElapsed), Transition::Discard);
    assert_eq!(s.status, TcpStatus::Established);
}

#[test]
fn passive_close_path() {
    let mut s = established_socket();
    let t1 = s.apply_event(TcpEvent::FinReceived);
    assert_eq!(t1, Transition::Step(TcpStatus::CloseWait, SideEffect::SendAck));
    let t2 = s.apply_event(TcpEvent::LocalClose);
    assert_eq!(t2, Transition::Step(TcpStatus::LastAck, SideEffect::SendFin));
    let t3 = s.apply_event(TcpEvent::AckReceived);
    assert_eq!(t3, Transition::Destroy);
}

#[test]
fn retransmission_entry_records_first_transmission() {
    let seg = TcpSegment {
        src_port: 1,
        dst_port: 2,
        seq: 3,
        ack: 4,
        data_offset: 5,
        flag: tcpflags::SYN,
        window_size: 6,
        checksum: 7,
        payload: vec![8],
    };
    let e = RetransmissionQueueEntry::new(seg, 99);
    assert_eq!(e.latest_transmission_time, 99);
    assert_eq!(e.transmission_count, 1);
    assert_eq!(e.packet.seq, 3);
}

#[test]
fn backoff_doubles_up_to_the_cap() {
    assert_eq!(backoff_threshold(1), 1000);
    assert_eq!(backoff_threshold(2), 2000);
    assert_eq!(backoff_threshold(3), 4000);
    assert_eq!(backoff_threshold(4), 8000);
    assert_eq!(backoff_threshold(5), 16000);
}

#[test]
fn listen_creates_wildcard_listener() {
    let l = Socket::listen(LOCAL, 40000);
    assert_eq!(l.status, TcpStatus::Listen);
    assert_eq!(l.get_sock_id(), SockID(LOCAL, 0, 40000, 0));
    assert!(l.connected_connection_queue.is_empty());
}

#[test]
fn connect_sends_syn_and_records_it() {
    let (s, syn) = Socket::connect(LOCAL, REMOTE, 40000, 50000, 7000, 3);
    assert_eq!(s.status, TcpStatus::SynSent);
    assert_eq!(s.send_param.unacked_seq, 7000);
    assert_eq!(s.send_param.next, 7001);
    assert_eq!(syn.flag, tcpflags::SYN);
    assert_eq!(syn.seq, 7000);
    assert!(syn.payload.is_empty());
    assert_eq!(s.retransmission_queue.len(), 1);
    assert_eq!(s.retransmission_queue[0].latest_transmission_time, 3);
}

#[test]
fn syn_ack_completes_active_open() {
    let (mut s, _syn) = Socket::connect(LOCAL, REMOTE, 40000, 50000, 7000, 0);
    let reply = s.on_syn_ack(100, 7001, 1);
    let ack_seg = reply.expect("handshake should complete");
    assert_eq!(s.status, TcpStatus::Established);
    assert_eq!(s.send_param.unacked_seq, 7001);
    assert_eq!(s.recv_param.next, 101);
    assert_eq!(s.recv_param.initial_seq, 100);
    // The acknowledged SYN left the retransmission queue, and the bare ACK
    // reply was not queued.
    assert!(s.retransmission_queue.is_empty());
    assert_eq!(ack_seg.flag, tcpflags::ACK);
    assert_eq!(ack_seg.seq, 7001);
    assert_eq!(ack_seg.ack, 101);
}

#[test]
fn syn_ack_with_wrong_ack_is_ignored() {
    let (mut s, _syn) = Socket::connect(LOCAL, REMOTE, 40000, 50000, 7000, 0);
    assert!(s.on_syn_ack(100, 7002, 1).is_none());
    assert_eq!(s.status, TcpStatus::SynSent);
    assert_eq!(s.retransmission_queue.len(), 1);
}

#[test]
fn accept_yields_queued_connections_in_order() {
    let mut listener = Socket::listen(LOCAL, 40000);
    let (mut c1, _) = listener.on_syn_received(REMOTE, 50000, 100, 5000, 0);
    let (mut c2, _) = listener.on_syn_received(REMOTE, 50001, 200, 6000, 0);
    assert!(c1.establish(&mut listener, 5001));
    assert!(c2.establish(&mut listener, 6001));
    assert_eq!(listener.accept(), Some(SockID(LOCAL, REMOTE, 40000, 50000)));
    assert_eq!(listener.accept(), Some(SockID(LOCAL, REMOTE, 40000, 50001)));
    assert_eq!(listener.accept(), None);
}
