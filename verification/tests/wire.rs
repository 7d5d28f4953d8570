use pnet::packet::Packet;
use pnet::packet::tcp::MutableTcpPacket;
use toytcp::segment::TcpSegment;
use toytcp::seq_space::{wrapping_distance, wrapping_le, wrapping_lt, wrapping_step};
use toytcp::socket::{SockID, Socket};
use toytcp::status::TcpStatus;
use toytcp::tcpflags;

const LOCAL: u32 = 0xc0a8_0001; // 192.168.0.1
const REMOTE: u32 = 0xc0a8_0102; // 192.168.1.2

#[test]
fn distance_and_order_across_the_wrap() {
    assert_eq!(wrapping_distance(10, 30), 20);
    assert_eq!(wrapping_distance(30, 10), u32::MAX - 19);
    assert_eq!(wrapping_distance(0xffff_fff0, 0x10), 0x20);
    assert!(wrapping_le(0xffff_fff0, 0x10));
    assert!(wrapping_lt(0xffff_fff0, 0x10));
    assert!(!wrapping_le(0x10, 0xffff_fff0));
    assert!(wrapping_le(7, 7));
    assert!(!wrapping_lt(7, 7));
}

#[test]
fn stepping_wraps_modulo_the_space() {
    assert_eq!(wrapping_step(0, 5), 5);
    assert_eq!(wrapping_step(u32::MAX, 1), 0);
    assert_eq!(wrapping_step(u32::MAX - 5, 10), 4);
}

#[test]
fn built_segment_carries_the_requested_fields() {
    let payload = [1u8, 2, 3, 4, 5];
    let seg = TcpSegment::build(LOCAL, REMOTE, 40000, 50000, 77, 88, tcpflags::PSH
        | tcpflags::ACK, 4380, &payload);
    assert_eq!(seg.src_port, 40000);
    assert_eq!(seg.dst_port, 50000);
    assert_eq!(seg.seq, 77);
    assert_eq!(seg.ack, 88);
    assert_eq!(seg.data_offset, 5);
    assert_eq!(seg.flag, tcpflags::PSH | tcpflags::ACK);
    assert_eq!(seg.window_size, 4380);
    assert_eq!(seg.payload, payload.to_vec());
}

#[test]
fn checksum_matches_the_packet_library() {
    let payload = [0xde, 0xad, 0xbe, 0xef, 0x01];
    let seg = TcpSegment::build(LOCAL, REMOTE, 40000, 50000, 1000, 2000, tcpflags::ACK, 4380,
        &payload);
    let mut buf = vec![0u8; 20 + payload.len()];
    let mut pkt = MutableTcpPacket::new(&mut buf).unwrap();
    pkt.set_source(40000);
    pkt.set_destination(50000);
    pkt.set_sequence(1000);
    pkt.set_acknowledgement(2000);
    pkt.set_data_offset(5);
    pkt.set_flags(tcpflags::ACK);
    pkt.set_window(4380);
    pkt.set_payload(&payload);
    let expected = pnet::util::ipv4_checksum(
        pkt.packet(),
        8,
        &[],
        &LOCAL.into(),
        &REMOTE.into(),
        pnet::packet::ip::IpNextHeaderProtocols::Tcp,
    );
    assert_eq!(seg.checksum, expected);
    // A different payload gives a different checksum here, so the value
    // really depends on the segment contents.
    let other = TcpSegment::build(LOCAL, REMOTE, 40000, 50000, 1000, 2000, tcpflags::ACK, 4380,
        &[0xde, 0xad, 0xbe, 0xef, 0x02]);
    assert_ne!(other.checksum, seg.checksum);
}

#[test]
fn sock_id_is_the_four_tuple() {
    let s = Socket::new(LOCAL, REMOTE, 40000, 50000, TcpStatus::SynSent);
    assert_eq!(s.get_sock_id(), SockID(LOCAL, REMOTE, 40000, 50000));
}

#[test]
fn new_socket_starts_clean() {
    let s = Socket::new(LOCAL, REMOTE, 40000, 50000, TcpStatus::Listen);
    assert_eq!(s.status, TcpStatus::Listen);
    assert_eq!(s.send_param.unacked_seq, 0);
    assert_eq!(s.send_param.next, 0);
    assert_eq!(s.send_param.window, 4380);
    assert_eq!(s.recv_param.next, 0);
    assert_eq!(s.recv_param.window, 4380);
    assert!(s.recv_param.tails.is_empty());
    assert!(s.retransmission_queue.is_empty());
    assert!(s.connected_connection_queue.is_empty());
    assert_eq!(s.listening_socket, None);
    assert_eq!(s.recv_buffer.len(), 4380);
    assert!(s.recv_buffer.iter().all(|b| *b == 0));
}

#[test]
fn status_text_names_every_state() {
    assert_eq!(TcpStatus::Listen.text(), "LISTEN");
    assert_eq!(TcpStatus::SynSent.text(), "SYNSENT");
    assert_eq!(TcpStatus::SynRcvd.text(), "SYNRCVD");
    assert_eq!(TcpStatus::Established.text(), "ESTABLISHED");
    assert_eq!(TcpStatus::FinWait1.text(), "FINWAIT1");
    assert_eq!(TcpStatus::FinWait2.text(), "FINWAIT2");
    assert_eq!(TcpStatus::TimeWait.text(), "TIMEWAIT");
    assert_eq!(TcpStatus::CloseWait.text(), "CLOSEWAIT");
    assert_eq!(TcpStatus::LastAck.text(), "LASTACK");
}

#[test]
fn segment_sequence_length_counts_syn_and_fin() {
    let mut seg = TcpSegment::build(LOCAL, REMOTE, 1, 2, 0, 0, tcpflags::ACK, 100, &[1, 2, 3]);
    assert_eq!(seg.sequence_length(), 3);
    seg.flag = tcpflags::SYN;
    assert_eq!(seg.sequence_length(), 1 + 3);
    seg.flag = tcpflags::SYN | tcpflags::FIN;
    assert_eq!(seg.sequence_length(), 2 + 3);
}
