use vstd::prelude::*;
use std::collections::VecDeque;
use crate::errors::TcpError;
use crate::recv::{RecvParam, SegmentArrival, covered_pos, spec_covered, spec_disjoint_from_all};
use crate::retrans::{
    RetransmissionQueueEntry, keep_pred, advance_fn, queue_wf, spec_entry_acked,
    spec_entry_expired, purge_acked, tick, RETRANSMISSION_LIMIT,
};
use crate::segment::{TcpSegment, checksum_of, seg_matches, spec_is_pure_ack};
use crate::send::SendParam;
use crate::seq_space::{dist, seq_le, spec_step, wrapping_distance, wrapping_step, lemma_dist_add};
use crate::status::{TcpEvent, TcpStatus, Transition, spec_transition, transition};
use crate::tcpflags;

verus! {

/// Connection identity: local address, remote address, local port, remote
/// port.  Addresses are IPv4 addresses as 32-bit values.
#[derive(Debug, Clone, PartialEq, Eq, Structural, Hash, Copy)]
pub struct SockID(pub u32, pub u32, pub u16, pub u16);

/// The per-connection (or per-listener) aggregate: identity, both sequence
/// trackers, lifecycle status, the receive buffer, the queue of completed
/// handshakes (meaningful while listening), the identity of the listener
/// that spawned this connection (meaningful for accepted connections), and
/// the retransmission queue.
pub struct Socket {
    pub local_addr: u32,
    pub remote_addr: u32,
    pub local_port: u16,
    pub remote_port: u16,
    pub send_param: SendParam,
    pub recv_param: RecvParam,
    pub status: TcpStatus,
    pub connected_connection_queue: VecDeque<SockID>,
    pub listening_socket: Option<SockID>,
    pub recv_buffer: Vec<u8>,
    pub retransmission_queue: Vec<RetransmissionQueueEntry>,
}

/// The identity of a socket, as a plain value.
pub open spec fn spec_sock_id(s: Socket) -> SockID {
    SockID(s.local_addr, s.remote_addr, s.local_port, s.remote_port)
}

impl Socket {
    /// Well-formedness: both trackers are consistent, every queued segment
    /// fits a packet, and the receive buffer has its fixed size.
    pub open spec fn wf(&self) -> bool {
        &&& self.send_param.wf()
        &&& self.recv_param.wf()
        &&& queue_wf(self.retransmission_queue@)
        &&& self.recv_buffer@.len() == crate::SOCKET_BUFFER_SIZE
    }

    /// Creates a socket for the given endpoints in the given state, with
    /// both trackers at zero, empty queues, and a zeroed receive buffer.
    pub fn new(
        local_addr: u32,
        remote_addr: u32,
        local_port: u16,
        remote_port: u16,
        status: TcpStatus,
    ) -> (s: Socket)
        ensures
            s.local_addr == local_addr,
            s.remote_addr == remote_addr,
            s.local_port == local_port,
            s.remote_port == remote_port,
            s.status == status,
            s.send_param == (SendParam {
                unacked_seq: 0,
                next: 0,
                window: crate::SOCKET_BUFFER_SIZE as u16,
                initial_seq: 0,
            }),
            s.recv_param.next == 0,
            s.recv_param.window == crate::SOCKET_BUFFER_SIZE as u16,
            s.recv_param.initial_seq == 0,
            s.recv_param.tails@.len() == 0,
            s.connected_connection_queue@.len() == 0,
            s.listening_socket is None,
            s.retransmission_queue@.len() == 0,
            s.recv_buffer@.len() == crate::SOCKET_BUFFER_SIZE,
            forall|j: int|
                0 <= j < crate::SOCKET_BUFFER_SIZE ==> #[trigger] s.recv_buffer@[j] == 0,
            s.wf(),
    {
        let mut recv_buffer: Vec<u8> = Vec::new();
        let mut i: usize = 0;
        while i < crate::SOCKET_BUFFER_SIZE
            invariant
                i <= crate::SOCKET_BUFFER_SIZE,
                recv_buffer@.len() == i,
                forall|j: int| 0 <= j < i ==> #[trigger] recv_buffer@[j] == 0,
            decreases crate::SOCKET_BUFFER_SIZE - i,
        {
            recv_buffer.push(0);
            i += 1;
        }
        Socket {
            local_addr,
            remote_addr,
            local_port,
            remote_port,
            send_param: SendParam::new(crate::SOCKET_BUFFER_SIZE as u16),
            recv_param: RecvParam::new(crate::SOCKET_BUFFER_SIZE as u16),
            status,
            connected_connection_queue: VecDeque::new(),
            listening_socket: None,
            recv_buffer,
            retransmission_queue: Vec::new(),
        }
    }

    /// The connection's identity.
    pub fn get_sock_id(&self) -> (r: SockID)
        ensures
            r == spec_sock_id(*self),
    {
        SockID(self.local_addr, self.remote_addr, self.local_port, self.remote_port)
    }

    /// Builds a segment for this connection's endpoints, carrying the given
    /// cursors, flag byte and payload, with the advertised window and the
    /// checksum over the pseudo header; hands it back for the caller to put
    /// on the wire.  Unless the segment is a bare acknowledgment, it is
    /// recorded on the retransmission queue with a transmission count of
    /// one and timestamp `now`: anything carrying payload or a control flag
    /// must survive loss, while a bare acknowledgment is regenerated from
    /// current state and is never individually retransmitted.
    pub fn send_tcp_packet(
        &mut self,
        seq: u32,
        ack: u32,
        flag: u8,
        payload: &[u8],
        now: u64,
    ) -> (seg: TcpSegment)
        requires
            old(self).wf(),
            payload@.len() <= 65515,
        ensures
            final(self).wf(),
            seg.src_port == old(self).local_port,
            seg.dst_port == old(self).remote_port,
            seg.seq == seq,
            seg.ack == ack,
            seg.flag == flag,
            seg.data_offset == 5,
            seg.window_size == old(self).recv_param.window,
            seg.payload@ == payload@,
            seg.checksum == checksum_of(
                old(self).local_addr,
                old(self).remote_addr,
                old(self).local_port,
                old(self).remote_port,
                seq,
                ack,
                5,
                flag,
                old(self).recv_param.window,
                payload@,
            ),
            final(self).local_addr == old(self).local_addr,
            final(self).remote_addr == old(self).remote_addr,
            final(self).local_port == old(self).local_port,
            final(self).remote_port == old(self).remote_port,
            final(self).send_param == old(self).send_param,
            final(self).recv_param == old(self).recv_param,
            final(self).status == old(self).status,
            final(self).connected_connection_queue == old(self).connected_connection_queue,
            final(self).listening_socket == old(self).listening_socket,
            final(self).recv_buffer == old(self).recv_buffer,
            spec_is_pure_ack(seg) ==> final(self).retransmission_queue@ == old(
                self,
            ).retransmission_queue@,
            !spec_is_pure_ack(seg) ==> {
                let q0 = old(self).retransmission_queue@;
                let q1 = final(self).retransmission_queue@;
                &&& q1.len() == q0.len() + 1
                &&& q1.subrange(0, q0.len() as int) == q0
                &&& seg_matches(q1.last().packet, seg)
                &&& q1.last().latest_transmission_time == now
                &&& q1.last().transmission_count == 1
            },
    {
        let seg = TcpSegment::build(
            self.local_addr,
            self.remote_addr,
            self.local_port,
            self.remote_port,
            seq,
            ack,
            flag,
            self.recv_param.window,
            payload,
        );
        if seg.is_pure_ack() {
            return seg;
        }
        let copy = seg.duplicate();
        let ghost q0 = self.retransmission_queue@;
        self.retransmission_queue.push(RetransmissionQueueEntry::new(copy, now));
        proof {
            assert(self.retransmission_queue@.subrange(0, q0.len() as int) =~= q0);
        }
        seg
    }

    /// Feeds one event to the status machine and applies the resulting
    /// state change, if any.  Side effects (segments owed, enqueueing on a
    /// listener, destruction) are the caller's to carry out, guided by the
    /// returned transition.
    pub fn apply_event(&mut self, event: TcpEvent) -> (t: Transition)
        ensures
            t == spec_transition(old(self).status, event),
            t matches Transition::Step(s, _) ==> final(self).status == s,
            !(t matches Transition::Step(s, _)) ==> final(self).status == old(self).status,
            *final(self) == (Socket { status: final(self).status, ..*old(self) }),
    {
        let t = transition(self.status, event);
        match t {
            Transition::Step(s, _) => {
                self.status = s;
            },
            _ => {},
        }
        t
    }

    /// Applies a cumulative acknowledgment from the peer.  It is accepted
    /// exactly when it names a point strictly past the unacknowledged
    /// cursor and no further than the transmit cursor; the cursor then
    /// advances (never backward), and every retransmission entry whose
    /// sequence range the acknowledgment covers is removed — the only path
    /// by which the queue shrinks while the connection lives.
    pub fn on_ack(&mut self, ack: u32) -> (accepted: bool)
        requires
            old(self).wf(),
        ensures
            final(self).wf(),
            accepted == (0 < dist(old(self).send_param.unacked_seq, ack) <= dist(
                old(self).send_param.unacked_seq,
                old(self).send_param.next,
            )),
            seq_le(old(self).send_param.unacked_seq, final(self).send_param.unacked_seq),
            !accepted ==> *final(self) == *old(self),
            accepted ==> {
                &&& final(self).send_param.unacked_seq == ack
                &&& final(self).send_param.next == old(self).send_param.next
                &&& final(self).send_param.window == old(self).send_param.window
                &&& final(self).send_param.initial_seq == old(self).send_param.initial_seq
                &&& final(self).retransmission_queue@ == old(
                    self,
                ).retransmission_queue@.filter(keep_pred(ack))
                &&& final(self).recv_param == old(self).recv_param
                &&& final(self).status == old(self).status
                &&& final(self).local_addr == old(self).local_addr
                &&& final(self).remote_addr == old(self).remote_addr
                &&& final(self).local_port == old(self).local_port
                &&& final(self).remote_port == old(self).remote_port
                &&& final(self).connected_connection_queue == old(
                    self,
                ).connected_connection_queue
                &&& final(self).listening_socket == old(self).listening_socket
                &&& final(self).recv_buffer == old(self).recv_buffer
            },
    {
        let accepted = self.send_param.acknowledge(ack);
        if accepted {
            purge_acked(&mut self.retransmission_queue, self.send_param.unacked_seq);
        }
        accepted
    }

    /// One pass of the timer-driven retransmission engine over this
    /// socket's queue, at time `now`.  Acknowledged entries are removed,
    /// expired ones are due out again (their positions in the final queue
    /// are returned for the caller to re-send), and an expired entry at the
    /// retry cap reports the connection dead instead.
    pub fn on_timer(&mut self, now: u64) -> (r: Result<Vec<usize>, TcpError>)
        requires
            old(self).wf(),
        ensures
            final(self).wf(),
            final(self).send_param == old(self).send_param,
            final(self).recv_param == old(self).recv_param,
            final(self).status == old(self).status,
            final(self).local_addr == old(self).local_addr,
            final(self).remote_addr == old(self).remote_addr,
            final(self).local_port == old(self).local_port,
            final(self).remote_port == old(self).remote_port,
            final(self).connected_connection_queue == old(self).connected_connection_queue,
            final(self).listening_socket == old(self).listening_socket,
            final(self).recv_buffer == old(self).recv_buffer,
            r matches Err(e) ==> e == TcpError::RetransmissionExhausted
                && final(self).retransmission_queue@.len() == 0 && (exists|i: int|
                0 <= i < old(self).retransmission_queue@.len() && !spec_entry_acked(
                    #[trigger] old(self).retransmission_queue@[i],
                    old(self).send_param.unacked_seq,
                ) && spec_entry_expired(old(self).retransmission_queue@[i], now)
                    && old(self).retransmission_queue@[i].transmission_count
                    >= RETRANSMISSION_LIMIT),
            r matches Ok(out) ==> ({
                let kept = old(self).retransmission_queue@.filter(
                    keep_pred(old(self).send_param.unacked_seq),
                );
                &&& final(self).retransmission_queue@ == kept.map_values(advance_fn(now))
                &&& forall|j: int|
                    0 <= j < out@.len() ==> (#[trigger] out@[j]) < kept.len()
                        && spec_entry_expired(kept[out@[j] as int], now)
                &&& forall|i: int|
                    0 <= i < kept.len() && spec_entry_expired(#[trigger] kept[i], now)
                        ==> out@.contains(i as usize)
                &&& forall|a: int, b: int|
                    #![trigger out@[a], out@[b]]
                    0 <= a < b < out@.len() ==> out@[a] < out@[b]
            }),
    {
        tick(&mut self.retransmission_queue, self.send_param.unacked_seq, now)
    }

    /// Passive open: a listening socket for the local endpoint, with the
    /// remote endpoint wildcarded.
    pub fn listen(local_addr: u32, local_port: u16) -> (s: Socket)
        ensures
            s.local_addr == local_addr,
            s.local_port == local_port,
            s.remote_addr == 0,
            s.remote_port == 0,
            s.status == TcpStatus::Listen,
            s.connected_connection_queue@.len() == 0,
            s.retransmission_queue@.len() == 0,
            s.wf(),
    {
        Socket::new(local_addr, 0, local_port, 0, TcpStatus::Listen)
    }

    /// Active open: allocates the connection in SynSent with the chosen
    /// initial sequence number, builds the SYN, records it for
    /// retransmission, and hands it back to be put on the wire.
    pub fn connect(
        local_addr: u32,
        remote_addr: u32,
        local_port: u16,
        remote_port: u16,
        own_initial_seq: u32,
        now: u64,
    ) -> (r: (Socket, TcpSegment))
        ensures
            r.0.local_addr == local_addr,
            r.0.remote_addr == remote_addr,
            r.0.local_port == local_port,
            r.0.remote_port == remote_port,
            r.0.status == TcpStatus::SynSent,
            r.0.send_param.unacked_seq == own_initial_seq,
            dist(own_initial_seq, r.0.send_param.next) == 1,
            r.0.send_param.initial_seq == own_initial_seq,
            r.0.wf(),
            r.1.src_port == local_port,
            r.1.dst_port == remote_port,
            r.1.seq == own_initial_seq,
            r.1.ack == 0,
            r.1.flag == tcpflags::SYN,
            r.1.window_size == crate::SOCKET_BUFFER_SIZE as u16,
            r.1.payload@.len() == 0,
            r.1.checksum == checksum_of(
                local_addr,
                remote_addr,
                local_port,
                remote_port,
                own_initial_seq,
                0,
                5,
                tcpflags::SYN,
                crate::SOCKET_BUFFER_SIZE as u16,
                Seq::<u8>::empty(),
            ),
            r.0.retransmission_queue@.len() == 1,
            seg_matches(r.0.retransmission_queue@[0].packet, r.1),
            r.0.retransmission_queue@[0].latest_transmission_time == now,
            r.0.retransmission_queue@[0].transmission_count == 1,
    {
        let mut s = Socket::new(local_addr, remote_addr, local_port, remote_port,
            TcpStatus::SynSent);
        s.send_param.unacked_seq = own_initial_seq;
        s.send_param.next = own_initial_seq;
        s.send_param.initial_seq = own_initial_seq;
        let empty: [u8; 0] = [];
        proof {
            assert(empty@ =~= Seq::<u8>::empty());
        }
        let seg = s.send_tcp_packet(own_initial_seq, 0, tcpflags::SYN, &empty, now);
        s.send_param.advance_next(1);
        (s, seg)
    }

    /// Active-open completion: in SynSent, the peer's SYN+ACK with sequence
    /// number `peer_seq` acknowledging our SYN makes the connection
    /// Established; the receive cursor is seeded one past the peer's
    /// sequence number, the acknowledged SYN leaves the retransmission
    /// queue, and the ACK owed to the peer is built and handed back
    /// (a bare acknowledgment, so it is not queued for retransmission).
    /// Any other acknowledgment, or any other state, changes nothing.
    pub fn on_syn_ack(&mut self, peer_seq: u32, ack: u32, now: u64) -> (r: Option<TcpSegment>)
        requires
            old(self).wf(),
        ensures
            final(self).wf(),
            seq_le(old(self).send_param.unacked_seq, final(self).send_param.unacked_seq),
            (r is Some) == (old(self).status == TcpStatus::SynSent && ack == old(
                self,
            ).send_param.next && 0 < dist(old(self).send_param.unacked_seq, ack)),
            r is None ==> *final(self) == *old(self),
            r matches Some(seg) ==> {
                &&& final(self).status == TcpStatus::Established
                &&& final(self).send_param.unacked_seq == ack
                &&& final(self).recv_param.next == spec_step(peer_seq, 1)
                &&& final(self).recv_param.initial_seq == peer_seq
                &&& final(self).recv_param.tails@.len() == 0
                &&& final(self).retransmission_queue@ == old(
                    self,
                ).retransmission_queue@.filter(keep_pred(ack))
                &&& final(self).local_addr == old(self).local_addr
                &&& final(self).remote_addr == old(self).remote_addr
                &&& final(self).local_port == old(self).local_port
                &&& final(self).remote_port == old(self).remote_port
                &&& final(self).recv_param.window == old(self).recv_param.window
                &&& seg.src_port == old(self).local_port
                &&& seg.dst_port == old(self).remote_port
                &&& seg.flag == tcpflags::ACK
                &&& seg.seq == ack
                &&& seg.ack == spec_step(peer_seq, 1)
                &&& seg.window_size == old(self).recv_param.window
                &&& seg.payload@.len() == 0
                &&& seg.checksum == checksum_of(
                    old(self).local_addr,
                    old(self).remote_addr,
                    old(self).local_port,
                    old(self).remote_port,
                    ack,
                    spec_step(peer_seq, 1),
                    5,
                    tcpflags::ACK,
                    old(self).recv_param.window,
                    Seq::<u8>::empty(),
                )
            },
    {
        let is_syn_sent = match self.status {
            TcpStatus::SynSent => true,
            _ => false,
        };
        if !(is_syn_sent && ack == self.send_param.next) {
            return None;
        }
        let accepted = self.send_param.acknowledge(ack);
        if !accepted {
            return None;
        }
        purge_acked(&mut self.retransmission_queue, self.send_param.unacked_seq);
        self.status = TcpStatus::Established;
        let seeded = wrapping_step(peer_seq, 1);
        self.recv_param.next = seeded;
        self.recv_param.initial_seq = peer_seq;
        // Nothing received before the handshake completes is valid data:
        // the connection starts with an empty out-of-order record.
        self.recv_param.tails = Vec::new();
        let empty: [u8; 0] = [];
        proof {
            assert(empty@ =~= Seq::<u8>::empty());
        }
        let seg = self.send_tcp_packet(ack, seeded, tcpflags::ACK, &empty, now);
        Some(seg)
    }

    /// Collects one completed handshake from a listening socket: the
    /// identity at the head of the connected-connection queue, if any.
    /// Blocking until one arrives is the driver's affair.
    pub fn accept(&mut self) -> (r: Option<SockID>)
        ensures
            old(self).connected_connection_queue@.len() == 0 ==> r is None
                && final(self).connected_connection_queue@ == old(
                self,
            ).connected_connection_queue@,
            old(self).connected_connection_queue@.len() > 0 ==> r == Some(
                old(self).connected_connection_queue@[0],
            ) && final(self).connected_connection_queue@ == old(
                self,
            ).connected_connection_queue@.subrange(
                1,
                old(self).connected_connection_queue@.len() as int,
            ),
            *final(self) == (Socket {
                connected_connection_queue: final(self).connected_connection_queue,
                ..*old(self)
            }),
    {
        self.connected_connection_queue.pop_front()
    }

    /// Passive-open handshake step: a SYN with sequence number `peer_seq`
    /// arrived at this listening socket from `(remote_addr, remote_port)`.
    /// A child socket is allocated in SynRcvd, its receive cursor seeded
    /// one past the peer's sequence number, its send cursors at the chosen
    /// initial sequence number `own_initial_seq`; the SYN+ACK reply is
    /// built, recorded for retransmission, and handed back to be put on
    /// the wire.
    pub fn on_syn_received(
        &self,
        remote_addr: u32,
        remote_port: u16,
        peer_seq: u32,
        own_initial_seq: u32,
        now: u64,
    ) -> (r: (Socket, TcpSegment))
        requires
            self.status == TcpStatus::Listen,
        ensures
            r.0.local_addr == self.local_addr,
            r.0.remote_addr == remote_addr,
            r.0.local_port == self.local_port,
            r.0.remote_port == remote_port,
            r.0.status == TcpStatus::SynRcvd,
            r.0.recv_param.next == spec_step(peer_seq, 1),
            dist(peer_seq, r.0.recv_param.next) == 1,
            r.0.recv_param.initial_seq == peer_seq,
            r.0.recv_param.tails@.len() == 0,
            r.0.send_param.unacked_seq == own_initial_seq,
            dist(own_initial_seq, r.0.send_param.next) == 1,
            r.0.send_param.initial_seq == own_initial_seq,
            r.0.listening_socket == Some(spec_sock_id(*self)),
            r.0.connected_connection_queue@.len() == 0,
            r.0.wf(),
            r.1.src_port == self.local_port,
            r.1.dst_port == remote_port,
            r.1.seq == own_initial_seq,
            r.1.ack == spec_step(peer_seq, 1),
            r.1.flag == (tcpflags::SYN | tcpflags::ACK),
            r.1.window_size == crate::SOCKET_BUFFER_SIZE as u16,
            r.1.payload@.len() == 0,
            r.1.checksum == checksum_of(
                self.local_addr,
                remote_addr,
                self.local_port,
                remote_port,
                own_initial_seq,
                spec_step(peer_seq, 1),
                5,
                tcpflags::SYN | tcpflags::ACK,
                crate::SOCKET_BUFFER_SIZE as u16,
                Seq::<u8>::empty(),
            ),
            r.0.retransmission_queue@.len() == 1,
            seg_matches(r.0.retransmission_queue@[0].packet, r.1),
            r.0.retransmission_queue@[0].latest_transmission_time == now,
            r.0.retransmission_queue@[0].transmission_count == 1,
    {
        let mut child = Socket::new(
            self.local_addr,
            remote_addr,
            self.local_port,
            remote_port,
            TcpStatus::SynRcvd,
        );
        child.listening_socket = Some(self.get_sock_id());
        child.recv_param.next = wrapping_step(peer_seq, 1);
        child.recv_param.initial_seq = peer_seq;
        child.send_param.unacked_seq = own_initial_seq;
        child.send_param.next = own_initial_seq;
        child.send_param.initial_seq = own_initial_seq;
        let empty: [u8; 0] = [];
        proof {
            assert(empty@ =~= Seq::<u8>::empty());
        }
        let seg = child.send_tcp_packet(
            own_initial_seq,
            child.recv_param.next,
            tcpflags::SYN | tcpflags::ACK,
            &empty,
            now,
        );
        proof {
            assert((tcpflags::SYN | tcpflags::ACK) != tcpflags::ACK) by (bit_vector);
        }
        child.send_param.advance_next(1);
        (child, seg)
    }

    /// Handshake completion at an accepted connection: in SynRcvd, the
    /// peer's ACK of the SYN+ACK makes the connection Established, and the
    /// connection's identity is enqueued on its listener's queue of
    /// completed handshakes for `accept` to collect.  Any other
    /// acknowledgment, or any other state, changes nothing.
    pub fn establish(&mut self, listener: &mut Socket, ack: u32) -> (ok: bool)
        requires
            old(self).wf(),
        ensures
            final(self).wf(),
            seq_le(old(self).send_param.unacked_seq, final(self).send_param.unacked_seq),
            ok == (old(self).status == TcpStatus::SynRcvd && ack == old(self).send_param.next && 0
                < dist(old(self).send_param.unacked_seq, ack)),
            !ok ==> *final(self) == *old(self) && *final(listener) == *old(listener),
            ok ==> {
                &&& final(self).status == TcpStatus::Established
                &&& final(self).send_param.unacked_seq == ack
                &&& final(self).send_param.next == old(self).send_param.next
                &&& final(self).retransmission_queue@ == old(
                    self,
                ).retransmission_queue@.filter(keep_pred(ack))
                &&& final(self).recv_param == old(self).recv_param
                &&& final(listener).connected_connection_queue@ == old(
                    listener,
                ).connected_connection_queue@.push(spec_sock_id(*old(self)))
                &&& *final(listener) == (Socket {
                    connected_connection_queue: final(listener).connected_connection_queue,
                    ..*old(listener)
                })
            },
    {
        let is_syn_rcvd = match self.status {
            TcpStatus::SynRcvd => true,
            _ => false,
        };
        if !(is_syn_rcvd && ack == self.send_param.next) {
            return false;
        }
        let accepted = self.send_param.acknowledge(ack);
        if !accepted {
            return false;
        }
        purge_acked(&mut self.retransmission_queue, self.send_param.unacked_seq);
        self.status = TcpStatus::Established;
        let id = self.get_sock_id();
        listener.connected_connection_queue.push_back(id);
        true
    }

    /// Reacts to an arrived payload segment with sequence number `seq`.
    ///
    /// The receive tracker classifies the range exactly as
    /// `RecvParam::on_segment` does; whenever the payload is kept
    /// (delivered in order, or recorded out of order) its bytes are also
    /// copied into the receive buffer at the offset of `seq` from the
    /// pre-arrival cursor, leaving every other buffer byte untouched.  A
    /// range that would not fit the buffer is dropped unchanged.  The
    /// cursor never moves backward, and the acknowledgment owed to the
    /// peer after any arrival is always the final cursor.
    pub fn receive_payload(&mut self, seq: u32, payload: &[u8]) -> (r: SegmentArrival)
        requires
            old(self).wf(),
            payload@.len() <= 65515,
        ensures
            final(self).wf(),
            final(self).send_param == old(self).send_param,
            final(self).status == old(self).status,
            final(self).local_addr == old(self).local_addr,
            final(self).remote_addr == old(self).remote_addr,
            final(self).local_port == old(self).local_port,
            final(self).remote_port == old(self).remote_port,
            final(self).retransmission_queue == old(self).retransmission_queue,
            final(self).connected_connection_queue == old(self).connected_connection_queue,
            final(self).listening_socket == old(self).listening_socket,
            final(self).recv_param.window == old(self).recv_param.window,
            final(self).recv_param.initial_seq == old(self).recv_param.initial_seq,
            seq_le(old(self).recv_param.next, final(self).recv_param.next),
            ({
                let n0 = old(self).recv_param.next;
                let d0 = dist(n0, seq);
                let n = payload@.len() as int;
                let end = spec_step(seq, n);
                let t0 = old(self).recv_param.tails@;
                &&& (r == SegmentArrival::Delivered <==> (d0 == 0 && 0 < n
                    <= crate::SOCKET_BUFFER_SIZE))
                &&& (r == SegmentArrival::Duplicate <==> d0 >= 0x8000_0000)
                &&& (r == SegmentArrival::Stored <==> (0 < d0 && 0 < n && d0 + n
                    <= crate::SOCKET_BUFFER_SIZE && (spec_covered(t0, n0, seq, end)
                    || spec_disjoint_from_all(t0, n0, seq, end))))
                &&& ((r == SegmentArrival::Duplicate || r == SegmentArrival::Dropped)
                    ==> *final(self) == *old(self))
                &&& ((r == SegmentArrival::Delivered || r == SegmentArrival::Stored) ==> {
                    &&& forall|j: int|
                        0 <= j < n ==> #[trigger] final(self).recv_buffer@[d0 + j] == payload@[j]
                    &&& forall|j: int|
                        0 <= j < crate::SOCKET_BUFFER_SIZE && !(d0 <= j < d0 + n)
                            ==> #[trigger] final(self).recv_buffer@[j] == old(
                            self,
                        ).recv_buffer@[j]
                })
                &&& (r == SegmentArrival::Stored && spec_covered(t0, n0, seq, end)
                    ==> final(self).recv_param == old(self).recv_param)
                &&& (r == SegmentArrival::Stored && !spec_covered(t0, n0, seq, end)
                    ==> exists|k: int|
                    0 <= k <= t0.len() && final(self).recv_param.tails@ == #[trigger] t0.insert(
                        k,
                        (seq, end),
                    ))
                &&& (r == SegmentArrival::Stored ==> {
                    &&& final(self).recv_param.next == n0
                    &&& forall|i: int|
                        0 <= i < t0.len() ==> final(self).recv_param.tails@.contains(
                            #[trigger] t0[i],
                        )
                    &&& forall|i: int|
                        0 <= i < final(self).recv_param.tails@.len()
                            ==> #[trigger] final(self).recv_param.tails@[i] == (seq, end)
                            || t0.contains(final(self).recv_param.tails@[i])
                    &&& spec_covered(final(self).recv_param.tails@, n0, seq, end)
                })
                &&& (r == SegmentArrival::Delivered ==> {
                    let folded = t0.len() - final(self).recv_param.tails@.len();
                    &&& final(self).recv_param.tails@.len() <= t0.len()
                    &&& final(self).recv_param.tails@ == t0.subrange(
                        folded as int,
                        t0.len() as int,
                    )
                    &&& n <= dist(n0, final(self).recv_param.next) < 0x8000_0000
                    &&& forall|i: int|
                        0 <= i < folded ==> dist(n0, (#[trigger] t0[i]).1) <= dist(
                            n0,
                            final(self).recv_param.next,
                        )
                    &&& forall|i: int|
                        folded <= i < t0.len() ==> dist(n0, (#[trigger] t0[i]).0) > dist(
                            n0,
                            final(self).recv_param.next,
                        )
                    &&& forall|p: int|
                        n <= p < dist(n0, final(self).recv_param.next)
                            ==> #[trigger] covered_pos(t0, folded as int, n0, p)
                    &&& (final(self).recv_param.next == end || exists|i: int|
                        0 <= i < folded && final(self).recv_param.next == (#[trigger] t0[i]).1)
                })
            }),
    {
        let len = payload.len();
        let off = wrapping_distance(self.recv_param.next, seq);
        if off < 0x8000_0000 && (off as u64) + (len as u64) > (crate::SOCKET_BUFFER_SIZE
            as u64) {
            return SegmentArrival::Dropped;
        }
        let end = wrapping_step(seq, len as u32);
        proof {
            if dist(old(self).recv_param.next, seq) < 0x8000_0000 {
                lemma_dist_add(old(self).recv_param.next, seq, end);
            }
        }
        let r = self.recv_param.on_segment(seq, end);
        let keep = match r {
            SegmentArrival::Delivered => true,
            SegmentArrival::Stored => true,
            _ => false,
        };
        if keep {
            let off_us = off as usize;
            let ghost mid = *self;
            let mut i: usize = 0;
            while i < len
                invariant
                    i <= len,
                    off_us == off,
                    off + len <= crate::SOCKET_BUFFER_SIZE,
                    len == payload@.len(),
                    self.recv_buffer@.len() == crate::SOCKET_BUFFER_SIZE,
                    forall|j: int|
                        0 <= j < i ==> #[trigger] self.recv_buffer@[off + j] == payload@[j],
                    forall|j: int|
                        0 <= j < crate::SOCKET_BUFFER_SIZE && !(off <= j < off + i)
                            ==> #[trigger] self.recv_buffer@[j] == mid.recv_buffer@[j],
                    *self == (Socket { recv_buffer: self.recv_buffer, ..mid }),
                decreases len - i,
            {
                let b = payload[i];
                self.recv_buffer[off_us + i] = b;
                i += 1;
            }
        }
        r
    }
}

} // verus!
