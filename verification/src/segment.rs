use vstd::prelude::*;
use crate::tcpflags;

verus! {

/// A TCP segment as this engine sees it: header fields as plain values plus
/// the payload bytes.  Wire-format layout and checksumming are the packet
/// library's business; the engine only fixes the field values.
pub struct TcpSegment {
    pub src_port: u16,
    pub dst_port: u16,
    pub seq: u32,
    pub ack: u32,
    pub data_offset: u8,
    pub flag: u8,
    pub window_size: u16,
    pub checksum: u16,
    pub payload: Vec<u8>,
}

/// The flag byte has the bit of `mask` set.
pub open spec fn spec_has_flag(flag: u8, mask: u8) -> bool {
    flag & mask != 0
}

/// A bare acknowledgment: no payload and exactly the ACK flag.  Such a
/// segment is regenerated from current state when needed and is never
/// individually retransmitted.
pub open spec fn spec_is_pure_ack(seg: TcpSegment) -> bool {
    seg.payload@.len() == 0 && seg.flag == tcpflags::ACK
}

/// How many sequence numbers the segment occupies: one per payload byte,
/// plus one each for SYN and FIN.
pub open spec fn spec_sequence_length(seg: TcpSegment) -> int {
    seg.payload@.len() + (if spec_has_flag(seg.flag, tcpflags::SYN) {
        1int
    } else {
        0int
    }) + (if spec_has_flag(seg.flag, tcpflags::FIN) {
        1int
    } else {
        0int
    })
}

/// Two segments carry the same header fields and the same payload bytes.
pub open spec fn seg_matches(a: TcpSegment, b: TcpSegment) -> bool {
    &&& a.src_port == b.src_port
    &&& a.dst_port == b.dst_port
    &&& a.seq == b.seq
    &&& a.ack == b.ack
    &&& a.data_offset == b.data_offset
    &&& a.flag == b.flag
    &&& a.window_size == b.window_size
    &&& a.checksum == b.checksum
    &&& a.payload@ == b.payload@
}

/// The checksum the packet library computes for a segment with these fields,
/// over the IPv4 pseudo header for the given endpoint addresses.  It depends
/// on the listed values alone.
pub uninterp spec fn checksum_of(
    src_addr: u32,
    dst_addr: u32,
    src_port: u16,
    dst_port: u16,
    seq: u32,
    ack: u32,
    data_offset: u8,
    flag: u8,
    window_size: u16,
    payload: Seq<u8>,
) -> u16;

/// Relies on pnet's `util::ipv4_checksum` (pnet_packet, util.rs): the one's
/// complement checksum over the encoded segment, the pseudo header built
/// from the two addresses, the TCP protocol number and the segment length,
/// skipping the checksum word itself.  The result is a function of the
/// segment fields and addresses alone.  The buffer holds a 20-byte header
/// and the payload, so only the option-less data offset of 5 is admitted:
/// a larger offset would make pnet's generated `set_payload` write the
/// payload beyond the buffer.
#[verifier::external_body]
fn compute_checksum(seg: &TcpSegment, src_addr: u32, dst_addr: u32) -> (r: u16)
    requires
        seg.payload@.len() <= 65515,
        seg.data_offset == 5,
    ensures
        r == checksum_of(
            src_addr,
            dst_addr,
            seg.src_port,
            seg.dst_port,
            seg.seq,
            seg.ack,
            seg.data_offset,
            seg.flag,
            seg.window_size,
            seg.payload@,
        ),
{
    let mut buf: Vec<u8> = vec![0u8; 20 + seg.payload.len()];
    let mut pkt = pnet::packet::tcp::MutableTcpPacket::new(&mut buf).unwrap();
    pkt.set_source(seg.src_port); pkt.set_destination(seg.dst_port);
    pkt.set_sequence(seg.seq); pkt.set_acknowledgement(seg.ack);
    pkt.set_data_offset(seg.data_offset); pkt.set_flags(seg.flag);
    pkt.set_window(seg.window_size); pkt.set_payload(&seg.payload);
    pnet::util::ipv4_checksum(pnet::packet::Packet::packet(&pkt), 8, &[],
        &src_addr.into(), &dst_addr.into(), pnet::packet::ip::IpNextHeaderProtocols::Tcp)
}

/// Copies the bytes of a payload into a fresh vector.
pub fn clone_bytes(v: &[u8]) -> (r: Vec<u8>)
    ensures
        r@ == v@,
{
    let mut r: Vec<u8> = Vec::new();
    let mut i: usize = 0;
    while i < v.len()
        invariant
            i <= v@.len(),
            r@ == v@.subrange(0, i as int),
        decreases v@.len() - i,
    {
        r.push(v[i]);
        i += 1;
        proof {
            assert(r@ =~= v@.subrange(0, i as int));
        }
    }
    proof {
        assert(r@ =~= v@);
    }
    r
}

impl TcpSegment {
    /// Builds a segment for the connection whose local endpoint is
    /// `(src_addr, src_port)` and remote endpoint `(dst_addr, dst_port)`,
    /// with the checksum already computed over the pseudo header.
    pub fn build(
        src_addr: u32,
        dst_addr: u32,
        src_port: u16,
        dst_port: u16,
        seq: u32,
        ack: u32,
        flag: u8,
        window_size: u16,
        payload: &[u8],
    ) -> (s: TcpSegment)
        requires
            payload@.len() <= 65515,
        ensures
            s.src_port == src_port,
            s.dst_port == dst_port,
            s.seq == seq,
            s.ack == ack,
            s.data_offset == 5,
            s.flag == flag,
            s.window_size == window_size,
            s.payload@ == payload@,
            s.checksum == checksum_of(
                src_addr,
                dst_addr,
                src_port,
                dst_port,
                seq,
                ack,
                5,
                flag,
                window_size,
                payload@,
            ),
    {
        let mut s = TcpSegment {
            src_port,
            dst_port,
            seq,
            ack,
            data_offset: 5,
            flag,
            window_size,
            checksum: 0,
            payload: clone_bytes(payload),
        };
        let c = compute_checksum(&s, src_addr, dst_addr);
        s.checksum = c;
        s
    }

    /// How many sequence numbers this segment occupies.
    pub fn sequence_length(&self) -> (r: usize)
        requires
            self.payload@.len() + 2 <= usize::MAX,
        ensures
            r == spec_sequence_length(*self),
    {
        let mut r: usize = self.payload.len();
        if self.flag & tcpflags::SYN != 0 {
            r += 1;
        }
        if self.flag & tcpflags::FIN != 0 {
            r += 1;
        }
        r
    }

    /// Whether this segment is a bare acknowledgment.
    pub fn is_pure_ack(&self) -> (r: bool)
        ensures
            r == spec_is_pure_ack(*self),
    {
        self.payload.len() == 0 && self.flag == tcpflags::ACK
    }

    /// Copies the segment, field for field.
    pub fn duplicate(&self) -> (r: TcpSegment)
        ensures
            seg_matches(r, *self),
    {
        TcpSegment {
            src_port: self.src_port,
            dst_port: self.dst_port,
            seq: self.seq,
            ack: self.ack,
            data_offset: self.data_offset,
            flag: self.flag,
            window_size: self.window_size,
            checksum: self.checksum,
            payload: clone_bytes(self.payload.as_slice()),
        }
    }
}

} // verus!
