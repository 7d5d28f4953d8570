use vstd::prelude::*;

verus! {

/// The connection-fatal and resource errors this engine itself raises.
/// Failures of the raw transport are the caller's to report; malformed or
/// protocol-inconsistent segments are dropped, not raised.
#[derive(Clone, Copy, PartialEq, Eq, Structural, Debug)]
pub enum TcpError {
    /// A segment was retransmitted up to the retry cap and never
    /// acknowledged: the connection must be aborted.
    RetransmissionExhausted,
    /// A payload does not fit the fixed socket buffer.
    BufferFull,
}

} // verus!
