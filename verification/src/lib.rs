use vstd::prelude::*;

pub mod errors;
pub mod recv;
pub mod retrans;
pub mod segment;
pub mod send;
pub mod socket;
pub mod seq_space;
pub mod status;
pub mod tcpflags;

verus! {

/// Number of payload bytes a socket buffers on each side.
pub const SOCKET_BUFFER_SIZE: usize = 4380;

} // verus!
