use vstd::prelude::*;

verus! {

// TCP control flags, one bit each in the segment's flag byte.

pub const CWR: u8 = 0b1000_0000;

pub const ECE: u8 = 0b0100_0000;

pub const URG: u8 = 0b0010_0000;

pub const ACK: u8 = 0b0001_0000;

pub const PSH: u8 = 0b0000_1000;

pub const RST: u8 = 0b0000_0100;

pub const SYN: u8 = 0b0000_0010;

pub const FIN: u8 = 0b0000_0001;

} // verus!
