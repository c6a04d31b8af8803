//! Verified core of a CAN-bus node that runs the Parrot defense against
//! identifier spoofing, and of the virtual bus that the nodes share.
//!
//! The library holds the decisions and the data layout; reading and writing
//! controller registers, interrupts, sockets and printing are left to the
//! program that embeds it.

pub mod can_frame;
pub mod parse;
pub mod parrot;
pub mod communication;
pub mod bus;
pub mod device;
pub mod exchange;
pub mod node;
