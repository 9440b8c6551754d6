//! Congestion-control decision logic: the Copa window machine, its
//! windowed RTT filters, and the packet-accounting driver of the BBRv2
//! controller.

pub mod clock;
pub mod filter;
pub mod copa;
pub mod copa_laws;
pub mod newbbr2;
