//! Client side of a simple time-synchronization protocol: the 48-byte message layout, the check
//! of a numeric server address, and the decoding and rendering of a reply's transmit time.

pub mod address;
pub mod calendar;
pub mod decode;
pub mod packet;
