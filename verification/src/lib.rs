//! A capture-and-demultiplexing pipeline core: it classifies captured
//! link-layer frames, keeps the UDP payloads addressed to or from one
//! well-known port, and hands them, per interface in arrival order, to a
//! stateful stream decoder.
pub mod frame;
pub mod ifaces;
pub mod pump;
