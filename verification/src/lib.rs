//! The device-facing multiplexer of a virtio vsock device.
//!
//! The muxer owns the bookkeeping between a guest's vsock driver and the host
//! backends: which connections are live, which of them have a packet to
//! deliver, which file descriptors are polled, which host-side ports are taken
//! and which connections are due to be terminated. Everything that touches the
//! operating system (epoll, sockets, the clock) happens outside: a method of
//! [`muxer::VsockMuxer`] takes the outcome of such work as a plain value,
//! updates the bookkeeping, and returns what is to be done next.

pub mod calls;
pub mod conn;
pub mod decimal;
pub mod defs;
pub mod effects;
pub mod error;
pub mod events;
pub mod killq;
pub mod laws;
pub mod listener;
pub mod muxer;
pub mod packet;
pub mod ports;
pub mod request;
pub mod rxq;
pub mod state;
pub mod steps;
