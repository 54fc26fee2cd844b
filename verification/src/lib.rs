//! Core of a remote-desktop streaming protocol: pixel frames and their display
//! packing, length-prefixed frame transport, the input-event wire encoding, and
//! the per-tick decisions of the server and client connection loops.

pub mod batch;
pub mod capture;
pub mod codec;
pub mod connection;
pub mod decimal;
pub mod error;
pub mod event;
pub mod keys;
pub mod pixel;
pub mod text;
pub mod transport;
