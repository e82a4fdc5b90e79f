//! Host I/O over ARM semihosting: the decisions of the stream registry, the
//! lazily opened streams and the drain-to-completion write loop.
//!
//! Every operation that crosses into the host (OPEN, WRITE) is performed by the
//! caller; the library says which operation to issue next and what a host
//! reply means.

pub mod lazy;
pub mod streams;
pub mod writer;
