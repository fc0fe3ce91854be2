//! A minimal HTTP/1.1 server library: a byte-level request parser, a pure
//! router over a fixed route table, a wire-exact response serializer, and the
//! worker pool's job queue. Listening, reading and writing sockets, threads,
//! and file storage are left to the embedding program; everything here is
//! plain logic on bytes, each function verified against its contract.

pub mod bytes;
pub mod laws;
pub mod pool;
pub mod request;
pub mod response;
pub mod router;
