//! Supervision of one local backend worker: launching it, finding the port
//! it listens on, stopping it, shutting the host application down exactly
//! once, and keeping a rotating log of what went wrong.
//!
//! The library decides and the caller acts. Every function here takes plain
//! values (what the caller has seen of the file system, of the worker's
//! output, of the network) and returns plain values: the next thing to do,
//! the text to write, the envelope to answer with. Creating processes,
//! sending requests and touching files is left to the caller.

pub mod cleanup;
pub mod discovery;
pub mod envelope;
pub mod launch;
pub mod logsink;
pub mod netstat;
pub mod reply;
pub mod server;
pub mod shutdown;
pub mod stop;
pub mod supervisor;
pub mod text;
