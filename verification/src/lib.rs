//! A line-delimited JSON statistics protocol: requests select a named stat
//! producer or the metadata snapshot, responses carry an OS-style errno and a
//! single `resp` payload. The registry, the wire codec, the per-line dispatch
//! decisions and the server builder live here; socket and thread plumbing is
//! left to the embedding program.

pub mod dispatch;
pub mod json;
pub mod laws;
pub mod parse;
pub mod protocol;
pub mod registry;
pub mod server;
pub mod smap;
pub mod strutil;

pub use dispatch::{conn_step, finish_stats, ConnStep};
pub use parse::decode_request;
pub use protocol::{
    build_resp, encode_response, ProducerError, ScxStatsErrno, ScxStatsRequest, ScxStatsResponse,
};
pub use registry::Registry;
pub use server::ScxStatsServer;
pub use smap::SortedStrMap;
pub use strutil::lex_lt;
