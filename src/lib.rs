//! The connection-side core of a display-server wire protocol: the table of
//! live objects of each connection, typed handles on them, the decoding and
//! routing of requests to handlers, the destruction rules, and the registry
//! of advertised globals.

pub mod abi;
pub mod client;
pub mod globals;
pub mod laws;
pub mod map;
pub mod resources;
pub mod wire;
