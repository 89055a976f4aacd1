//! Objects on a message bus: interfaces with methods, properties and signals,
//! the objects that offer them under hierarchical paths, the servers that own
//! a bus name, and the routing of calls and signals to them.
//!
//! The library decides and computes. It works on messages as plain values and
//! hands back the replies to send. The transport that carries messages to and
//! from the bus is not part of it.

pub mod arguments;
pub mod connection;
pub mod error;
pub mod interface;
pub mod introspect;
pub mod machine;
pub mod message;
pub mod names;
pub mod object;
pub mod registry;
pub mod runner;
pub mod server;
pub mod target;
pub mod text;
pub mod tree;
pub mod value;
