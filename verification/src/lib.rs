//! A webhook relay's core: a registry of forwarding targets and the rules by
//! which one inbound event is turned into one outbound request per target.
//!
//! Everything here works on plain values. Sockets, files and tasks belong to
//! the program that embeds this library.

pub mod dispatch;
pub mod endpoint;
pub mod headers;
pub mod ident;
pub mod ingress;
pub mod registry;
pub mod target;
pub mod text;
