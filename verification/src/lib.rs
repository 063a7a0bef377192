//! A native stand-in for the host environment of a Casper smart contract.
//!
//! A contract compiled for the chain reaches its host through a fixed set of
//! host functions. This crate emulates the part of that surface that a token
//! contract exercises, on an explicit [`host::HostContext`] that a harness
//! owns and hands to every call: the arguments of the current invocation, the
//! named-key directory, the global value store and the host buffer.

pub mod args;
pub mod assoc;
pub mod codec;
pub mod host;
pub mod host_buffer;
pub mod invocation;
pub mod laws;
pub mod named_keys;
pub mod numeric;
pub mod status;
pub mod storage;
pub mod uref;
pub mod value;
