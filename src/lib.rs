//! Host-side USB device lifecycle and transfer layer.
//!
//! The native host driver does the bus work; this library decides. It keeps
//! the enumeration session and its opened devices, guards every device
//! against use after close, resolves string descriptors, runs the
//! detach / claim / bulk-transfer sequence one native answer at a time, and
//! says which native resources to release, in which order, at teardown.
use vstd::prelude::*;

pub mod error;
pub mod text;
pub mod resolver;
pub mod comms;
pub mod device;
pub mod registry;

verus! {

} // verus!
