//! Provisioning library for a TLS-terminating proxy relay.
//!
//! The heart of the crate is the resumable, privilege-separated install
//! orchestration for the Xray flow: an ordered set of named steps, a
//! persisted cross-process install state, and the assembly of the ordered
//! configuration fragments that the proxy service merges by filename order.
//! Everything that decides or computes lives here, verified; process
//! spawning, prompting and file I/O stay with the binary built on top.

pub mod cipher;
pub mod errors;
pub mod install;
pub mod jsontext;
mod outside;
pub mod state;
pub mod text;
pub mod version;
