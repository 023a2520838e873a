//! Routing, rewriting and credential injection for a small reverse proxy.
//!
//! The library decides and never sends. A request that came in is matched
//! against the configured rules ([`route`]), rewritten for the upstream of
//! the first rule that matches ([`forward`]) and, where that rule asks for
//! it, given credentials from a separate endpoint ([`auth`]). [`proxy`] puts
//! this together as a sequence of steps: each step is a function of plain
//! values that says what to send next, and takes the outcome of the sending
//! as the argument of the step that follows. [`laws`] states what holds of
//! every request, whatever is configured and whatever comes back.
//!
//! Header fields are ordered lists of names and values ([`header`]); names
//! are compared without regard to the case of ASCII letters. Whether a field
//! can be written on the wire is asked of the `http` crate ([`wire`]).

pub mod auth;
pub mod config;
pub mod error;
pub mod forward;
pub mod header;
pub mod laws;
pub mod message;
pub mod proxy;
pub mod route;
pub mod text;
pub mod wire;

pub use error::{Error, Result};
