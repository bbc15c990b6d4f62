//! Core of an HTTP reverse proxy that multiplexes virtual connections over
//! one transport.
//!
//! - `header` and `frames`: the binary frame format; every frame starts with
//!   a fixed header naming its kind, flags, virtual connection and length.
//! - `config`: virtual hosts and locations, and the choice of location for a
//!   request.
//! - `keyed` and `cache`: the cache of open backend sessions by route.
//! - `dispatch`: the decisions taken for each request, and the `server`
//!   header added to each response.
//! - `bootstrap`: rules for starting listeners.
use vstd::prelude::*;

pub mod header;
pub mod frames;
pub mod config;
pub mod keyed;
pub mod cache;
pub mod dispatch;
pub mod bootstrap;

verus! {

} // verus!
