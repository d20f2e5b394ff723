//! The request gateway of a full-stack web server: it routes each request either to a
//! registered server function or to the server-side render of the application, threads
//! one per-request context through the work, and merges the response changes staged in
//! that context into the final response.
//!
//! - `bytes`: byte-string helpers (ASCII case, substring search, header text).
//! - `headers`: an ordered header multimap.
//! - `context`: the per-request context: request head, staged response, injected values.
//! - `providers`: factories whose values every function call receives.
//! - `response`: response heads, the staged-response merge and the form-post redirect.
//! - `gateway`: errors and their replies, and the render path's request checks.
//! - `router`: the route table and the two halves of a function call.
use vstd::prelude::*;

pub mod bytes;
pub mod headers;
pub mod context;
pub mod providers;
pub mod response;
pub mod gateway;
pub mod router;

verus! {

} // verus!
