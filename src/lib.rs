//! Request observability for an HTTP service: reading the client's and the
//! server's identity out of proxy headers, and the attributes of the span that
//! each request opens, completes with its response or failure, and closes.

use vstd::prelude::*;

pub mod attributes;
pub mod config;
pub mod forwarded;
pub mod headers;
pub mod identity;
pub mod span;
pub mod text;

verus! {

} // verus!
