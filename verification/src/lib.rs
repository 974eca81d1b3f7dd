//! Request-dispatch core of a generated service framework.
//!
//! The library determines which operation handler should process an inbound
//! request, or fails with a precise, protocol-appropriate error.  It holds an
//! adaptive keyed collection used as every protocol router's route table, the
//! header-dispatch protocol router with its matching rules, uniform middleware
//! layering, host-label validation used by endpoint resolution, and the pure
//! planning half of the SDK-generation tooling (gradle invocation arguments
//! and the retry policy).  All executable code here is verified; the
//! surrounding I/O lives outside the library.

pub mod host;
pub mod router;
pub mod sdk_gen;
pub mod text;
pub mod tiny_map;
