//! Compile-time span instrumentation, verified.
//!
//! Given the definition of a function, this library decides where tracing
//! spans belong: awaited query and HTTP calls are wrapped in named spans,
//! early returns of errors mark the active span, and the whole body is
//! enclosed in a function-level span.  The function is modelled as an
//! explicit expression tree; the host-language front end converts to and
//! from that tree at the edge.

pub mod ast;
pub mod attr_options;
pub mod dig;
pub mod handle_reqwest;
pub mod handle_sqlx;
pub mod laws;
pub mod line;
pub mod path;
pub mod trace;
pub mod transform;
