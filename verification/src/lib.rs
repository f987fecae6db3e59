//! Request-dispatch core of a server framework: route-matching filters,
//! a declarative handler-synthesis pipeline that turns a function signature
//! into a dispatch plan, and the endpoint-metadata registry that documents
//! every synthesized handler from the same source of truth.
#![verifier::loop_isolation(false)]

pub mod dispatch;
pub mod method;
pub mod operation;
pub mod parse;
pub mod registry;
pub mod synth;
pub mod text;
