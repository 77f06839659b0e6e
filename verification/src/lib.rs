//! A typed symbolic term algebra with its evaluator, together with the
//! trace machinery that feeds evaluated terms into a protocol
//! implementation under test.
//!
//! Terms are built from typed function symbols drawn from a signature and
//! from variables that are resolved against recorded knowledge. The
//! evaluator walks a term, resolves each variable, and invokes the erased
//! host functions; the trace engine drives agents step by step and checks
//! security claims against a policy.

pub mod error;
pub mod fmt;
pub mod types;
pub mod value;
pub mod host;
pub mod once;
pub mod atoms;
pub mod signature;
pub mod term;
pub mod knowledge;
pub mod strings;
pub mod zoo;
pub mod persist;
pub mod trace;
pub mod payload;
pub mod hash_hs;
pub mod suites;
pub mod tls13;
pub mod transcript;
pub mod graphviz;
