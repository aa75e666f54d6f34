//! Verified core of the FLUX constraint tooling: the two FLUX-C bytecode
//! interpreters and the record logic of the constraint history store.
//!
//! The interpreters keep every stack slot and local as a 64-bit word holding
//! an IEEE-754 binary64 encoding.  They never compute on those numbers
//! themselves: each numeric primitive (an addition, a comparison, a test
//! against zero, a conversion) is asked of a host through a [`word::Request`]
//! and answered with a [`word::Reply`].  Everything else (decoding, stack and
//! local management, control flow, counting checks and violations, halting)
//! is verified here.

pub mod word;
pub mod stack;
pub mod bytecode;
pub mod wasm_vm;
pub mod service_vm;
pub mod store;
