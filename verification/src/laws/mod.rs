//! What the operations are for.
//!
//! Each law is stated over the inputs and the results of an operation, as far as
//! it can be without the definitions that the operation's contract uses.

pub mod bpf;
pub mod command;
pub mod deadman;
pub mod doctor;
pub mod dump;
pub mod enforcer;
pub mod json;
pub mod policy;
pub mod status;
pub mod text;
