//! Userspace control plane for a BPF-LSM write enforcer.
//!
//! The crate decides; the program around it performs. Every rule of the control
//! plane is here as a verified function on plain values: which paths a profile
//! allows, what is written to the kernel maps, what a map dump says, when the
//! deadman timer fires, and what each precondition probe means.

pub mod audit;
pub mod bpf;
pub mod command;
pub mod deadman;
pub mod doctor;
pub mod dump;
pub mod enforcer;
pub mod json;
pub mod laws;
pub mod pids;
pub mod policy;
pub mod session;
pub mod status;
pub mod text;
