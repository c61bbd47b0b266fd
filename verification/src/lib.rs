//! Assembly of macOS `sandbox-exec` profiles for running a build tool with
//! least privilege.
//!
//! The crate models the policy language's rules as plain values ([`policy`]),
//! renders them to the exact textual form the enforcement engine parses, and
//! derives a concrete default-deny rule set from the caller's environment
//! ([`assemble`]).  Command-line argument splitting for the wrapper binary
//! lives in [`args`].

pub mod args;
pub mod assemble;
pub mod policy;
