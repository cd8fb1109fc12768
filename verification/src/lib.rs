//! A boundary-validation and invariant-checking harness for a kernel-like
//! environment.
//!
//! The crate has two halves. The fuzz decoders ([`syscall`], [`allocator`],
//! [`ipc`], [`path`]) parse untrusted byte buffers into structured operation
//! requests and enforce the boundary checks a privileged entry point must
//! enforce, declining malformed or out-of-range input without any effect.
//! The property side ([`domain`], [`props`]) provides generators and
//! shrinkers for kernel domain values (addresses, memory regions, tasks)
//! and invariant predicates over them, each returning a pass/fail/discard
//! verdict.
//!
//! Every decoder and predicate is total: no input makes one panic.

pub mod allocator;
pub mod bytes;
pub mod domain;
pub mod ipc;
pub mod path;
pub mod props;
pub mod syscall;
