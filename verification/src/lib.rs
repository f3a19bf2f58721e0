//! A lightweight test harness core for program execution against a minimal
//! virtual-machine context.
//!
//! The crate covers two subsystems: the instruction-to-execution-context
//! compiler (key deduplication, privilege resolution, ordered account-list
//! assembly) and the result validation engines (declarative per-field checks
//! and structural comparison between two execution results). The actual
//! low-level program invocation is an external capability supplied by the
//! caller through the [`harness::Executor`] trait.

pub mod accounts;
pub mod bench;
pub mod check;
pub mod compare;
pub mod config;
pub mod context;
pub mod harness;
pub mod instructions_sysvar;
pub mod keys;
pub mod types;
