//! Command authorization guard for a pull-based backup orchestrator.
//!
//! A backup host reaches this library's binary through an SSH forced
//! command or through a privilege-escalation wrapper.  The attacker may
//! influence the command line that arrives, so the guard parses it, checks
//! it against the host's configured policy, strips unsafe arguments,
//! resolves the real executable, and only then lets the caller replace the
//! process image.  Everything that decides whether and what to execute
//! lives here and is verified; the thin shell around it (process startup,
//! logging, configuration loading, the final `exec`) stays outside.

pub mod args;
pub mod backup;
pub mod config;
pub mod errors;
pub mod fsops;
pub mod pathmodel;
pub mod rsync_cmd;
pub mod rsync_util;
pub mod snapshots;
pub mod ssh;
pub mod strutil;
pub mod sudo;
