//! Path redirection for a sandboxed child command: the pure decisions behind
//! an enclosure (paths, trace report, cleanup, exit status, syscall decoding),
//! each stated as a contract and proved.

pub mod path;
pub mod appimage;
pub mod enclosure;
pub mod env;
pub mod idmap;
pub mod lifecycle;
pub mod mount;
pub mod report;
pub mod syscall;
pub mod wait;
