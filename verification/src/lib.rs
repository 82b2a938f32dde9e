//! rconc: a registry of named remote-administration endpoints and the
//! decision logic of a command-line client around it.
//!
//! The library owns the profile store (add / remove / list / lookup with a
//! persisted document format), credential-resolution decisions, selector
//! routing, session-mode decisions and the mapping from failures to process
//! exit codes.  All I/O (terminal, files, the remote connection) lives in the
//! surrounding binary, which calls into these verified functions.

pub mod creds;
pub mod errors;
pub mod persist;
pub mod router;
pub mod session;
pub mod store;
pub mod text;
