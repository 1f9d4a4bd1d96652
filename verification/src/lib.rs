//! A safe, verified interface to the POSIX process-replacement calls
//! (`execvp`, `execvpe`).
//!
//! The library converts high-level byte strings into the null-terminated
//! buffers the operating system's `exec` family requires, guarding against
//! embedded null bytes, and classifies the outcome of a failed call.  The
//! actual system call never returns on success, so every fallible entry
//! point returns a bare [`Error`] rather than a `Result`.
//!
//! The unsafe pointer-table handoff to the operating system lives in the
//! embedding program; this crate owns the buffers and proves the marshalling
//! exact: which inputs are accepted, what each produced buffer holds, and
//! which error is returned for each rejected input.

pub mod command;
pub mod error;
pub mod marshal;

pub use command::Command;
pub use error::{classify_exec_return, Error, NulError};
pub use marshal::{prepare_execvp, prepare_execvpe, to_argv, to_envp, to_program_cstring};
pub use marshal::{Argv, Envp};
