//! Decision core of the `magisk` command line tool.
//!
//! The library decides what the tool does and in which order; it never touches
//! the system itself. A run is a `session`: it hands out one request at a time
//! in terms of `protocol`, its host performs it and hands back the reply, until
//! the session tells with which code the tool ends.
//!
//! `exec` holds what each command does, with `mount`, `clone`, `recreate` and
//! `applet` for the longer ones, and `selinux` what may go before. `trace`
//! speaks of whole runs, and the modules whose names end in `laws` state what
//! holds of them, with `place` for which path lies inside which directory and
//! `files` for what a request may do to files. `sys` is the boundary to the
//! system's own constants.

pub mod action;
pub mod applet;
pub mod applet_laws;
pub mod clone;
pub mod command_laws;
pub mod exec;
pub mod file_laws;
pub mod files;
pub mod laws;
pub mod line_laws;
pub mod mount;
pub mod mount_laws;
pub mod path;
pub mod place;
pub mod protocol;
pub mod recreate;
pub mod recreate_laws;
pub mod root_laws;
pub mod selinux;
pub mod session;
pub mod setup_laws;
pub mod sys;
pub mod text;
pub mod text_laws;
pub mod trace;
pub mod tree_laws;
pub mod view_laws;
