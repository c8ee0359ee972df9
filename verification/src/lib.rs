//! Command-line front end logic for a torrent daemon client.
//!
//! One run of the client is one exchange with the daemon. This crate holds
//! every decision of such a run, free of I/O:
//!
//! - [`arguments`] gives the argument list its grammar and scans it;
//! - [`command`] reads the words of the list as a command and writes the
//!   command as a request line;
//! - [`config`] puts both together into a [`config::Config`], with defaults;
//! - [`session`] drives the exchange as a state machine that a transport
//!   loop feeds with the outcome of each step;
//! - [`ending`] says how the run ends;
//! - [`text`] holds trimming and comparison of texts.

pub mod arguments;
pub mod command;
pub mod config;
pub mod ending;
pub mod session;
pub mod text;
