//! Core of a tool that runs several shell commands at once and zips their
//! line-oriented output into one stream, round by round.
//!
//! The crate holds the decisions of that tool as verified functions on plain
//! values: parsing a command line with its options, what a reader does with
//! each chunk of a command's output, and how the multiplexer interleaves the
//! chunks it receives. Spawning processes, channels and terminal I/O are left
//! to the program built around it.

pub mod cmds;
pub mod mux;
pub mod options;
pub mod reader;
pub mod text;
pub mod zip;

pub use cmds::{get_commands, Cmd, Threading};
pub use mux::{Finished, Mux, MuxAction, MuxEvent};
pub use options::CmdOpts;
pub use reader::{ReadAction, ReadEnd, ReadEvent, Reader};
