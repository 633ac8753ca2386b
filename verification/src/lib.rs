//! Core logic of an embedded terminal bridge: the component that connects an
//! interactive shell process to a display pane through a pseudo-terminal or a
//! pipe pair.
//!
//! The modules here hold the parts of the bridge that are pure computation and
//! are verified: incremental UTF-8 reassembly and control-byte filtering of the
//! child's output, the command history and the routing of key input to the
//! child's input stream, the reader loop's cycle-by-cycle decisions, and the
//! platform policy for spawning the shell. The surrounding process plumbing
//! (allocating the transport, spawning the child, the background read thread,
//! the display widget) performs I/O and lives outside this crate.

pub mod decode;
pub mod display;
pub mod history;
pub mod reader;
pub mod router;
pub mod spawn;
