//! The logic of `pdftui`, a PDF viewer for the terminal that talks to an
//! editor through SyncTeX.
//!
//! Everything here works on plain values. Running commands, talking over
//! sockets, watching files and drawing belong to the program around it.
//! Where a decision needs something from outside in the middle, the function
//! takes a closure for it, and its contract speaks of what the closure gave.

pub mod color;
pub mod command;
pub mod ipc;
pub mod messages;
pub mod number;
pub mod options;
pub mod paths;
pub mod records;
pub mod session;
pub mod synctex;
pub mod terminal;
pub mod text;
pub mod watch;
