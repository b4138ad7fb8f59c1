//! Verified core of a focus-driven keyboard-layer switching daemon.
//!
//! The library holds the daemon's decision logic: the rule evaluator that
//! turns focus events into ordered engine commands, the engine-client state
//! machine with its line-oriented JSON protocol, the latched status and
//! pause broadcasters, and the session, environment and command-line
//! helpers around them.  All I/O (TCP, session bus, display servers) lives
//! outside the library and hands plain values in and out.

pub mod cli;
pub mod codec;
pub mod coordination;
pub mod engine;
pub mod environment;
pub mod evaluator;
pub mod logind;
pub mod matching;
pub mod shell;
pub mod status;
pub mod strings;
pub mod tray;
pub mod wayland;
pub mod window;
pub mod x11;
