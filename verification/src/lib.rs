//! A verified command/event protocol core for driving a remote canvas.
//!
//! A controller process sends framed batches of drawing, window and audio
//! commands to a renderer process; the renderer sends input events back.
//! This crate holds the protocol's logic: the wire codec for commands,
//! events and configuration objects, the handle table that tracks graphics
//! resources, the execution engine that applies a batch in order, and the
//! session state machine that drives the handshake and the steady-state
//! loop. The window-system, font and audio calls that a forwarded command
//! finally performs are collaborators outside this crate: the engine hands
//! them out as plain command values and takes their outcomes back as plain
//! values.

pub mod codec;
pub mod command;
pub mod command_codec;
pub mod config;
pub mod engine;
pub mod event;
pub mod session;
pub mod table;
