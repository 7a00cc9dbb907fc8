//! A minimal reparenting window manager's framing state engine.
//!
//! The engine owns the mapping from client windows to the frame windows that
//! decorate them, decides how each window-lifecycle event changes that
//! mapping, and emits the exact display-protocol requests to perform. It
//! never talks to a display server itself: an unverified shell queries the
//! server, feeds the replies in as plain values, and carries the returned
//! commands out in order.

pub mod manager;
pub mod protocol;
pub mod server_model;
