//! Protocol stack and navigation core for a maze-escape game client.
//!
//! The crate covers the length-prefixed message framing codec, the compact
//! padding-free binary-to-text token codec used for maze and radar data, the
//! typed message taxonomy with its JSON wire forms, the session state machine
//! that drives registration and subscription, and the wall-following
//! navigation engine that turns decoded sensor views into moves.

pub mod encodings;
pub mod frame;
pub mod json;
pub mod messages;
pub mod parse;
pub mod server;
pub mod session;
pub mod maze_solver;

use vstd::prelude::*;

verus! {

/// Largest payload, in bytes, that a single wire frame may carry.
pub const MAX_FRAME_PAYLOAD: usize = 1048576;

} // verus!
