//! A verified core for two-player Xiangqi (Chinese chess): the board and
//! piece model, per-piece move generation, check detection, a compact
//! board-string codec, legal-move-set computation, and the session relay
//! that pairs two clients into a room and forwards move strings.

pub mod error;
pub mod pieces;
pub mod position;
pub mod board;
pub mod rules;
pub mod codec;
pub mod wire;
pub mod client;
pub mod moves;
pub mod relay;
