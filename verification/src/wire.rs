use vstd::prelude::*;

verus! {

/// A room identifier on the wire.
pub type RoomId = u64;

/// Request to join a room (creating it when unseen).
#[derive(Debug, Clone, Copy, PartialEq, Eq, Structural)]
pub struct ConnectRequest {
    pub room: RoomId,
}

/// Reply to `connect`: the color tag assigned to the caller. `ok` is
/// false when the room was already full.
#[derive(Debug, Clone, Copy, PartialEq, Eq, Structural)]
pub struct ConnectResponse {
    pub player: bool,
    pub ok: bool,
}

impl Default for ConnectResponse {
    /// The reply sent alongside a conflict: no color, not ok.
    fn default() -> (r: Self)
        ensures
            r == (ConnectResponse { player: false, ok: false }),
    {
        ConnectResponse { player: false, ok: false }
    }
}

/// Request to deposit a board string for the opponent of `player`.
#[derive(Debug, Clone)]
pub struct PlayRequest {
    pub room: RoomId,
    pub player: bool,
    pub board: String,
}

/// Request to poll `player`'s own mailbox.
#[derive(Debug, Clone, Copy, PartialEq, Eq, Structural)]
pub struct QueryRequest {
    pub room: RoomId,
    pub player: bool,
}

/// Reply to `query`: the oldest pending board string, or absent when the
/// mailbox is empty or the room is missing (the same signal by design).
#[derive(Debug, Clone)]
pub struct QueryResponse {
    pub board: Option<String>,
}

impl Default for QueryResponse {
    /// The absent-board reply.
    fn default() -> (r: Self)
        ensures
            r.board is None,
    {
        QueryResponse { board: None }
    }
}

/// Request to tear a room down unconditionally.
#[derive(Debug, Clone, Copy, PartialEq, Eq, Structural)]
pub struct DisconnectRequest {
    pub room: RoomId,
}

} // verus!
