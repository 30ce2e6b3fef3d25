use vstd::prelude::*;

use crate::board::{Board, opening_view};
use crate::codec::{decode, spec_serialize, wire_ok};
use crate::pieces::PieceColor;
use crate::position::Position;
use crate::wire::RoomId;

verus! {

/// The color this client plays.
#[derive(Debug, Clone, Copy, PartialEq, Eq, Structural)]
pub struct Player {
    pub color: PieceColor,
}

/// The client's connection state: relay URL, hashed room id, and the
/// assigned color once a connect response arrived.
#[derive(Debug, Clone)]
pub struct Connection {
    pub url: String,
    pub room: RoomId,
    pub player: Option<Player>,
}

impl Connection {
    /// A connection is established once a color has been assigned.
    pub fn is_connected(&self) -> (b: bool)
        ensures
            b == (self.player is Some),
    {
        self.player.is_some()
    }

    /// Records the color a connect response assigned.
    pub fn assign(&mut self, tag: bool)
        ensures
            final(self).url == old(self).url,
            final(self).room == old(self).room,
            final(self).player matches Some(p) && p.color.spec_tag() == tag,
    {
        self.player = Some(Player { color: PieceColor::from_tag(tag) });
    }
}

impl Default for Connection {
    /// No URL, room 0, not connected.
    fn default() -> (r: Self)
        ensures
            r.url@ == Seq::<char>::empty(),
            r.room == 0,
            r.player is None,
    {
        Connection { url: String::new(), room: 0, player: None }
    }
}

/// The client's local board.
#[derive(Debug)]
pub struct BoardInfo {
    pub board: Board,
}

impl BoardInfo {
    /// Serializes the local board for a `play` call.
    pub fn se(&self) -> (s: String)
        requires
            self.board@.wf(),
        ensures
            s@ == spec_serialize(self.board@),
    {
        self.board.serialize()
    }

    /// Replaces the local board with a received board string; on a
    /// malformed string the prior board is left unchanged.
    pub fn de(&mut self, s: &str)
        ensures
            wire_ok(s@) ==> final(self).board@ == decode(s@) && final(self).board@.wf(),
            !wire_ok(s@) ==> final(self).board@ == old(self).board@,
    {
        if let Ok(board) = Board::deserialize(s) {
            self.board = board;
        }
    }
}

impl Default for BoardInfo {
    /// The opening position.
    fn default() -> (r: Self)
        ensures
            r.board@ == opening_view(),
            r.board@.wf(),
    {
        BoardInfo { board: Board::new() }
    }
}

/// Whether the client sits in the menu or in a game.
#[derive(Debug, Clone, Copy, PartialEq, Eq, Hash, Structural)]
pub enum Status {
    Menu,
    Play,
}

impl Default for Status {
    /// A client starts in the menu.
    fn default() -> (r: Self)
        ensures
            r is Menu,
    {
        Status::Menu
    }
}

/// Asks the client to issue a connect call.
#[derive(Debug, Clone, Copy, PartialEq, Eq, Structural)]
pub struct ConnectEvent;

/// Announces that the board or the legal-move mapping changed.
#[derive(Debug, Clone, Copy, PartialEq, Eq, Structural)]
pub struct UpdateEvent;

/// A move intent as clicked, not yet validated.
#[derive(Debug, Clone, Copy, PartialEq, Eq, Structural)]
pub struct TryMoveEvent {
    pub from: Position,
    pub to: Position,
}

/// A validated move, ready to apply and send.
#[derive(Debug, Clone, Copy, PartialEq, Eq, Structural)]
pub struct DoMoveEvent {
    pub from: Position,
    pub to: Position,
}

/// Asks the client to leave the menu and join the configured room.
#[derive(Debug, Clone, Copy, PartialEq, Eq, Structural)]
pub struct LaunchEvent;

/// The previously clicked cell, if any (the first half of a move
/// intent).
#[derive(Debug, Clone, Copy, PartialEq, Eq, Structural)]
pub struct PrevClick(pub Option<Position>);

impl Default for PrevClick {
    /// No pending click.
    fn default() -> (r: Self)
        ensures
            r.0 is None,
    {
        PrevClick(None)
    }
}

/// Set while the first update of a fresh game is still pending, so an
/// empty legal-move mapping is not yet read as a finished game.
#[derive(Debug, Clone, Copy, PartialEq, Eq, Structural)]
pub struct GameJustStarted(pub bool);

impl Default for GameJustStarted {
    /// A fresh game counts as just started.
    fn default() -> (r: Self)
        ensures
            r.0 == true,
    {
        GameJustStarted(true)
    }
}

/// What the menu screen edits: the relay URL and the human-readable room
/// code.
#[derive(Debug, Clone)]
pub struct MenuContents {
    pub url: String,
    pub room: String,
}

impl Default for MenuContents {
    /// A local relay and a placeholder room code.
    fn default() -> (r: Self)
        ensures
            r.url@ == "http://127.0.0.1:8082"@,
            r.room@ == "example-room-code"@,
    {
        MenuContents {
            url: String::from_str("http://127.0.0.1:8082"),
            room: String::from_str("example-room-code"),
        }
    }
}

/// The polynomial room-code hash after the first `i` characters of `s`:
/// the running value and the running base, accumulated with wrapping
/// 64-bit arithmetic.
pub open spec fn room_hash(s: Seq<char>, i: int) -> (u64, u64)
    decreases i,
{
    if i <= 0 {
        (0u64, 1u64)
    } else {
        let prev = room_hash(s, i - 1);
        (
            vstd::wrapping::u64_specs::wrapping_add(
                prev.0,
                vstd::wrapping::u64_specs::wrapping_mul(s[i - 1] as u64, prev.1),
            ),
            vstd::wrapping::u64_specs::wrapping_mul(prev.1, 131u64),
        )
    }
}

/// The 64-bit room id of a room code.
pub open spec fn spec_room_id(s: Seq<char>) -> u64 {
    room_hash(s, s.len() as int).0
}

/// Hashes a human-readable room code to the 64-bit room id used on the
/// wire: `sum of c_i * 131^i` with wrapping 64-bit arithmetic.
pub fn room_code_id(code: &str) -> (id: u64)
    ensures
        id == spec_room_id(code@),
{
    let n = code.unicode_len();
    let mut value: u64 = 0;
    let mut base: u64 = 1;
    let mut i: usize = 0;
    while i < n
        invariant
            i <= n,
            n == code@.len(),
            value == room_hash(code@, i as int).0,
            base == room_hash(code@, i as int).1,
        decreases n - i,
    {
        let c = code.get_char(i);
        let cu: u64 = c as u64;
        proof {
            assert(cu == code@[i as int] as u64);
        }
        value = value.wrapping_add(cu.wrapping_mul(base));
        base = base.wrapping_mul(131);
        i = i + 1;
    }
    value
}

} // verus!
