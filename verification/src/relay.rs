use vstd::prelude::*;

use std::collections::VecDeque;

use crate::wire::{ConnectResponse, RoomId};

verus! {

broadcast use vstd::seq_lib::group_seq_properties;

/// Milliseconds of inactivity after which a room expires.
pub const EXPIRE_MS: u64 = 20000;

/// Pairing state of a room: one slot filled (holding the color tag
/// reserved for the next joiner), or full.
#[derive(Debug, Clone, Copy, PartialEq, Eq, Structural)]
pub enum RoomStatus {
    One(bool),
    Full,
}

/// One game session: pairing state, the two per-color mailboxes of
/// serialized boards awaiting their reader, and the last-activity
/// timestamp in milliseconds.
#[derive(Debug)]
pub struct Room {
    pub(crate) next: RoomStatus,
    pub(crate) left: VecDeque<String>,
    pub(crate) right: VecDeque<String>,
    pub(crate) last: u64,
}

/// The mathematical value of a `Room`.
#[verifier::ext_equal]
pub struct RoomView {
    pub next: RoomStatus,
    pub left: Seq<Seq<char>>,
    pub right: Seq<Seq<char>>,
    pub last: u64,
}

impl View for Room {
    type V = RoomView;

    closed spec fn view(&self) -> RoomView {
        RoomView {
            next: self.next,
            left: self.left@.map_values(|s: String| s@),
            right: self.right@.map_values(|s: String| s@),
            last: self.last,
        }
    }
}

impl RoomView {
    /// The mailbox that the player with tag `player` reads.
    pub open spec fn mail(self, player: bool) -> Seq<Seq<char>> {
        if player {
            self.right
        } else {
            self.left
        }
    }
}

/// `rv` with the mailbox of `player` replaced by `q`.
pub open spec fn with_mail(rv: RoomView, player: bool, q: Seq<Seq<char>>) -> RoomView {
    if player {
        RoomView { right: q, ..rv }
    } else {
        RoomView { left: q, ..rv }
    }
}

/// A room whose last activity was at `last` has expired at `now`.
pub open spec fn room_expired(last: u64, now: u64) -> bool {
    now - last > EXPIRE_MS
}

impl Room {
    /// Appends a board string to the mailbox that `player` reads.
    fn push_mail(&mut self, player: bool, board: String)
        ensures
            final(self)@ == with_mail(old(self)@, player, old(self)@.mail(player).push(board@)),
    {
        if player {
            self.right.push_back(board);
        } else {
            self.left.push_back(board);
        }
        proof {
            assert(final(self)@ =~~= with_mail(
                old(self)@,
                player,
                old(self)@.mail(player).push(board@),
            ));
        }
    }

    /// Pops the oldest board string from the mailbox that `player`
    /// reads, if any.
    fn pop_mail(&mut self, player: bool) -> (r: Option<String>)
        ensures
            old(self)@.mail(player).len() == 0 ==> r is None && final(self)@ == old(self)@,
            old(self)@.mail(player).len() > 0 ==> (r matches Some(s) && s@ == old(self)@.mail(
                player,
            )[0] && final(self)@ == with_mail(
                old(self)@,
                player,
                old(self)@.mail(player).drop_first(),
            )),
    {
        let r = if player {
            self.right.pop_front()
        } else {
            self.left.pop_front()
        };
        proof {
            if old(self)@.mail(player).len() > 0 {
                assert(final(self)@ =~~= with_mail(
                    old(self)@,
                    player,
                    old(self)@.mail(player).drop_first(),
                ));
            } else {
                assert(final(self)@ =~~= old(self)@);
            }
        }
        r
    }

    /// Refreshes the last-activity timestamp.
    pub fn update(&mut self, now: u64)
        ensures
            final(self)@ == (RoomView { last: now, ..old(self)@ }),
    {
        self.last = now;
    }

    /// True iff this room's last activity lies further back than the
    /// expiry timeout.
    pub fn is_expired(&self, now: u64) -> (b: bool)
        ensures
            b == room_expired(self@.last, now),
    {
        now >= self.last && now - self.last > EXPIRE_MS
    }
}

/// The map of a key-room entry list.
pub open spec fn table_map(s: Seq<(RoomId, Room)>) -> Map<RoomId, RoomView>
    decreases s.len(),
{
    if s.len() == 0 {
        Map::empty()
    } else {
        table_map(s.drop_last()).insert(s.last().0, s.last().1@)
    }
}

/// No two entries share a room id.
pub open spec fn keys_unique(s: Seq<(RoomId, Room)>) -> bool {
    forall|i: int, j: int| 0 <= i < j < s.len() ==> (#[trigger] s[i]).0 != (#[trigger] s[j]).0
}

/// The shared room table: a mapping from 64-bit room id to room state.
pub struct RoomTable {
    entries: Vec<(RoomId, Room)>,
}

impl View for RoomTable {
    type V = Map<RoomId, RoomView>;

    closed spec fn view(&self) -> Map<RoomId, RoomView> {
        table_map(self.entries@)
    }
}

proof fn lemma_table_map_contains(s: Seq<(RoomId, Room)>, id: RoomId)
    ensures
        table_map(s).dom().contains(id) <==> exists|i: int|
            0 <= i < s.len() && (#[trigger] s[i]).0 == id,
    decreases s.len(),
{
    if s.len() > 0 {
        let dl = s.drop_last();
        lemma_table_map_contains(dl, id);
        if table_map(s).dom().contains(id) {
            if id == s.last().0 {
                assert(s[s.len() - 1].0 == id);
            } else {
                let i = choose|i: int| 0 <= i < dl.len() && (#[trigger] dl[i]).0 == id;
                assert(s[i].0 == id);
            }
        }
        if exists|i: int| 0 <= i < s.len() && (#[trigger] s[i]).0 == id {
            let i = choose|i: int| 0 <= i < s.len() && (#[trigger] s[i]).0 == id;
            if i < s.len() - 1 {
                assert(dl[i].0 == id);
            }
            assert(table_map(s).dom().contains(id));
        }
    }
}

proof fn lemma_table_map_value(s: Seq<(RoomId, Room)>, i: int)
    requires
        keys_unique(s),
        0 <= i < s.len(),
    ensures
        table_map(s).dom().contains(s[i].0),
        table_map(s)[s[i].0] == s[i].1@,
    decreases s.len(),
{
    let dl = s.drop_last();
    if i == s.len() - 1 {
    } else {
        lemma_table_map_value(dl, i);
        assert(s[s.len() - 1].0 != s[i].0);
    }
}

proof fn lemma_table_map_push(s: Seq<(RoomId, Room)>, id: RoomId, room: Room)
    ensures
        table_map(s.push((id, room))) == table_map(s).insert(id, room@),
{
    assert(s.push((id, room)).drop_last() =~= s);
    assert(s.push((id, room)).last() == (id, room));
}

#[verifier::rlimit(100)]
proof fn lemma_table_map_remove(s: Seq<(RoomId, Room)>, i: int)
    requires
        keys_unique(s),
        0 <= i < s.len(),
    ensures
        table_map(s.remove(i)) == table_map(s).remove(s[i].0),
        keys_unique(s.remove(i)),
    decreases s.len(),
{
    assert(keys_unique(s.remove(i)));
    lemma_table_map_value(s, i);
    if i == s.len() - 1 {
        let dl = s.drop_last();
        assert(s.remove(i) =~= dl);
        lemma_table_map_contains(dl, s[i].0);
        assert(!table_map(dl).dom().contains(s[i].0)) by {
            if table_map(dl).dom().contains(s[i].0) {
                let j = choose|j: int| 0 <= j < dl.len() && (#[trigger] dl[j]).0 == s[i].0;
                assert(s[j].0 == s[i].0);
            }
        }
        assert(table_map(s).remove(s[i].0) =~= table_map(dl));
    } else {
        let dl = s.drop_last();
        lemma_table_map_remove(dl, i);
        assert(s.remove(i).drop_last() =~= dl.remove(i));
        assert(s.remove(i).last() == s.last());
        assert(table_map(s.remove(i)) == table_map(dl.remove(i)).insert(s.last().0, s.last().1@));
        assert(s.last().0 != s[i].0);
        assert(table_map(dl).remove(dl[i].0).insert(s.last().0, s.last().1@) =~= table_map(
            dl,
        ).insert(s.last().0, s.last().1@).remove(s[i].0));
    }
}

impl RoomTable {
    /// All entry keys are distinct, so the table is a mapping.
    pub closed spec fn wf(&self) -> bool {
        keys_unique(self.entries@)
    }

    /// The empty table.
    pub fn new() -> (r: RoomTable)
        ensures
            r.wf(),
            r@ == Map::<RoomId, RoomView>::empty(),
    {
        RoomTable { entries: Vec::new() }
    }

    /// The index of the entry of `room`, if the room exists.
    fn find_index(&self, room: RoomId) -> (r: Option<usize>)
        requires
            self.wf(),
        ensures
            match r {
                Some(i) => i < self.entries@.len() && self.entries@[i as int].0 == room
                    && self@.dom().contains(room) && self@[room] == self.entries@[i as int].1@,
                None => !self@.dom().contains(room),
            },
    {
        let mut i: usize = 0;
        while i < self.entries.len()
            invariant
                self.wf(),
                i <= self.entries@.len(),
                forall|j: int| 0 <= j < i ==> (#[trigger] self.entries@[j]).0 != room,
            decreases self.entries@.len() - i,
        {
            if self.entries[i].0 == room {
                proof {
                    lemma_table_map_value(self.entries@, i as int);
                }
                return Some(i);
            }
            i = i + 1;
        }
        proof {
            lemma_table_map_contains(self.entries@, room);
        }
        None
    }
}

/// The state transition and response of `connect`: an unseen room is
/// created awaiting its second player, with the coin choosing the color
/// reserved for that second joiner and the opposite tag handed to the
/// first; the second joiner receives the reserved tag and the room
/// becomes full; a full room answers a conflict. Every case refreshes
/// the room's last-activity time.
pub open spec fn connect_tr(m: Map<RoomId, RoomView>, room: RoomId, coin: bool, now: u64) -> (
    Map<RoomId, RoomView>,
    ConnectResponse,
) {
    if !m.dom().contains(room) {
        (
            m.insert(
                room,
                RoomView {
                    next: RoomStatus::One(coin),
                    left: Seq::empty(),
                    right: Seq::empty(),
                    last: now,
                },
            ),
            ConnectResponse { player: !coin, ok: true },
        )
    } else {
        let rv = m[room];
        match rv.next {
            RoomStatus::One(p) => (
                m.insert(room, RoomView { next: RoomStatus::Full, last: now, ..rv }),
                ConnectResponse { player: p, ok: true },
            ),
            RoomStatus::Full => (
                m.insert(room, RoomView { last: now, ..rv }),
                ConnectResponse { player: false, ok: false },
            ),
        }
    }
}

/// The state transition and acceptance of `play`: when the room exists,
/// the board string is appended to the opponent's mailbox and the
/// last-activity time refreshed; a missing room rejects the call.
pub open spec fn play_tr(
    m: Map<RoomId, RoomView>,
    room: RoomId,
    player: bool,
    board: Seq<char>,
    now: u64,
) -> (Map<RoomId, RoomView>, bool) {
    if m.dom().contains(room) {
        let rv = m[room];
        (
            m.insert(
                room,
                with_mail(RoomView { last: now, ..rv }, !player, rv.mail(!player).push(board)),
            ),
            true,
        )
    } else {
        (m, false)
    }
}

/// The state transition and reply of `query`: when the room exists, the
/// front of the caller's own mailbox is popped (absent when empty) and
/// the last-activity time refreshed either way; a missing room answers
/// the same absent board as an empty mailbox.
pub open spec fn query_tr(m: Map<RoomId, RoomView>, room: RoomId, player: bool, now: u64) -> (
    Map<RoomId, RoomView>,
    Option<Seq<char>>,
) {
    if m.dom().contains(room) {
        let rv = m[room];
        let q = rv.mail(player);
        if q.len() > 0 {
            (
                m.insert(room, with_mail(RoomView { last: now, ..rv }, player, q.drop_first())),
                Some(q[0]),
            )
        } else {
            (m.insert(room, RoomView { last: now, ..rv }), None)
        }
    } else {
        (m, None)
    }
}

/// The state after an expiry sweep at `now`: exactly the unexpired rooms
/// remain, unchanged.
pub open spec fn sweep_tr(m: Map<RoomId, RoomView>, now: u64) -> Map<RoomId, RoomView> {
    Map::new(
        |id: RoomId| m.dom().contains(id) && !room_expired(m[id].last, now),
        |id: RoomId| m[id],
    )
}

/// The value of an optional board string.
pub open spec fn view_opt(o: Option<String>) -> Option<Seq<char>> {
    match o {
        Some(s) => Some(s@),
        None => None,
    }
}

/// Joins `room`, creating it when unseen; `coin` is the color tag
/// reserved for the second joiner of a fresh room, so the caller
/// receives its negation there. A full room answers a conflict.
pub fn connect(table: &mut RoomTable, room: RoomId, coin: bool, now: u64) -> (resp:
    ConnectResponse)
    requires
        old(table).wf(),
    ensures
        final(table).wf(),
        ({
            let t = connect_tr(old(table)@, room, coin, now);
            final(table)@ == t.0 && resp == t.1
        }),
{
    let found = table.find_index(room);
    match found {
        None => {
            let fresh = Room {
                next: RoomStatus::One(coin),
                left: VecDeque::new(),
                right: VecDeque::new(),
                last: now,
            };
            proof {
                lemma_table_map_push(table.entries@, room, fresh);
                lemma_table_map_contains(table.entries@, room);
                assert(fresh@ =~~= (RoomView {
                    next: RoomStatus::One(coin),
                    left: Seq::empty(),
                    right: Seq::empty(),
                    last: now,
                }));
            }
            table.entries.push((room, fresh));
            ConnectResponse { player: !coin, ok: true }
        },
        Some(i) => {
            proof {
                lemma_table_map_remove(table.entries@, i as int);
            }
            let ghost m0 = table@;
            let (id, mut rm) = table.entries.remove(i);
            rm.update(now);
            let resp = match rm.next {
                RoomStatus::One(p) => {
                    rm.next = RoomStatus::Full;
                    ConnectResponse { player: p, ok: true }
                },
                RoomStatus::Full => ConnectResponse { player: false, ok: false },
            };
            proof {
                lemma_table_map_push(table.entries@, id, rm);
                lemma_table_map_contains(table.entries@, id);
            }
            table.entries.push((id, rm));
            proof {
                assert(table@ =~= connect_tr(m0, room, coin, now).0);
            }
            resp
        },
    }
}

/// Deposits `board` for the opponent of `player` in `room`; rejected
/// when the room is missing.
pub fn play(table: &mut RoomTable, room: RoomId, player: bool, board: String, now: u64) -> (
    accepted: bool)
    requires
        old(table).wf(),
    ensures
        final(table).wf(),
        ({
            let t = play_tr(old(table)@, room, player, board@, now);
            final(table)@ == t.0 && accepted == t.1
        }),
{
    let found = table.find_index(room);
    match found {
        None => false,
        Some(i) => {
            proof {
                lemma_table_map_remove(table.entries@, i as int);
            }
            let ghost m0 = table@;
            let (id, mut rm) = table.entries.remove(i);
            rm.update(now);
            rm.push_mail(!player, board);
            proof {
                lemma_table_map_push(table.entries@, id, rm);
                lemma_table_map_contains(table.entries@, id);
            }
            table.entries.push((id, rm));
            proof {
                assert(table@ =~= play_tr(m0, room, player, board@, now).0);
            }
            true
        },
    }
}

/// Pops the oldest board string pending for `player` in `room`; an
/// absent board stands both for an empty mailbox and for a missing room.
pub fn query(table: &mut RoomTable, room: RoomId, player: bool, now: u64) -> (board: Option<
    String>)
    requires
        old(table).wf(),
    ensures
        final(table).wf(),
        ({
            let t = query_tr(old(table)@, room, player, now);
            final(table)@ == t.0 && view_opt(board) == t.1
        }),
{
    let found = table.find_index(room);
    match found {
        None => None,
        Some(i) => {
            proof {
                lemma_table_map_remove(table.entries@, i as int);
            }
            let ghost m0 = table@;
            let (id, mut rm) = table.entries.remove(i);
            rm.update(now);
            let board = rm.pop_mail(player);
            proof {
                lemma_table_map_push(table.entries@, id, rm);
                lemma_table_map_contains(table.entries@, id);
            }
            table.entries.push((id, rm));
            proof {
                assert(table@ =~= query_tr(m0, room, player, now).0);
            }
            board
        },
    }
}

/// Removes `room` unconditionally, whatever its state.
pub fn disconnect(table: &mut RoomTable, room: RoomId)
    requires
        old(table).wf(),
    ensures
        final(table).wf(),
        final(table)@ == old(table)@.remove(room),
{
    let found = table.find_index(room);
    match found {
        None => {
            proof {
                assert(table@ =~= old(table)@.remove(room));
            }
        },
        Some(i) => {
            proof {
                lemma_table_map_remove(table.entries@, i as int);
            }
            let _ = table.entries.remove(i);
        },
    }
}

/// Removes every room whose last activity lies further back than the
/// expiry timeout; unexpired rooms survive untouched. This is the only
/// path that removes rooms besides an explicit disconnect.
pub fn sweep(table: &mut RoomTable, now: u64)
    requires
        old(table).wf(),
    ensures
        final(table).wf(),
        final(table)@ == sweep_tr(old(table)@, now),
{
    let ghost s0 = table.entries@;
    let mut kept: Vec<(RoomId, Room)> = Vec::new();
    proof {
        assert(s0.subrange(0, s0.len() as int) =~= s0);
    }
    loop
        invariant
            keys_unique(s0),
            table_map(s0) == old(table)@,
            table.entries@ == s0.subrange(0, table.entries@.len() as int),
            table.entries@.len() <= s0.len(),
            keys_unique(kept@),
            forall|id: RoomId|
                #[trigger] table_map(kept@).dom().contains(id) <==> (table_map(
                    s0,
                ).dom().contains(id) && !table_map(
                    s0.subrange(0, table.entries@.len() as int),
                ).dom().contains(id) && !room_expired(table_map(s0)[id].last, now)),
            forall|id: RoomId|
                #[trigger] table_map(kept@).dom().contains(id) ==> table_map(kept@)[id]
                    == table_map(s0)[id],
        ensures
            table.entries@.len() == 0,
        decreases table.entries@.len(),
    {
        let n = table.entries.len();
        if n == 0 {
            break ;
        }
        let ghost before = table.entries@;
        let e = match table.entries.pop() {
            Some(e) => e,
            None => {
                return ;
            },
        };
        proof {
            assert(before =~= s0.subrange(0, before.len() as int));
            assert(before.drop_last() =~= s0.subrange(0, before.len() - 1));
            assert(table.entries@ =~= s0.subrange(0, table.entries@.len() as int));
            assert(e == s0[before.len() - 1]);
            lemma_table_map_value(s0, before.len() - 1);
            assert(table_map(before) == table_map(before.drop_last()).insert(e.0, e.1@));
            lemma_table_map_contains(s0.subrange(0, before.len() - 1), e.0);
            assert(!table_map(s0.subrange(0, before.len() - 1)).dom().contains(e.0)) by {
                if table_map(s0.subrange(0, before.len() - 1)).dom().contains(e.0) {
                    let j = choose|j: int|
                        0 <= j < before.len() - 1 && (#[trigger] s0.subrange(
                            0,
                            before.len() - 1,
                        )[j]).0 == e.0;
                    assert(s0[j].0 == e.0);
                }
            }
            lemma_table_map_contains(kept@, e.0);
        }
        if !e.1.is_expired(now) {
            proof {
                lemma_table_map_push(kept@, e.0, e.1);
            }
            kept.push(e);
        }
    }
    table.entries = kept;
    proof {
        assert(table@ =~= sweep_tr(table_map(s0), now));
    }
}

/// Relies on `rand::random`: a value drawn from the thread-local
/// generator; nothing is promised of the result.
pub assume_specification<T>[ rand::random::<T> ]() -> (r: T)
    where
        rand::distributions::Standard: rand::distributions::Distribution<T>,
;

/// Joins `room` as `connect` does, drawing the color coin of a fresh
/// room from the process RNG; the contract holds whichever way the coin
/// lands.
pub fn connect_random(table: &mut RoomTable, room: RoomId, now: u64) -> (resp: ConnectResponse)
    requires
        old(table).wf(),
    ensures
        final(table).wf(),
        exists|coin: bool|
            {
                let t = #[trigger] connect_tr(old(table)@, room, coin, now);
                final(table)@ == t.0 && resp == t.1
            },
{
    let coin: bool = rand::random();
    let resp = connect(table, room, coin, now);
    proof {
        let t = connect_tr(old(table)@, room, coin, now);
        assert(table@ == t.0 && resp == t.1);
    }
    resp
}

/// Connecting twice to a fresh room id yields the two distinct color
/// tags, never the same tag twice, and a third connect reports a
/// conflict.
pub proof fn lemma_connect_pairing(
    m: Map<RoomId, RoomView>,
    room: RoomId,
    coin: bool,
    c2: bool,
    c3: bool,
    t1: u64,
    t2: u64,
    t3: u64,
)
    requires
        !m.dom().contains(room),
    ensures
        ({
            let s1 = connect_tr(m, room, coin, t1);
            let s2 = connect_tr(s1.0, room, c2, t2);
            let s3 = connect_tr(s2.0, room, c3, t3);
            &&& s1.1.ok
            &&& s2.1.ok
            &&& s1.1.player != s2.1.player
            &&& !s3.1.ok
        }),
{
}

/// The room table after `play` calls for each board of `boards` in
/// order, all by `player` into `room`.
pub open spec fn play_seq(
    m: Map<RoomId, RoomView>,
    room: RoomId,
    player: bool,
    boards: Seq<Seq<char>>,
    now: u64,
) -> Map<RoomId, RoomView>
    decreases boards.len(),
{
    if boards.len() == 0 {
        m
    } else {
        play_seq(play_tr(m, room, player, boards[0], now).0, room, player, boards.drop_first(), now)
    }
}

/// The room table and the sequence of replies after `n` `query` calls
/// by `player` on `room`.
pub open spec fn query_seq(m: Map<RoomId, RoomView>, room: RoomId, player: bool, n: int, now: u64)
    -> (Map<RoomId, RoomView>, Seq<Option<Seq<char>>>)
    decreases n,
{
    if n <= 0 {
        (m, Seq::empty())
    } else {
        let q = query_tr(m, room, player, now);
        let rest = query_seq(q.0, room, player, n - 1, now);
        (rest.0, seq![q.1] + rest.1)
    }
}

proof fn lemma_play_seq(
    m: Map<RoomId, RoomView>,
    room: RoomId,
    player: bool,
    boards: Seq<Seq<char>>,
    now: u64,
)
    requires
        m.dom().contains(room),
    ensures
        ({
            let m2 = play_seq(m, room, player, boards, now);
            &&& m2.dom().contains(room)
            &&& m2[room].mail(!player) == m[room].mail(!player) + boards
            &&& m2[room].mail(player) == m[room].mail(player)
            &&& m2[room].next == m[room].next
        }),
    decreases boards.len(),
{
    let m2 = play_seq(m, room, player, boards, now);
    if boards.len() == 0 {
        assert(m[room].mail(!player) + boards =~= m[room].mail(!player));
    } else {
        let m1 = play_tr(m, room, player, boards[0], now).0;
        lemma_play_seq(m1, room, player, boards.drop_first(), now);
        assert(m1[room].mail(!player) =~= m[room].mail(!player).push(boards[0]));
        assert(m[room].mail(!player).push(boards[0]) + boards.drop_first() =~= m[room].mail(
            !player,
        ) + boards);
    }
}

proof fn lemma_query_seq(m: Map<RoomId, RoomView>, room: RoomId, player: bool, n: int, now: u64)
    requires
        m.dom().contains(room),
        0 <= n <= m[room].mail(player).len(),
    ensures
        query_seq(m, room, player, n, now).1 == m[room].mail(player).take(n).map_values(
            |b: Seq<char>| Some(b),
        ),
    decreases n,
{
    let q = m[room].mail(player);
    if n <= 0 {
        assert(query_seq(m, room, player, n, now).1 =~= q.take(n).map_values(
            |b: Seq<char>| Some(b),
        ));
    } else {
        let m1 = query_tr(m, room, player, now).0;
        assert(m1[room].mail(player) == q.drop_first());
        lemma_query_seq(m1, room, player, n - 1, now);
        assert(seq![Some(q[0])] + q.drop_first().take(n - 1).map_values(|b: Seq<char>| Some(b))
            =~= q.take(n).map_values(|b: Seq<char>| Some(b)));
    }
}

/// First-in, first-out relay: starting from an empty mailbox, a run of
/// `play` calls by one side followed by as many `query` calls by the
/// other returns exactly the submitted board strings, in submission
/// order.
pub proof fn lemma_mailbox_fifo(
    m: Map<RoomId, RoomView>,
    room: RoomId,
    player: bool,
    boards: Seq<Seq<char>>,
    t1: u64,
    t2: u64,
)
    requires
        m.dom().contains(room),
        m[room].mail(!player).len() == 0,
    ensures
        ({
            let m2 = play_seq(m, room, player, boards, t1);
            query_seq(m2, room, !player, boards.len() as int, t2).1 == boards.map_values(
                |b: Seq<char>| Some(b),
            )
        }),
{
    let m2 = play_seq(m, room, player, boards, t1);
    lemma_play_seq(m, room, player, boards, t1);
    assert(m2[room].mail(!player) =~= boards);
    lemma_query_seq(m2, room, !player, boards.len() as int, t2);
    assert(m2[room].mail(!player).take(boards.len() as int) =~= boards);
}

/// A room untouched for longer than the expiry timeout is absent after
/// a sweep; a room whose last activity lies within the window survives
/// the sweep with its state intact. Every handler refreshes the touched
/// room's last-activity time to its call time.
pub proof fn lemma_expiry(m: Map<RoomId, RoomView>, room: RoomId, now: u64)
    requires
        m.dom().contains(room),
    ensures
        room_expired(m[room].last, now) ==> !sweep_tr(m, now).dom().contains(room),
        !room_expired(m[room].last, now) ==> sweep_tr(m, now).dom().contains(room) && sweep_tr(
            m,
            now,
        )[room] == m[room],
{
}

} // verus!
