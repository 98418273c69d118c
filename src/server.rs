use vstd::prelude::*;

use crate::engine::{san_outcome, start_fen, utf8_text, white_to_move};
use crate::envelope::{Delivery, ServerPacket};
use crate::game::{seat, status_text, Game, GameStatus};
use crate::index::{
    distinct_users, find_user, lemma_index_push, lemma_index_remove, user_index,
};
use crate::opcode::{error_byte, ErrorCode, Opcode};
use crate::packet::{fit, Packet, MAX_PAYLOAD};
use vstd::utf8::{decode_utf8, encode_utf8, encode_utf8_decode_utf8, valid_utf8};

verus! {

/// The decimal digits of `n`, in ASCII.
pub open spec fn decimal(n: nat) -> Seq<u8>
    decreases n,
{
    if n < 10 {
        seq![(48 + n) as u8]
    } else {
        decimal(n / 10).push((48 + n % 10) as u8)
    }
}

/// The payload that carries a position: its UTF-8 bytes, cut to one frame.
pub open spec fn position_payload(position: Seq<char>) -> Seq<u8> {
    fit(encode_utf8(position))
}

/// `p` is an `Error` message with code `code`.
pub open spec fn is_error(p: Packet, code: ErrorCode) -> bool {
    p.op == Opcode::Error && p.payload@ == seq![error_byte(code)]
}

/// `p` is a message `op` with payload `payload`.
pub open spec fn is_reply(p: Packet, op: Opcode, payload: Seq<u8>) -> bool {
    p.op == op && p.payload@ == payload
}

/// The game id that a `JoinGame` payload carries: four bytes, big-endian.
pub open spec fn game_id_of(payload: Seq<u8>) -> Option<u32> {
    if payload.len() == 4 {
        Some(
            (payload[0] as int * 16777216 + payload[1] as int * 65536 + payload[2] as int * 256
                + payload[3] as int) as u32,
        )
    } else {
        None
    }
}

/// The move text that a `SendMove` payload carries, where it is UTF-8.
pub open spec fn move_text_of(payload: Seq<u8>) -> Option<Seq<char>> {
    if valid_utf8(payload) {
        Some(decode_utf8(payload))
    } else {
        None
    }
}

/// Appends the decimal digits of `n` to `out`.
pub fn write_decimal(n: u32, out: &mut Vec<u8>)
    ensures
        final(out)@ == old(out)@ + decimal(n as nat),
    decreases n,
{
    if n >= 10 {
        write_decimal(n / 10, out);
    }
    let d: u8 = (n % 10) as u8;
    out.push(48 + d);
    assert(final(out)@ =~= old(out)@ + decimal(n as nat));
}

/// Appends `bytes` to `out`.
pub fn write_bytes(bytes: &[u8], out: &mut Vec<u8>)
    ensures
        final(out)@ == old(out)@ + bytes@,
{
    let ghost start = out@;
    let mut i: usize = 0;
    while i < bytes.len()
        invariant
            i <= bytes.len(),
            out@ == start + bytes@.take(i as int),
        decreases bytes.len() - i,
    {
        out.push(bytes[i]);
        i = i + 1;
        assert(out@ =~= start + bytes@.take(i as int));
    }
    assert(bytes@.take(i as int) =~= bytes@);
}

/// A reply that carries `position`.
fn position_reply(op: Opcode, position: &String) -> (r: Packet)
    ensures
        is_reply(r, op, position_payload(position@)),
        r.payload.len() <= crate::packet::MAX_PAYLOAD,
{
    Packet::text(op, position.as_str().as_bytes())
}

/// `No games currently.` in ASCII.
pub open spec fn no_games_text() -> Seq<u8> {
    seq![78u8, 111, 32, 103, 97, 109, 101, 115, 32, 99, 117, 114, 114, 101, 110, 116, 108, 121, 46]
}

/// `Games:` and a newline, in ASCII.
pub open spec fn header_text() -> Seq<u8> {
    seq![71u8, 97, 109, 101, 115, 58, 10]
}

/// The listing line of game `i`: `id: status` and a newline.
pub open spec fn game_line(games: Seq<Game>, i: int) -> Seq<u8> {
    decimal(i as nat) + seq![58u8, 32u8] + status_text(games[i].status) + seq![10u8]
}

/// The lines of the first `n` games, in id order.
pub open spec fn game_lines(games: Seq<Game>, n: nat) -> Seq<u8>
    decreases n,
{
    if n == 0 || n > games.len() {
        Seq::empty()
    } else {
        game_lines(games, (n - 1) as nat) + game_line(games, n - 1)
    }
}

/// The text of a game listing: a header and one line per game, or a note
/// that there are none.
pub open spec fn listing(games: Seq<Game>) -> Seq<u8> {
    if games.len() == 0 {
        no_games_text()
    } else {
        header_text() + game_lines(games, games.len())
    }
}

/// The payloads of `ps`, one after another.
pub open spec fn payloads(ps: Seq<Packet>) -> Seq<u8>
    decreases ps.len(),
{
    if ps.len() == 0 {
        Seq::empty()
    } else {
        payloads(ps.drop_last()) + ps.last().payload@
    }
}

/// The messages that `d` delivers.
pub open spec fn packets_of(d: Seq<Delivery>) -> Seq<Packet> {
    d.map_values(|x: Delivery| x.packet)
}

/// Games listed after `i`: the lines of the first `i` games are a prefix of
/// the lines of the first `n`, and the next line is that of game `i`, so each
/// game has its own line, in id order.
pub proof fn lemma_listing_lines(games: Seq<Game>, i: nat, n: nat)
    requires
        i < n <= games.len(),
    ensures
        game_lines(games, n).len() >= game_lines(games, i).len() + game_line(games, i as int).len(),
        game_lines(games, n).subrange(0, game_lines(games, i).len() as int) == game_lines(games, i),
        game_lines(games, n).subrange(
            game_lines(games, i).len() as int,
            (game_lines(games, i).len() + game_line(games, i as int).len()) as int,
        ) == game_line(games, i as int),
    decreases n - i,
{
    let a = game_lines(games, i);
    let l = game_line(games, i as int);
    if n == i + 1 {
        assert(game_lines(games, n) == a + l);
        assert((a + l).subrange(0, a.len() as int) =~= a);
        assert((a + l).subrange(a.len() as int, (a.len() + l.len()) as int) =~= l);
    } else {
        lemma_listing_lines(games, i, (n - 1) as nat);
        let b = game_lines(games, (n - 1) as nat);
        assert(game_lines(games, n) == b + game_line(games, n - 1));
        assert((b + game_line(games, n - 1)).subrange(0, a.len() as int) =~= b.subrange(
            0,
            a.len() as int,
        ));
        assert((b + game_line(games, n - 1)).subrange(a.len() as int, (a.len() + l.len()) as int)
            =~= b.subrange(a.len() as int, (a.len() + l.len()) as int));
    }
}

/// The bytes of `No games currently.`.
fn no_games_bytes() -> (r: Vec<u8>)
    ensures
        r@ == no_games_text(),
{
    let mut r: Vec<u8> = Vec::new();
    r.push(78);
    r.push(111);
    r.push(32);
    r.push(103);
    r.push(97);
    r.push(109);
    r.push(101);
    r.push(115);
    r.push(32);
    r.push(99);
    r.push(117);
    r.push(114);
    r.push(114);
    r.push(101);
    r.push(110);
    r.push(116);
    r.push(108);
    r.push(121);
    r.push(46);
    assert(r@ =~= no_games_text());
    r
}

/// The bytes of the listing header.
fn header_bytes() -> (r: Vec<u8>)
    ensures
        r@ == header_text(),
{
    let mut r: Vec<u8> = Vec::new();
    r.push(71);
    r.push(97);
    r.push(109);
    r.push(101);
    r.push(115);
    r.push(58);
    r.push(10);
    assert(r@ =~= header_text());
    r
}

/// What dispatching a message produced.
#[derive(Debug)]
pub enum Dispatch {
    /// Messages to deliver, in this order.
    Deliver(Vec<Delivery>),
    /// The connection with this id is alive; nothing is sent.
    KeepAlive(i32),
}

/// The game registry: every game ever made, by id (its index), and the
/// index from each username to the game it plays in.
#[derive(Debug)]
pub struct Server {
    pub game_id: u32,
    pub games: Vec<Game>,
    pub game_users: Vec<(String, u32)>,
}

impl Server {
    /// `new` holds the same games and index as `self`.
    pub open spec fn unchanged(self, new: Server) -> bool {
        &&& new.game_id == self.game_id
        &&& new.games@ == self.games@
        &&& new.game_users@ == self.game_users@
    }

    /// The game that each username plays in.
    pub open spec fn users(&self) -> Map<Seq<char>, u32> {
        user_index(self.game_users@)
    }

    /// Ids are handed out in order; each name is indexed once; a name is
    /// indexed only under a game in which it holds a seat.
    pub open spec fn wf(&self) -> bool {
        &&& self.game_id as int == self.games.len()
        &&& distinct_users(self.game_users@)
        &&& forall|i: int| 0 <= i < self.games.len() ==> #[trigger] self.games[i].wf()
        &&& forall|u: Seq<char>| #[trigger]
            self.users().contains_key(u) ==> self.users()[u] < self.games.len()
                && self.games[self.users()[u] as int].seat_of(u) is Some
    }

    pub fn new() -> (r: Server)
        ensures
            r.wf(),
            r.games.len() == 0,
            r.users() == Map::<Seq<char>, u32>::empty(),
    {
        let r = Server { game_id: 0, games: Vec::new(), game_users: Vec::new() };
        assert(r.users() =~= Map::<Seq<char>, u32>::empty());
        r
    }

    /// What `create_game` does: a user already in a game gets
    /// `AlreadyInGame`; when ids run out, `GameLimit`; otherwise a new open
    /// game in the starting position is added under the next id, with the
    /// user in the chosen seat, and its position is returned.
    pub open spec fn create_game_post(
        self,
        new: Server,
        user: Seq<char>,
        conn: i32,
        white: bool,
        r: Packet,
    ) -> bool {
        if self.users().contains_key(user) {
            is_error(r, ErrorCode::AlreadyInGame) && self.unchanged(new)
        } else if self.game_id == u32::MAX {
            is_error(r, ErrorCode::GameLimit) && self.unchanged(new)
        } else {
            let g = new.games@.last();
            &&& is_reply(r, Opcode::CreateGameResp, position_payload(start_fen()))
            &&& new.games@ == self.games@.push(g)
            &&& new.users() == self.users().insert(user, self.game_id)
            &&& new.game_id == self.game_id + 1
            &&& g.position@ == start_fen()
            &&& g.status == GameStatus::Open
            &&& (if white {
                seat(g.white) == Some(user) && g.white_conn == Some(conn) && g.black is None
            } else {
                seat(g.black) == Some(user) && g.black_conn == Some(conn) && g.white is None
            })
        }
    }

    /// Starts a game for `user`, reached on `conn`, in the white seat or the
    /// black one.
    pub fn create_game(&mut self, user: &String, conn: i32, white: bool) -> (r: Packet)
        requires
            old(self).wf(),
        ensures
            final(self).wf(),
            r.wf(),
            old(self).create_game_post(*final(self), user@, conn, white, r),
    {
        if find_user(&self.game_users, user).is_some() {
            return Packet::error(ErrorCode::AlreadyInGame);
        }
        if self.game_id == u32::MAX {
            return Packet::error(ErrorCode::GameLimit);
        }
        let game = Game::new(user.clone(), conn, white);
        let reply = position_reply(Opcode::CreateGameResp, &game.position);
        let id = self.game_id;
        let name = user.clone();
        proof {
            lemma_index_push(self.game_users@, name, id);
        }
        self.games.push(game);
        self.game_users.push((name, id));
        self.game_id = id + 1;
        proof {
            assert(self.games[id as int].seat_of(user@) is Some);
            assert forall|u: Seq<char>| #[trigger]
                self.users().contains_key(u) implies self.users()[u] < self.games.len()
                && self.games[self.users()[u] as int].seat_of(u) is Some by {
                if u != user@ {
                    assert(old(self).users().contains_key(u));
                    assert(self.games[self.users()[u] as int] == old(self).games[self.users()[
                        u] as int]);
                }
            }
        }
        reply
    }

    /// What `show_game` returns: the position of the user's game, or
    /// `GameDoesntExist` for a user in no game.
    pub open spec fn show_game_post(self, user: Seq<char>, r: Packet) -> bool {
        if self.users().contains_key(user) {
            is_reply(
                r,
                Opcode::ShowGameResp,
                position_payload(self.games[self.users()[user] as int].position@),
            )
        } else {
            is_error(r, ErrorCode::GameDoesntExist)
        }
    }

    pub fn show_game(&self, user: &String) -> (r: Packet)
        requires
            self.wf(),
        ensures
            r.wf(),
            self.show_game_post(user@, r),
    {
        match find_user(&self.game_users, user) {
            Some(i) => {
                let id = self.game_users[i].1;
                position_reply(Opcode::ShowGameResp, &self.games[id as usize].position)
            },
            None => Packet::error(ErrorCode::GameDoesntExist),
        }
    }

    /// What `leave_game` does: a user in a game leaves the index, the game
    /// itself stays as it is, and the id is returned in decimal; a user in
    /// no game gets `GameDoesntExist`.
    pub open spec fn leave_game_post(self, new: Server, user: Seq<char>, r: Packet) -> bool {
        if self.users().contains_key(user) {
            &&& is_reply(r, Opcode::LeaveGameResp, decimal(self.users()[user] as nat))
            &&& new.users() == self.users().remove(user)
            &&& new.games@ == self.games@
            &&& new.game_id == self.game_id
        } else {
            is_error(r, ErrorCode::GameDoesntExist) && self.unchanged(new)
        }
    }

    pub fn leave_game(&mut self, user: &String) -> (r: Packet)
        requires
            old(self).wf(),
        ensures
            final(self).wf(),
            r.wf(),
            old(self).leave_game_post(*final(self), user@, r),
    {
        match find_user(&self.game_users, user) {
            Some(i) => {
                proof {
                    lemma_index_remove(self.game_users@, i as int);
                }
                let (_, id) = self.game_users.remove(i);
                let mut text: Vec<u8> = Vec::new();
                write_decimal(id, &mut text);
                proof {
                    lemma_decimal_len(id as nat);
                }
                Packet::new(Opcode::LeaveGameResp, text)
            },
            None => Packet::error(ErrorCode::GameDoesntExist),
        }
    }

    /// What `join_game` does. A payload that is not a four-byte id gets
    /// `MalformedPacket`; an id of no game, `GameDoesntExist`; a user already
    /// in a game, `AlreadyInGame`; a game with both seats taken,
    /// `GameLimit`. Each of these changes nothing. Otherwise the user takes
    /// the free seat, the game is under way, and its position is returned.
    pub open spec fn join_game_post(
        self,
        new: Server,
        user: Seq<char>,
        conn: i32,
        payload: Seq<u8>,
        r: Packet,
    ) -> bool {
        match game_id_of(payload) {
            None => is_error(r, ErrorCode::MalformedPacket) && self.unchanged(new),
            Some(id) => if id >= self.games.len() {
                is_error(r, ErrorCode::GameDoesntExist) && self.unchanged(new)
            } else if self.users().contains_key(user) {
                is_error(r, ErrorCode::AlreadyInGame) && self.unchanged(new)
            } else if self.games[id as int].white is Some && self.games[id as int].black is Some {
                is_error(r, ErrorCode::GameLimit) && self.unchanged(new)
            } else {
                let o = self.games[id as int];
                let g = new.games[id as int];
                &&& is_reply(r, Opcode::JoinGameResp, position_payload(o.position@))
                &&& new.games@ == self.games@.update(id as int, g)
                &&& new.users() == self.users().insert(user, id)
                &&& new.game_id == self.game_id
                &&& g.status == GameStatus::Ongoing
                &&& g.position == o.position
                &&& (if o.black is None {
                    seat(g.black) == Some(user) && g.black_conn == Some(conn) && g.white == o.white
                        && g.white_conn == o.white_conn
                } else {
                    seat(g.white) == Some(user) && g.white_conn == Some(conn) && g.black == o.black
                        && g.black_conn == o.black_conn
                })
            },
        }
    }

    /// Seats `user`, reached on `conn`, in the game whose id `packet` carries.
    pub fn join_game(&mut self, user: &String, conn: i32, packet: &Packet) -> (r: Packet)
        requires
            old(self).wf(),
        ensures
            final(self).wf(),
            r.wf(),
            old(self).join_game_post(*final(self), user@, conn, packet.payload@, r),
    {
        let id = match self.get_game_id(packet) {
            Ok(i) => i,
            Err(_) => return Packet::error(ErrorCode::MalformedPacket),
        };
        if id as usize >= self.games.len() {
            return Packet::error(ErrorCode::GameDoesntExist);
        }
        if find_user(&self.game_users, user).is_some() {
            return Packet::error(ErrorCode::AlreadyInGame);
        }
        let idx = id as usize;
        if self.games[idx].white.is_some() && self.games[idx].black.is_some() {
            return Packet::error(ErrorCode::GameLimit);
        }
        assert(self.games[idx as int].wf());
        let name = user.clone();
        let joined = self.games[idx].join(user.clone(), conn);
        let reply = position_reply(Opcode::JoinGameResp, &self.games[idx].position);
        proof {
            lemma_index_push(self.game_users@, name, id);
        }
        self.game_users.push((name, id));
        proof {
            assert(self.games@ =~= old(self).games@.update(id as int, self.games[id as int]));
            assert forall|i: int| 0 <= i < self.games.len() implies #[trigger] self.games[i].wf() by {
                if i != id {
                    assert(self.games[i] == old(self).games[i]);
                }
            }
            assert forall|u: Seq<char>| #[trigger]
                self.users().contains_key(u) implies self.users()[u] < self.games.len()
                && self.games[self.users()[u] as int].seat_of(u) is Some by {
                if u != user@ {
                    let j = self.users()[u];
                    assert(old(self).users().contains_key(u));
                    assert(old(self).games[j as int].seat_of(u) is Some);
                }
            }
        }
        reply
    }

    /// The seat that `user` holds in game `id` (`true` for white).
    pub open spec fn seat_in(self, id: u32, user: Seq<char>) -> bool {
        self.games[id as int].seat_of(user) == Some(true)
    }

    /// What `make_move` does. A user in no game gets `GameDoesntExist`. A
    /// move that is not UTF-8 text, sent when it is not the user's turn, or
    /// that the engine does not accept gets `IllegalMove`. Each of these
    /// changes nothing and pushes nothing. Otherwise the user's game takes
    /// the new position, which the mover gets back and which is pushed, the
    /// same, to the opponent's connection where a player sits there.
    pub open spec fn make_move_post(
        self,
        new: Server,
        user: Seq<char>,
        payload: Seq<u8>,
        r: Packet,
        push: Option<Delivery>,
    ) -> bool {
        if !self.users().contains_key(user) {
            is_error(r, ErrorCode::GameDoesntExist) && self.unchanged(new) && push is None
        } else {
            let id = self.users()[user];
            let g = self.games[id as int];
            let white = self.seat_in(id, user);
            match move_text_of(payload) {
                None => is_error(r, ErrorCode::IllegalMove) && self.unchanged(new) && push is None,
                Some(t) => if white_to_move(g.position@) != Some(white) {
                    is_error(r, ErrorCode::IllegalMove) && self.unchanged(new) && push is None
                } else {
                    match san_outcome(g.position@, t) {
                        None => is_error(r, ErrorCode::IllegalMove) && self.unchanged(new) && push is None,
                        Some(next) => {
                            let h = new.games[id as int];
                            let opponent = if white {
                                g.black_conn
                            } else {
                                g.white_conn
                            };
                            &&& is_reply(r, Opcode::SendMoveResp, position_payload(next))
                            &&& new.games@ == self.games@.update(id as int, h)
                            &&& new.game_users@ == self.game_users@
                            &&& new.game_id == self.game_id
                            &&& h.position@ == next
                            &&& h.white == g.white && h.black == g.black
                            &&& h.white_conn == g.white_conn && h.black_conn == g.black_conn
                            &&& h.status == g.status
                            &&& match opponent {
                                None => push is None,
                                Some(c) => push matches Some(d) && d.conn == c && d.packet.op
                                    == Opcode::RecvMove && d.packet.payload@ == r.payload@,
                            }
                        },
                    }
                },
            }
        }
    }

    /// Plays the move that `packet` carries in `user`'s game. Returns the
    /// mover's reply and the message for the opponent, if any.
    pub fn make_move(&mut self, user: &String, packet: &Packet) -> (r: (Packet, Option<Delivery>))
        requires
            old(self).wf(),
        ensures
            final(self).wf(),
            r.0.wf(),
            r.1 matches Some(d) ==> d.packet.wf(),
            old(self).make_move_post(*final(self), user@, packet.payload@, r.0, r.1),
    {
        let i = match find_user(&self.game_users, user) {
            Some(i) => i,
            None => return (Packet::error(ErrorCode::GameDoesntExist), None),
        };
        let id = self.game_users[i].1;
        let idx = id as usize;
        assert(self.games[idx as int].wf());
        let text = match utf8_text(packet.payload.as_slice()) {
            Some(t) => t,
            None => return (Packet::error(ErrorCode::IllegalMove), None),
        };
        proof {
            encode_utf8_decode_utf8(text@);
        }
        let white = match &self.games[idx].white {
            Some(w) => *w == *user,
            None => false,
        };
        assert(white == self.seat_in(id, user@));
        match crate::engine::side_to_move(self.games[idx].position.as_str()) {
            Some(w) => {
                if w != white {
                    return (Packet::error(ErrorCode::IllegalMove), None);
                }
            },
            None => return (Packet::error(ErrorCode::IllegalMove), None),
        }
        match self.games[idx].make_move(text.as_str()) {
            Ok(next) => {
                let reply = position_reply(Opcode::SendMoveResp, &next);
                let push = self.games[idx].send(!white, position_reply(Opcode::RecvMove, &next));
                proof {
                    assert(self.games@ =~= old(self).games@.update(id as int, self.games[id as int]));
                    assert forall|j: int| 0 <= j < self.games.len() implies #[trigger] self.games[j].wf() by {
                        assert(old(self).games[j].wf());
                        if j != id {
                            assert(self.games[j] == old(self).games[j]);
                        }
                    }
                    assert forall|u: Seq<char>| #[trigger]
                        self.users().contains_key(u) implies self.users()[u] < self.games.len()
                        && self.games[self.users()[u] as int].seat_of(u) is Some by {
                        let j = self.users()[u];
                        assert(old(self).games[j as int].seat_of(u) is Some);
                    }
                }
                (reply, push)
            },
            Err(_) => {
                assert(self.games@ =~= old(self).games@);
                (Packet::error(ErrorCode::IllegalMove), None)
            },
        }
    }

    /// Lists every game with its status, in id order, as one or more
    /// `ListGamesResp` messages. Their payloads, one after another, are the
    /// whole listing; each fits in a frame, and when there are games each
    /// ends at a line end, so no line is split.
    pub fn list_games(&self) -> (r: Vec<Packet>)
        requires
            self.wf(),
        ensures
            r.len() >= 1,
            forall|k: int|
                0 <= k < r.len() ==> (#[trigger] r@[k]).op == Opcode::ListGamesResp && r@[k].wf()
                    && r@[k].payload.len() > 0,
            self.games.len() > 0 ==> forall|k: int|
                0 <= k < r.len() ==> (#[trigger] r@[k]).payload@.last() == 10u8,
            payloads(r@) == listing(self.games@),
    {
        let mut r: Vec<Packet> = Vec::new();
        if self.games.len() == 0 {
            r.push(Packet::new(Opcode::ListGamesResp, no_games_bytes()));
            assert(r@.drop_last() =~= Seq::<Packet>::empty());
            assert(payloads(r@.drop_last()) == Seq::<u8>::empty());
            assert(payloads(r@) =~= no_games_text());
            return r;
        }
        let mut cur = header_bytes();
        let mut i: usize = 0;
        while i < self.games.len()
            invariant
                i <= self.games.len(),
                self.games.len() <= u32::MAX,
                1 <= cur.len() <= MAX_PAYLOAD,
                cur@.last() == 10u8,
                forall|k: int|
                    0 <= k < r.len() ==> (#[trigger] r@[k]).op == Opcode::ListGamesResp
                        && r@[k].wf() && r@[k].payload.len() > 0 && r@[k].payload@.last() == 10u8,
                payloads(r@) + cur@ == header_text() + game_lines(self.games@, i as nat),
            decreases self.games.len() - i,
        {
            let mut line: Vec<u8> = Vec::new();
            write_decimal(i as u32, &mut line);
            line.push(58);
            line.push(32);
            self.games[i].status.write_to(&mut line);
            line.push(10);
            proof {
                lemma_decimal_len(i as nat);
                assert(status_text(self.games@[i as int].status).len() <= 7);
                assert(line@ =~= game_line(self.games@, i as int));
                assert(game_lines(self.games@, (i + 1) as nat) == game_lines(self.games@, i as nat)
                    + game_line(self.games@, i as int));
            }
            let ghost before = payloads(r@) + cur@;
            if cur.len() + line.len() > MAX_PAYLOAD {
                let full = cur;
                let ghost done = r@;
                r.push(Packet::new(Opcode::ListGamesResp, full));
                assert(r@.drop_last() =~= done);
                cur = line;
                assert(payloads(r@) + cur@ =~= before + line@);
            } else {
                let ghost prev = cur@;
                write_bytes(line.as_slice(), &mut cur);
                assert(payloads(r@) + cur@ =~= before + line@);
            }
            i = i + 1;
        }
        let ghost done = r@;
        r.push(Packet::new(Opcode::ListGamesResp, cur));
        assert(r@.drop_last() =~= done);
        r
    }

    /// Carries out one message from a connection. Requests get one reply
    /// addressed to that connection; a played move is followed by the push to
    /// the opponent; `KeepAlive` is handed back for the liveness table;
    /// `Join` (spent in the handshake) gets nothing; any other operation gets
    /// `IllegalOpcode`.
    pub fn process_packet(&mut self, sp: &ServerPacket) -> (r: Dispatch)
        requires
            old(self).wf(),
        ensures
            final(self).wf(),
            match sp.packet.op {
                Opcode::CreateGame => r matches Dispatch::Deliver(d) && d@.len() == 1 && d@[0].conn
                    == sp.id && old(self).create_game_post(
                    *final(self),
                    sp.user@,
                    sp.id,
                    true,
                    d@[0].packet,
                ),
                Opcode::ListGames => r matches Dispatch::Deliver(d) && d@.len() >= 1 && (forall|k: int|
                    0 <= k < d@.len() ==> (#[trigger] d@[k]).conn == sp.id && d@[k].packet.op
                        == Opcode::ListGamesResp) && payloads(packets_of(d@)) == listing(
                    old(self).games@,
                ) && old(self).unchanged(*final(self)),
                Opcode::JoinGame => r matches Dispatch::Deliver(d) && d@.len() == 1 && d@[0].conn
                    == sp.id && old(self).join_game_post(
                    *final(self),
                    sp.user@,
                    sp.id,
                    sp.packet.payload@,
                    d@[0].packet,
                ),
                Opcode::LeaveGame => r matches Dispatch::Deliver(d) && d@.len() == 1 && d@[0].conn
                    == sp.id && old(self).leave_game_post(*final(self), sp.user@, d@[0].packet),
                Opcode::SendMove => r matches Dispatch::Deliver(d) && 1 <= d@.len() <= 2
                    && d@[0].conn == sp.id && old(self).make_move_post(
                    *final(self),
                    sp.user@,
                    sp.packet.payload@,
                    d@[0].packet,
                    if d@.len() == 2 {
                        Some(d@[1])
                    } else {
                        None
                    },
                ),
                Opcode::ShowGame => r matches Dispatch::Deliver(d) && d@.len() == 1 && d@[0].conn
                    == sp.id && old(self).show_game_post(sp.user@, d@[0].packet) && old(
                    self,
                ).unchanged(*final(self)),
                Opcode::Join => r matches Dispatch::Deliver(d) && d@.len() == 0 && old(
                    self,
                ).unchanged(*final(self)),
                Opcode::KeepAlive => r == Dispatch::KeepAlive(sp.id) && old(self).unchanged(
                    *final(self),
                ),
                _ => r matches Dispatch::Deliver(d) && d@.len() == 1 && d@[0].conn == sp.id
                    && is_error(d@[0].packet, ErrorCode::IllegalOpcode) && old(self).unchanged(
                    *final(self),
                ),
            },
            r matches Dispatch::Deliver(d) ==> forall|i: int|
                0 <= i < d@.len() ==> (#[trigger] d@[i]).packet.wf(),
    {
        let user = sp.user();
        let mut out: Vec<Delivery> = Vec::new();
        match sp.packet.op {
            Opcode::CreateGame => {
                let p = self.create_game(user, sp.id, true);
                out.push(sp.send(p));
            },
            Opcode::ListGames => {
                let ps = self.list_games();
                let ghost listed = ps@;
                out = sp.send_all(ps);
                assert(packets_of(out@) =~= listed);
            },
            Opcode::JoinGame => {
                let p = self.join_game(user, sp.id, &sp.packet);
                out.push(sp.send(p));
            },
            Opcode::LeaveGame => {
                let p = self.leave_game(user);
                out.push(sp.send(p));
            },
            Opcode::SendMove => {
                let (p, push) = self.make_move(user, &sp.packet);
                out.push(sp.send(p));
                if let Some(d) = push {
                    out.push(d);
                }
            },
            Opcode::ShowGame => {
                let p = self.show_game(user);
                out.push(sp.send(p));
            },
            Opcode::Join => {},
            Opcode::KeepAlive => {
                return Dispatch::KeepAlive(sp.id);
            },
            _ => {
                out.push(sp.send(Packet::error(ErrorCode::IllegalOpcode)));
            },
        }
        Dispatch::Deliver(out)
    }

    /// The game id in a `JoinGame` message, or `MalformedPacket` where the
    /// payload is not four bytes.
    pub fn get_game_id(&self, packet: &Packet) -> (r: Result<u32, ErrorCode>)
        ensures
            r == match game_id_of(packet.payload@) {
                Some(id) => Ok::<u32, ErrorCode>(id),
                None => Err(ErrorCode::MalformedPacket),
            },
    {
        if packet.payload.len() != 4 {
            return Err(ErrorCode::MalformedPacket);
        }
        let b0 = packet.payload[0] as u64;
        let b1 = packet.payload[1] as u64;
        let b2 = packet.payload[2] as u64;
        let b3 = packet.payload[3] as u64;
        assert(b0 * 16777216 <= 255 * 16777216) by (nonlinear_arith)
            requires
                b0 <= 255,
        ;
        assert(b1 * 65536 <= 255 * 65536) by (nonlinear_arith)
            requires
                b1 <= 255,
        ;
        assert(b2 * 256 <= 255 * 256) by (nonlinear_arith)
            requires
                b2 <= 255,
        ;
        let v: u64 = b0 * 16777216 + b1 * 65536 + b2 * 256 + b3;
        Ok(v as u32)
    }
}

pub open spec fn pow10(k: nat) -> nat
    decreases k,
{
    if k == 0 {
        1
    } else {
        10 * pow10((k - 1) as nat)
    }
}

/// A number below 10^k has at most k digits.
pub proof fn lemma_decimal_len_bound(n: nat, k: nat)
    requires
        1 <= k,
        n < pow10(k),
    ensures
        decimal(n).len() <= k,
    decreases k,
{
    if n >= 10 {
        assert(pow10(0) == 1);
        assert(k >= 2);
        assert(n / 10 < pow10((k - 1) as nat));
        lemma_decimal_len_bound(n / 10, (k - 1) as nat);
    }
}

/// An id below 2^32 has at most ten digits.
pub proof fn lemma_decimal_len(n: nat)
    requires
        n < 4294967296,
    ensures
        decimal(n).len() <= 10,
{
    reveal_with_fuel(pow10, 11);
    lemma_decimal_len_bound(n, 10);
}

/// At most two usernames are indexed under one game: any three names that
/// map to the same game are not all distinct.
pub proof fn lemma_at_most_two_players(s: Server, a: Seq<char>, b: Seq<char>, c: Seq<char>)
    requires
        s.wf(),
        s.users().contains_key(a),
        s.users().contains_key(b),
        s.users().contains_key(c),
        s.users()[a] == s.users()[b],
        s.users()[b] == s.users()[c],
    ensures
        a == b || b == c || a == c,
{
    let g = s.games[s.users()[a] as int];
    assert(g.seat_of(a) is Some);
    assert(g.seat_of(b) is Some);
    assert(g.seat_of(c) is Some);
}

/// A game with both seats taken admits nobody else: a join aimed at it
/// fails with `AlreadyInGame` or `GameLimit` and changes nothing.
pub proof fn lemma_full_game_refuses_join(
    s: Server,
    new: Server,
    user: Seq<char>,
    conn: i32,
    payload: Seq<u8>,
    r: Packet,
)
    requires
        s.wf(),
        s.join_game_post(new, user, conn, payload, r),
        game_id_of(payload) matches Some(id) && id < s.games.len() && s.games[id as int].white is Some
            && s.games[id as int].black is Some,
    ensures
        is_error(r, ErrorCode::AlreadyInGame) || is_error(r, ErrorCode::GameLimit),
        s.unchanged(new),
{
}

/// A user who is in a game cannot start another, nor join an existing game:
/// both fail with `AlreadyInGame` and change nothing.
pub proof fn lemma_one_game_per_user(
    s: Server,
    created: Server,
    joined: Server,
    user: Seq<char>,
    conn: i32,
    white: bool,
    payload: Seq<u8>,
    rc: Packet,
    rj: Packet,
)
    requires
        s.wf(),
        s.users().contains_key(user),
        s.create_game_post(created, user, conn, white, rc),
        s.join_game_post(joined, user, conn, payload, rj),
        game_id_of(payload) matches Some(id) && id < s.games.len(),
    ensures
        is_error(rc, ErrorCode::AlreadyInGame),
        s.unchanged(created),
        is_error(rj, ErrorCode::AlreadyInGame),
        s.unchanged(joined),
{
}

/// A move is all or nothing: either it fails and the registry is as it was,
/// or the mover's game holds the new position and the mover's reply and the
/// opponent's push carry that same position.
pub proof fn lemma_move_atomic(
    s: Server,
    new: Server,
    user: Seq<char>,
    payload: Seq<u8>,
    r: Packet,
    push: Option<Delivery>,
)
    requires
        s.wf(),
        s.make_move_post(new, user, payload, r, push),
    ensures
        r.op == Opcode::Error ==> s.unchanged(new) && push is None,
        r.op != Opcode::Error ==> r.op == Opcode::SendMoveResp && s.users().contains_key(user)
            && r.payload@ == position_payload(new.games[s.users()[user] as int].position@) && (
        push matches Some(d) ==> d.packet.op == Opcode::RecvMove && d.packet.payload@
            == r.payload@),
{
}

} // verus!
