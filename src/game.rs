use vstd::prelude::*;

use crate::engine::{apply_san, engine_position, san_outcome, side_to_move, start_fen, starting_position, white_to_move};
use crate::envelope::Delivery;
use crate::packet::Packet;

verus! {

/// Where a game stands.
#[derive(Clone, Copy, Debug, PartialEq, Eq, Structural)]
pub enum GameStatus {
    Open,
    Ongoing,
    Draw,
    WhiteWon,
    BlackWon,
}

/// How a status is written in a game listing, in ASCII: `open`, `closed`,
/// `1/2-1/2`, `1-0` and `0-1`.
pub open spec fn status_text(s: GameStatus) -> Seq<u8> {
    match s {
        GameStatus::Open => seq![111, 112, 101, 110],
        GameStatus::Ongoing => seq![99, 108, 111, 115, 101, 100],
        GameStatus::Draw => seq![49, 47, 50, 45, 49, 47, 50],
        GameStatus::WhiteWon => seq![49, 45, 48],
        GameStatus::BlackWon => seq![48, 45, 49],
    }
}

impl GameStatus {
    /// Appends this status's text to `out`.
    pub fn write_to(&self, out: &mut Vec<u8>)
        ensures
            final(out)@ == old(out)@ + status_text(*self),
    {
        let ghost start = out@;
        match self {
            GameStatus::Open => {
                out.push(111);
                out.push(112);
                out.push(101);
                out.push(110);
            },
            GameStatus::Ongoing => {
                out.push(99);
                out.push(108);
                out.push(111);
                out.push(115);
                out.push(101);
                out.push(100);
            },
            GameStatus::Draw => {
                out.push(49);
                out.push(47);
                out.push(50);
                out.push(45);
                out.push(49);
                out.push(47);
                out.push(50);
            },
            GameStatus::WhiteWon => {
                out.push(49);
                out.push(45);
                out.push(48);
            },
            GameStatus::BlackWon => {
                out.push(48);
                out.push(45);
                out.push(49);
            },
        }
        assert(out@ =~= start + status_text(*self));
    }
}

/// Why a player could not take a seat.
#[derive(Clone, Copy, Debug, PartialEq, Eq, Structural)]
pub enum JoinError {
    /// Both seats are taken.
    GameFull,
    /// No seat is taken: a game is made with one player in it.
    EmptySession,
}

/// Why a move was not played.
#[derive(Clone, Copy, Debug, PartialEq, Eq, Structural)]
pub enum MoveError {
    /// The engine did not read the text as a legal move in this position.
    IllegalMove,
}

/// One game: its position as FEN, the players in the white and black seats,
/// the connection that each of them is reached on, and its status.
#[derive(Clone, Debug)]
pub struct Game {
    pub position: String,
    pub white: Option<String>,
    pub black: Option<String>,
    pub white_conn: Option<i32>,
    pub black_conn: Option<i32>,
    pub status: GameStatus,
}

/// The name in a seat, as text.
pub open spec fn seat(p: Option<String>) -> Option<Seq<char>> {
    match p {
        Some(s) => Some(s@),
        None => None,
    }
}

impl Game {
    /// The position is one the engine produced; a player sits in a seat just
    /// when a connection is recorded for it; a game with both seats taken is
    /// no longer open.
    pub open spec fn wf(&self) -> bool {
        &&& engine_position(self.position@)
        &&& (self.white is Some <==> self.white_conn is Some)
        &&& (self.black is Some <==> self.black_conn is Some)
        &&& (self.white is Some || self.black is Some)
        &&& (self.white is Some && self.black is Some) ==> self.status != GameStatus::Open
    }

    /// Whether `user` sits in this game, and in which seat (`true` for white).
    pub open spec fn seat_of(&self, user: Seq<char>) -> Option<bool> {
        if seat(self.white) == Some(user) {
            Some(true)
        } else if seat(self.black) == Some(user) {
            Some(false)
        } else {
            None
        }
    }

    /// A new open game in the starting position, with player `p`, reached on
    /// connection `conn`, in the white seat or the black one.
    pub fn new(p: String, conn: i32, white: bool) -> (r: Game)
        ensures
            r.wf(),
            r.position@ == start_fen(),
            r.status == GameStatus::Open,
            white ==> seat(r.white) == Some(p@) && r.white_conn == Some(conn) && r.black is None,
            !white ==> seat(r.black) == Some(p@) && r.black_conn == Some(conn) && r.white is None,
    {
        let position = starting_position();
        if white {
            Game {
                position,
                white: Some(p),
                black: None,
                white_conn: Some(conn),
                black_conn: None,
                status: GameStatus::Open,
            }
        } else {
            Game {
                position,
                white: None,
                black: Some(p),
                white_conn: None,
                black_conn: Some(conn),
                status: GameStatus::Open,
            }
        }
    }

    /// The position as FEN.
    pub fn fen(&self) -> (r: String)
        ensures
            r@ == self.position@,
    {
        self.position.clone()
    }

    /// Whether the engine reads white as the side to move.
    pub fn is_white_turn(&self) -> (r: bool)
        requires
            engine_position(self.position@),
        ensures
            r == (white_to_move(self.position@) == Some(true)),
    {
        match side_to_move(self.position.as_str()) {
            Some(w) => w,
            None => false,
        }
    }

    pub fn status(&self) -> (r: GameStatus)
        ensures
            r == self.status,
    {
        self.status
    }

    /// `pkt` addressed to the player in the white seat (or the black one);
    /// `None` where that seat is empty.
    pub fn send(&self, white: bool, pkt: Packet) -> (r: Option<Delivery>)
        ensures
            white ==> (r matches Some(d) ==> self.white_conn == Some(d.conn) && d.packet == pkt) && (
            r is None <==> self.white_conn is None),
            !white ==> (r matches Some(d) ==> self.black_conn == Some(d.conn) && d.packet == pkt)
                && (r is None <==> self.black_conn is None),
    {
        let conn = if white {
            self.white_conn
        } else {
            self.black_conn
        };
        match conn {
            Some(c) => Some(Delivery { conn: c, packet: pkt }),
            None => None,
        }
    }

    /// Seats `p`, reached on `conn`, in the free seat; the game is then
    /// under way. Fails, changing nothing, where both seats or neither are
    /// taken.
    pub fn join(&mut self, p: String, conn: i32) -> (r: Result<(), JoinError>)
        ensures
            old(self).wf() ==> final(self).wf(),
            (old(self).white is Some && old(self).black is Some) ==> r == Err::<(), JoinError>(
                JoinError::GameFull) && *final(self) == *old(self),
            (old(self).white is None && old(self).black is None) ==> r == Err::<(), JoinError>(
                JoinError::EmptySession) && *final(self) == *old(self),
            (old(self).white is Some && old(self).black is None) ==> r is Ok && seat(
                final(self).black,
            ) == Some(p@) && final(self).black_conn == Some(conn) && final(self).white
                == old(self).white && final(self).white_conn == old(self).white_conn,
            (old(self).white is None && old(self).black is Some) ==> r is Ok && seat(
                final(self).white,
            ) == Some(p@) && final(self).white_conn == Some(conn) && final(self).black
                == old(self).black && final(self).black_conn == old(self).black_conn,
            r is Ok ==> final(self).status == GameStatus::Ongoing && final(self).position
                == old(self).position,
    {
        match (&self.white, &self.black) {
            (Some(_), Some(_)) => Err(JoinError::GameFull),
            (Some(_), None) => {
                self.black = Some(p);
                self.black_conn = Some(conn);
                self.status = GameStatus::Ongoing;
                Ok(())
            },
            (None, Some(_)) => {
                self.white = Some(p);
                self.white_conn = Some(conn);
                self.status = GameStatus::Ongoing;
                Ok(())
            },
            (None, None) => Err(JoinError::EmptySession),
        }
    }

    /// Plays the SAN move `mov`. On success the new position is returned and
    /// kept; otherwise nothing changes.
    pub fn make_move(&mut self, mov: &str) -> (r: Result<String, MoveError>)
        requires
            engine_position(old(self).position@),
        ensures
            engine_position(final(self).position@),
            match san_outcome(old(self).position@, mov@) {
                Some(next) => r matches Ok(s) && s@ == next && final(self).position@ == next,
                None => r == Err::<String, MoveError>(MoveError::IllegalMove) && *final(self)
                    == *old(self),
            },
            final(self).white == old(self).white,
            final(self).black == old(self).black,
            final(self).white_conn == old(self).white_conn,
            final(self).black_conn == old(self).black_conn,
            final(self).status == old(self).status,
    {
        match apply_san(self.position.as_str(), mov) {
            Some(next) => {
                self.position = next.clone();
                Ok(next)
            },
            None => Err(MoveError::IllegalMove),
        }
    }
}

} // verus!
