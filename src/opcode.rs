use vstd::prelude::*;

verus! {

/// The first byte of every frame: what the message is for.
#[derive(Clone, Copy, Debug, PartialEq, Eq, Structural)]
pub enum Opcode {
    Join,
    CreateGame,
    CreateGameResp,
    ListGames,
    ListGamesResp,
    JoinGame,
    JoinGameResp,
    ShowGame,
    ShowGameResp,
    SendMove,
    SendMoveResp,
    RecvMove,
    LeaveGame,
    LeaveGameResp,
    KeepAlive,
    Error,
    /// A byte that names no operation of the protocol.
    Other(u8),
}

/// The byte that stands for each operation on the wire.
pub open spec fn opcode_byte(op: Opcode) -> u8 {
    match op {
        Opcode::Join => 0,
        Opcode::CreateGame => 1,
        Opcode::CreateGameResp => 2,
        Opcode::ListGames => 3,
        Opcode::ListGamesResp => 4,
        Opcode::JoinGame => 5,
        Opcode::JoinGameResp => 6,
        Opcode::ShowGame => 7,
        Opcode::ShowGameResp => 8,
        Opcode::SendMove => 9,
        Opcode::SendMoveResp => 10,
        Opcode::RecvMove => 11,
        Opcode::LeaveGame => 12,
        Opcode::LeaveGameResp => 13,
        Opcode::KeepAlive => 14,
        Opcode::Error => 255,
        Opcode::Other(b) => b,
    }
}

/// The operation that a byte stands for.
pub open spec fn opcode_of(b: u8) -> Opcode {
    if b == 0 {
        Opcode::Join
    } else if b == 1 {
        Opcode::CreateGame
    } else if b == 2 {
        Opcode::CreateGameResp
    } else if b == 3 {
        Opcode::ListGames
    } else if b == 4 {
        Opcode::ListGamesResp
    } else if b == 5 {
        Opcode::JoinGame
    } else if b == 6 {
        Opcode::JoinGameResp
    } else if b == 7 {
        Opcode::ShowGame
    } else if b == 8 {
        Opcode::ShowGameResp
    } else if b == 9 {
        Opcode::SendMove
    } else if b == 10 {
        Opcode::SendMoveResp
    } else if b == 11 {
        Opcode::RecvMove
    } else if b == 12 {
        Opcode::LeaveGame
    } else if b == 13 {
        Opcode::LeaveGameResp
    } else if b == 14 {
        Opcode::KeepAlive
    } else if b == 255 {
        Opcode::Error
    } else {
        Opcode::Other(b)
    }
}

/// `Other` holds only bytes that no named operation uses.
pub open spec fn opcode_wf(op: Opcode) -> bool {
    match op {
        Opcode::Other(b) => 15 <= b < 255,
        _ => true,
    }
}

/// Every well-formed operation comes back from its byte.
pub proof fn lemma_opcode_byte_round_trip(op: Opcode)
    requires
        opcode_wf(op),
    ensures
        opcode_of(opcode_byte(op)) == op,
{
}

/// Every byte names a well-formed operation, which is written as that byte.
pub proof fn lemma_byte_opcode_round_trip(b: u8)
    ensures
        opcode_wf(opcode_of(b)),
        opcode_byte(opcode_of(b)) == b,
{
}

impl Opcode {
    pub fn to_byte(&self) -> (r: u8)
        ensures
            r == opcode_byte(*self),
    {
        match self {
            Opcode::Join => 0,
            Opcode::CreateGame => 1,
            Opcode::CreateGameResp => 2,
            Opcode::ListGames => 3,
            Opcode::ListGamesResp => 4,
            Opcode::JoinGame => 5,
            Opcode::JoinGameResp => 6,
            Opcode::ShowGame => 7,
            Opcode::ShowGameResp => 8,
            Opcode::SendMove => 9,
            Opcode::SendMoveResp => 10,
            Opcode::RecvMove => 11,
            Opcode::LeaveGame => 12,
            Opcode::LeaveGameResp => 13,
            Opcode::KeepAlive => 14,
            Opcode::Error => 255,
            Opcode::Other(b) => *b,
        }
    }

    pub fn from_byte(b: u8) -> (r: Opcode)
        ensures
            r == opcode_of(b),
            opcode_wf(r),
    {
        match b {
            0 => Opcode::Join,
            1 => Opcode::CreateGame,
            2 => Opcode::CreateGameResp,
            3 => Opcode::ListGames,
            4 => Opcode::ListGamesResp,
            5 => Opcode::JoinGame,
            6 => Opcode::JoinGameResp,
            7 => Opcode::ShowGame,
            8 => Opcode::ShowGameResp,
            9 => Opcode::SendMove,
            10 => Opcode::SendMoveResp,
            11 => Opcode::RecvMove,
            12 => Opcode::LeaveGame,
            13 => Opcode::LeaveGameResp,
            14 => Opcode::KeepAlive,
            255 => Opcode::Error,
            _ => Opcode::Other(b),
        }
    }
}

/// The error codes that an `Error` frame carries as its one payload byte.
#[derive(Clone, Copy, Debug, PartialEq, Eq, Structural)]
pub enum ErrorCode {
    IllegalOpcode,
    MalformedPacket,
    AlreadyInGame,
    GameDoesntExist,
    IllegalMove,
    GameLimit,
}

pub open spec fn error_byte(e: ErrorCode) -> u8 {
    match e {
        ErrorCode::IllegalOpcode => 0,
        ErrorCode::MalformedPacket => 1,
        ErrorCode::AlreadyInGame => 2,
        ErrorCode::GameDoesntExist => 3,
        ErrorCode::IllegalMove => 4,
        ErrorCode::GameLimit => 5,
    }
}

impl ErrorCode {
    pub fn to_byte(&self) -> (r: u8)
        ensures
            r == error_byte(*self),
    {
        match self {
            ErrorCode::IllegalOpcode => 0,
            ErrorCode::MalformedPacket => 1,
            ErrorCode::AlreadyInGame => 2,
            ErrorCode::GameDoesntExist => 3,
            ErrorCode::IllegalMove => 4,
            ErrorCode::GameLimit => 5,
        }
    }

    pub fn from_byte(b: u8) -> (r: Option<ErrorCode>)
        ensures
            r matches Some(e) ==> error_byte(e) == b,
            r is None <==> b > 5,
    {
        match b {
            0 => Some(ErrorCode::IllegalOpcode),
            1 => Some(ErrorCode::MalformedPacket),
            2 => Some(ErrorCode::AlreadyInGame),
            3 => Some(ErrorCode::GameDoesntExist),
            4 => Some(ErrorCode::IllegalMove),
            5 => Some(ErrorCode::GameLimit),
            _ => None,
        }
    }
}

} // verus!
