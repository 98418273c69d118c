//! Message-routing core of a two-player chess server: the wire codec, game
//! sessions, the session registry, the connection handshake and the
//! keepalive tracker. Transport and task plumbing live outside this library.
pub mod opcode;
pub mod packet;
pub mod server;
pub mod connection;
pub mod engine;
pub mod envelope;
pub mod game;
pub mod index;
pub mod liveness;
