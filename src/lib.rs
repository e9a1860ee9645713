//! Real-time core of a two-player display game: packet model, client/server
//! state distribution with an in-memory loopback, frame synchronisation,
//! render cache and frame composition.
pub mod ball;
pub mod framebuffer;
pub mod game;
pub mod graphics;
pub mod network;
pub mod packets;
pub mod racket;
pub mod sync;
