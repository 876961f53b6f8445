//! Client-side protocol core for a real-time hockey simulation server:
//! the bit-stream codec, the delta-compressed snapshot decoder, the message
//! log decoder, the outbound datagram encoder and the session state machine
//! that ties them together.

pub mod codec;
pub mod game;
pub mod snapshot;
pub mod text;
pub mod messages;
pub mod outbound;
pub mod session;
pub mod empty_bot;
