//! Multiplexing of many ordered byte streams over one duplex transport.
//!
//! The verified core: the wire frame and its codec, stream id allocation,
//! and the session state machine that owns the stream registry.
pub mod codec;
pub mod command;
pub mod config;
pub mod error;
pub mod frame;
pub mod session;
pub mod stream_id;


pub use codec::Codec;
pub use command::Command;
pub use config::Config;
pub use error::SmuxError;


pub use frame::{Frame, HEADER_SIZE};
pub use session::Session;
pub use stream_id::StreamIdGenerator;
