use vstd::prelude::*;

verus! {

/// Protocol limits shared by the codec and the session.
#[derive(Debug, Clone, Copy, PartialEq, Eq, Structural)]
pub struct Config {
    /// Protocol version tag written into every frame.
    pub version: u8,
    /// Capacity of the outgoing frame queue, in frames.
    pub max_receive_buffer: usize,
    /// Largest payload, in bytes, that the decoder accepts.
    pub max_frame_size: u32,
}

/// Default protocol version.
pub const DEFAULT_VERSION: u8 = 1;
/// Default capacity of the outgoing frame queue.
pub const DEFAULT_MAX_RECEIVE_BUFFER: usize = 1024;
/// Default largest accepted payload.
pub const DEFAULT_MAX_FRAME_SIZE: u32 = 65535;

impl Default for Config {
    fn default() -> (r: Config)
        ensures
            r.version == DEFAULT_VERSION,
            r.max_receive_buffer == DEFAULT_MAX_RECEIVE_BUFFER,
            r.max_frame_size == DEFAULT_MAX_FRAME_SIZE,
    {
        Config {
            version: DEFAULT_VERSION,
            max_receive_buffer: DEFAULT_MAX_RECEIVE_BUFFER,
            max_frame_size: DEFAULT_MAX_FRAME_SIZE,
        }
    }
}

} // verus!
