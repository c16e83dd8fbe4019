use vstd::prelude::*;
use crate::command::Command;

verus! {

/// Bytes before the payload of every frame: version (1), command tag (1),
/// stream id (4) and payload length (4).
pub const HEADER_SIZE: usize = 10;

/// Bytes that an `Upd` frame carries between header and payload: the
/// consumed and window counts, four bytes each.
pub const UPD_FIELDS_SIZE: usize = 8;

/// One protocol message.
#[derive(Debug, Clone, PartialEq, Eq)]
pub struct Frame {
    pub version: u8,
    pub cmd: Command,
    pub stream_id: u32,
    pub data: Vec<u8>,
}

/// The mathematical value of a frame.
pub struct FrameView {
    pub version: u8,
    pub cmd: Command,
    pub stream_id: u32,
    pub data: Seq<u8>,
}

impl View for Frame {
    type V = FrameView;

    open spec fn view(&self) -> FrameView {
        FrameView {
            version: self.version,
            cmd: self.cmd,
            stream_id: self.stream_id,
            data: self.data@,
        }
    }
}

impl Frame {
    /// A frame that opens stream `id`.
    pub fn new_syn(version: u8, id: u32) -> (r: Frame)
        ensures
            r@ == (FrameView { version, cmd: Command::Syn, stream_id: id, data: Seq::empty() }),
    {
        Frame { version, cmd: Command::Syn, stream_id: id, data: Vec::new() }
    }

    /// A frame that closes stream `id`.
    pub fn new_fin(version: u8, id: u32) -> (r: Frame)
        ensures
            r@ == (FrameView { version, cmd: Command::Fin, stream_id: id, data: Seq::empty() }),
    {
        Frame { version, cmd: Command::Fin, stream_id: id, data: Vec::new() }
    }

    /// A frame that carries `data` on stream `id`.
    pub fn new_psh(version: u8, id: u32, data: Vec<u8>) -> (r: Frame)
        ensures
            r@ == (FrameView { version, cmd: Command::Psh, stream_id: id, data: data@ }),
    {
        Frame { version, cmd: Command::Psh, stream_id: id, data }
    }

    /// A flow-control hint for stream `id`.
    pub fn new_upd(version: u8, id: u32, consumed: u32, window: u32) -> (r: Frame)
        ensures
            r@ == (FrameView {
                version,
                cmd: Command::Upd { consumed, window },
                stream_id: id,
                data: Seq::empty(),
            }),
    {
        Frame { version, cmd: Command::Upd { consumed, window }, stream_id: id, data: Vec::new() }
    }

    /// A keep-alive frame; it addresses no stream.
    pub fn new_nop(version: u8) -> (r: Frame)
        ensures
            r@ == (FrameView { version, cmd: Command::Nop, stream_id: 0, data: Seq::empty() }),
    {
        Frame { version, cmd: Command::Nop, stream_id: 0, data: Vec::new() }
    }
}

} // verus!
