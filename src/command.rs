use vstd::prelude::*;

verus! {

/// Wire tag of `Command::Syn`.
pub const CMD_SYN: u8 = 0;
/// Wire tag of `Command::Fin`.
pub const CMD_FIN: u8 = 1;
/// Wire tag of `Command::Psh`.
pub const CMD_PSH: u8 = 2;
/// Wire tag of `Command::Nop`.
pub const CMD_NOP: u8 = 3;
/// Wire tag of `Command::Upd`.
pub const CMD_UPD: u8 = 4;

/// What a frame asks the receiving side to do.
#[derive(Debug, Clone, Copy, PartialEq, Eq, Structural)]
pub enum Command {
    /// Open a stream.
    Syn,
    /// Close a stream.
    Fin,
    /// Carry payload bytes for a stream.
    Psh,
    /// Flow-control hint; advisory only.
    Upd { consumed: u32, window: u32 },
    /// Keep-alive.
    Nop,
}

/// The one-byte tag that identifies a command on the wire.
pub open spec fn tag_of(c: Command) -> u8 {
    match c {
        Command::Syn => CMD_SYN,
        Command::Fin => CMD_FIN,
        Command::Psh => CMD_PSH,
        Command::Nop => CMD_NOP,
        Command::Upd { .. } => CMD_UPD,
    }
}

/// Whether a byte is the tag of some command.
pub open spec fn is_known_tag(t: u8) -> bool {
    t <= CMD_UPD
}

impl Command {
    /// The command's wire tag.
    pub fn tag(&self) -> (r: u8)
        ensures
            r == tag_of(*self),
            is_known_tag(r),
    {
        match self {
            Command::Syn => CMD_SYN,
            Command::Fin => CMD_FIN,
            Command::Psh => CMD_PSH,
            Command::Nop => CMD_NOP,
            Command::Upd { .. } => CMD_UPD,
        }
    }
}

} // verus!
