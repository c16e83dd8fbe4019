use vstd::prelude::*;
use crate::command::{is_known_tag, tag_of, Command, CMD_FIN, CMD_NOP, CMD_PSH, CMD_SYN, CMD_UPD};
use crate::config::Config;
use crate::error::SmuxError;
use crate::frame::{Frame, FrameView, HEADER_SIZE, UPD_FIELDS_SIZE};

verus! {

/// The four bytes of `x`, most significant first.
pub open spec fn u32_bytes(x: u32) -> Seq<u8> {
    seq![(x >> 24u32) as u8, (x >> 16u32) as u8, (x >> 8u32) as u8, x as u8]
}

/// The integer stored most significant byte first at `b[i..i + 4]`.
pub open spec fn u32_at(b: Seq<u8>, i: int) -> u32 {
    ((b[i] as u32) << 24u32) | ((b[i + 1] as u32) << 16u32) | ((b[i + 2] as u32) << 8u32) | (
    b[i + 3] as u32)
}

/// The bytes that an `Upd` frame carries between header and payload; none
/// for the other commands.
pub open spec fn cmd_fields(c: Command) -> Seq<u8> {
    match c {
        Command::Upd { consumed, window } => u32_bytes(consumed) + u32_bytes(window),
        _ => Seq::empty(),
    }
}

/// How many bytes the command with tag `t` carries between header and payload.
pub open spec fn fields_len(t: u8) -> nat {
    if t == CMD_UPD {
        UPD_FIELDS_SIZE as nat
    } else {
        0
    }
}

/// The wire form of a frame.
pub open spec fn encoding(f: FrameView) -> Seq<u8> {
    seq![f.version, tag_of(f.cmd)] + u32_bytes(f.stream_id) + u32_bytes(f.data.len() as u32)
        + cmd_fields(f.cmd) + f.data
}

/// What the start of a byte sequence holds.
pub enum Parsed {
    /// Not yet a whole frame: more bytes are needed.
    Incomplete,
    /// A header that no frame has, or a payload over the size limit.
    Malformed,
    /// A whole frame, and how many bytes it takes.
    Complete(FrameView, nat),
}

/// The command whose tag is `t`, with the `Upd` fields read from `b` after
/// the header.
pub open spec fn cmd_from(t: u8, b: Seq<u8>) -> Command {
    if t == CMD_SYN {
        Command::Syn
    } else if t == CMD_FIN {
        Command::Fin
    } else if t == CMD_PSH {
        Command::Psh
    } else if t == CMD_NOP {
        Command::Nop
    } else {
        Command::Upd {
            consumed: u32_at(b, HEADER_SIZE as int),
            window: u32_at(b, HEADER_SIZE as int + 4),
        }
    }
}

/// The frame at the start of `b`, for a decoder that accepts payloads of at
/// most `max` bytes.
pub open spec fn parse(b: Seq<u8>, max: u32) -> Parsed {
    if b.len() < HEADER_SIZE {
        Parsed::Incomplete
    } else if !is_known_tag(b[1]) {
        Parsed::Malformed
    } else if u32_at(b, 6) > max {
        Parsed::Malformed
    } else {
        let start = HEADER_SIZE + fields_len(b[1]);
        let total = (start + u32_at(b, 6)) as nat;
        if b.len() < total {
            Parsed::Incomplete
        } else {
            Parsed::Complete(
                FrameView {
                    version: b[0],
                    cmd: cmd_from(b[1], b),
                    stream_id: u32_at(b, 2),
                    data: b.subrange(start as int, total as int),
                },
                total,
            )
        }
    }
}

proof fn lemma_u32_round_trip(x: u32)
    ensures
        u32_at(u32_bytes(x), 0) == x,
{
    let b0 = (x >> 24u32) as u8;
    let b1 = (x >> 16u32) as u8;
    let b2 = (x >> 8u32) as u8;
    let b3 = x as u8;
    assert(((b0 as u32) << 24u32) | ((b1 as u32) << 16u32) | ((b2 as u32) << 8u32) | (b3 as u32)
        == x) by (bit_vector)
        requires
            b0 == (x >> 24u32) as u8,
            b1 == (x >> 16u32) as u8,
            b2 == (x >> 8u32) as u8,
            b3 == x as u8,
    ;
}

proof fn lemma_u32_at_shift(a: Seq<u8>, x: u32, rest: Seq<u8>)
    ensures
        u32_at(a + u32_bytes(x) + rest, a.len() as int) == x,
{
    let s = a + u32_bytes(x) + rest;
    let k = a.len() as int;
    assert(s[k] == u32_bytes(x)[0]);
    assert(s[k + 1] == u32_bytes(x)[1]);
    assert(s[k + 2] == u32_bytes(x)[2]);
    assert(s[k + 3] == u32_bytes(x)[3]);
    lemma_u32_round_trip(x);
}

/// Decoding the wire form of a frame, followed by any bytes, gives back the
/// frame exactly and consumes precisely its own bytes.
pub proof fn lemma_decode_encode(f: FrameView, rest: Seq<u8>, max: u32)
    requires
        f.data.len() <= max,
    ensures
        parse(encoding(f) + rest, max) == Parsed::Complete(f, encoding(f).len()),
{
    let len = f.data.len() as u32;
    let head = seq![f.version, tag_of(f.cmd)];
    let b = encoding(f) + rest;
    let tail = cmd_fields(f.cmd) + f.data + rest;
    assert(b =~= head + u32_bytes(f.stream_id) + (u32_bytes(len) + tail));
    lemma_u32_at_shift(head, f.stream_id, u32_bytes(len) + tail);
    assert(b =~= (head + u32_bytes(f.stream_id)) + u32_bytes(len) + tail);
    lemma_u32_at_shift(head + u32_bytes(f.stream_id), len, tail);
    assert(b[1] == tag_of(f.cmd));
    assert(b[0] == f.version);
    let start = HEADER_SIZE + fields_len(b[1]);
    assert(cmd_fields(f.cmd).len() == fields_len(b[1]));
    let pre = head + u32_bytes(f.stream_id) + u32_bytes(len);
    assert(pre.len() == HEADER_SIZE);
    if let Command::Upd { consumed, window } = f.cmd {
        assert(b =~= pre + u32_bytes(consumed) + (u32_bytes(window) + f.data + rest));
        lemma_u32_at_shift(pre, consumed, u32_bytes(window) + f.data + rest);
        assert(b =~= (pre + u32_bytes(consumed)) + u32_bytes(window) + (f.data + rest));
        lemma_u32_at_shift(pre + u32_bytes(consumed), window, f.data + rest);
    }
    assert(cmd_from(b[1], b) == f.cmd);
    assert(b.subrange(start as int, start + len) =~= f.data);
}

/// A frame whose payload is longer than the limit is refused as soon as
/// its header is there, whatever follows it.
pub proof fn lemma_oversized_refused(f: FrameView, rest: Seq<u8>, max: u32)
    requires
        max < f.data.len() <= u32::MAX,
    ensures
        parse(encoding(f) + rest, max) == Parsed::Malformed,
{
    let len = f.data.len() as u32;
    let head = seq![f.version, tag_of(f.cmd)];
    let b = encoding(f) + rest;
    let tail = cmd_fields(f.cmd) + f.data + rest;
    assert(b =~= (head + u32_bytes(f.stream_id)) + u32_bytes(len) + tail);
    lemma_u32_at_shift(head + u32_bytes(f.stream_id), len, tail);
    assert(b[1] == tag_of(f.cmd));
}

/// Encoder and decoder of frames, under one configuration.
pub struct Codec {
    pub config: Config,
}

fn push_u32(dst: &mut Vec<u8>, x: u32)
    ensures
        final(dst)@ == old(dst)@ + u32_bytes(x),
{
    dst.push((x >> 24u32) as u8);
    dst.push((x >> 16u32) as u8);
    dst.push((x >> 8u32) as u8);
    dst.push(x as u8);
    assert(final(dst)@ =~= old(dst)@ + u32_bytes(x));
}

fn read_u32(src: &[u8], i: usize) -> (r: u32)
    requires
        i + 4 <= src@.len(),
    ensures
        r == u32_at(src@, i as int),
{
    ((src[i] as u32) << 24u32) | ((src[i + 1] as u32) << 16u32) | ((src[i + 2] as u32) << 8u32) | (
    src[i + 3] as u32)
}

impl Codec {
    /// A codec for the given limits.
    pub fn new(config: Config) -> (r: Codec)
        ensures
            r.config == config,
    {
        Codec { config }
    }

    /// Appends the wire form of `frame` to `dst`.
    pub fn encode(&self, frame: &Frame, dst: &mut Vec<u8>)
        requires
            frame.data@.len() <= u32::MAX,
        ensures
            final(dst)@ == old(dst)@ + encoding(frame@),
    {
        let ghost start = dst@;
        dst.push(frame.version);
        dst.push(frame.cmd.tag());
        push_u32(dst, frame.stream_id);
        push_u32(dst, frame.data.len() as u32);
        match frame.cmd {
            Command::Upd { consumed, window } => {
                push_u32(dst, consumed);
                push_u32(dst, window);
            },
            _ => {},
        }
        let ghost mid = dst@;
        let mut i: usize = 0;
        while i < frame.data.len()
            invariant
                i <= frame.data@.len(),
                dst@ == mid + frame.data@.subrange(0, i as int),
            decreases frame.data@.len() - i,
        {
            dst.push(frame.data[i]);
            i = i + 1;
            assert(dst@ =~= mid + frame.data@.subrange(0, i as int));
        }
        assert(frame.data@.subrange(0, i as int) =~= frame.data@);
        assert(mid =~= start + (seq![frame.version, tag_of(frame.cmd)] + u32_bytes(frame.stream_id)
            + u32_bytes(frame.data@.len() as u32) + cmd_fields(frame.cmd)));
        assert(dst@ =~= start + encoding(frame@));
    }

    /// Reads the frame at the start of `src`: `Ok(None)` while more bytes are
    /// needed, the frame and the number of bytes it took once it is whole,
    /// and `DecodeError` for an unknown command or a payload larger than
    /// `max_frame_size`. Nothing is consumed unless a whole frame is returned,
    /// so a caller that drops the consumed bytes stays aligned.
    pub fn decode(&self, src: &[u8]) -> (r: Result<Option<(Frame, usize)>, SmuxError>)
        ensures
            match r {
                Ok(None) => parse(src@, self.config.max_frame_size) == Parsed::Incomplete,
                Ok(Some((f, n))) => parse(src@, self.config.max_frame_size) == Parsed::Complete(
                    f@,
                    n as nat,
                ),
                Err(e) => {
                    &&& e == SmuxError::DecodeError
                    &&& parse(src@, self.config.max_frame_size) == Parsed::Malformed
                },
            },
    {
        if src.len() < HEADER_SIZE {
            return Ok(None);
        }
        let tag = src[1];
        if tag > CMD_UPD {
            return Err(SmuxError::DecodeError);
        }
        let len = read_u32(src, 6);
        if len > self.config.max_frame_size {
            return Err(SmuxError::DecodeError);
        }
        let start: usize = if tag == CMD_UPD { HEADER_SIZE + UPD_FIELDS_SIZE } else { HEADER_SIZE };
        if src.len() < start || src.len() - start < len as usize {
            return Ok(None);
        }
        let total: usize = start + len as usize;
        let cmd = if tag == CMD_SYN {
            Command::Syn
        } else if tag == CMD_FIN {
            Command::Fin
        } else if tag == CMD_PSH {
            Command::Psh
        } else if tag == CMD_NOP {
            Command::Nop
        } else {
            Command::Upd { consumed: read_u32(src, HEADER_SIZE), window: read_u32(src, HEADER_SIZE + 4) }
        };
        let mut data: Vec<u8> = Vec::new();
        let mut i: usize = start;
        while i < total
            invariant
                start <= i <= total <= src@.len(),
                data@ == src@.subrange(start as int, i as int),
            decreases total - i,
        {
            data.push(src[i]);
            i = i + 1;
            assert(data@ =~= src@.subrange(start as int, i as int));
        }
        let f = Frame { version: src[0], cmd, stream_id: read_u32(src, 2), data };
        Ok(Some((f, total)))
    }
}

} // verus!
