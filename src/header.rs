//! The fixed frame header that every frame on a shared transport starts with.
//!
//! Wire layout, ten bytes: kind (1), flag (1), `sock_map` (4, big-endian),
//! payload length (4, big-endian). The payload follows the header.
use vstd::prelude::*;

verus! {

/// Number of bytes of an encoded header.
pub const HEADER_LEN: usize = 10;

/// Why a frame could not be read or written.
#[derive(Debug, Clone, Copy, PartialEq, Eq, Structural)]
pub enum ProtError {
    /// The input ends before the header or before the declared payload.
    MalformedFrame,
    /// A frame, header included, is longer than 32 bits can count.
    PayloadTooLarge,
}

/// The kind of a frame. A byte that names no known kind is kept as it is, so
/// that a reader can skip such a frame by its length.
#[derive(Debug, Clone, Copy, PartialEq, Eq, Structural)]
pub enum ProtKind {
    Open,
    Data,
    Close,
    Ping,
    Pong,
    Unregistered(u8),
}

pub open spec fn kind_byte(k: ProtKind) -> u8 {
    match k {
        ProtKind::Open => 1,
        ProtKind::Data => 2,
        ProtKind::Close => 3,
        ProtKind::Ping => 4,
        ProtKind::Pong => 5,
        ProtKind::Unregistered(b) => b,
    }
}

pub open spec fn kind_of_byte(b: u8) -> ProtKind {
    if b == 1 {
        ProtKind::Open
    } else if b == 2 {
        ProtKind::Data
    } else if b == 3 {
        ProtKind::Close
    } else if b == 4 {
        ProtKind::Ping
    } else if b == 5 {
        ProtKind::Pong
    } else {
        ProtKind::Unregistered(b)
    }
}

impl ProtKind {
    /// A kind is canonical when reading its byte gives it back: an
    /// `Unregistered` byte is none of the known kinds' bytes.
    pub open spec fn is_canonical(self) -> bool {
        match self {
            ProtKind::Unregistered(b) => b < 1 || b > 5,
            _ => true,
        }
    }

    pub fn from_u8(b: u8) -> (r: ProtKind)
        ensures
            r == kind_of_byte(b),
            r.is_canonical(),
    {
        match b {
            1 => ProtKind::Open,
            2 => ProtKind::Data,
            3 => ProtKind::Close,
            4 => ProtKind::Ping,
            5 => ProtKind::Pong,
            _ => ProtKind::Unregistered(b),
        }
    }

    pub fn to_u8(&self) -> (r: u8)
        ensures
            r == kind_byte(*self),
    {
        match self {
            ProtKind::Open => 1,
            ProtKind::Data => 2,
            ProtKind::Close => 3,
            ProtKind::Ping => 4,
            ProtKind::Pong => 5,
            ProtKind::Unregistered(b) => *b,
        }
    }
}

/// Modifier bits of a frame; zero means no modifier.
#[derive(Debug, Clone, Copy, PartialEq, Eq, Structural)]
pub struct ProtFlag {
    pub bits: u8,
}

impl ProtFlag {
    pub fn zero() -> (r: ProtFlag)
        ensures
            r.bits == 0,
    {
        ProtFlag { bits: 0 }
    }

    pub fn new(bits: u8) -> (r: ProtFlag)
        ensures
            r.bits == bits,
    {
        ProtFlag { bits }
    }
}

/// The header of one frame.
#[derive(Debug, Clone, Copy, PartialEq, Eq, Structural)]
pub struct ProtFrameHeader {
    pub kind: ProtKind,
    pub flag: ProtFlag,
    pub sock_map: u32,
    pub length: u32,
}

/// Big-endian bytes of a 32-bit value.
pub open spec fn be_bytes(x: u32) -> Seq<u8> {
    seq![(x >> 24u32) as u8, (x >> 16u32) as u8, (x >> 8u32) as u8, x as u8]
}

/// The 32-bit value of four big-endian bytes.
pub open spec fn be_value(b0: u8, b1: u8, b2: u8, b3: u8) -> u32 {
    ((b0 as u32) << 24u32) | ((b1 as u32) << 16u32) | ((b2 as u32) << 8u32) | (b3 as u32)
}

/// The ten bytes that encode a header.
pub open spec fn header_bytes(h: ProtFrameHeader) -> Seq<u8> {
    seq![kind_byte(h.kind), h.flag.bits] + be_bytes(h.sock_map) + be_bytes(h.length)
}

/// The header that the first ten bytes of `s` encode.
pub open spec fn header_of(s: Seq<u8>) -> ProtFrameHeader {
    ProtFrameHeader {
        kind: kind_of_byte(s[0]),
        flag: ProtFlag { bits: s[1] },
        sock_map: be_value(s[2], s[3], s[4], s[5]),
        length: be_value(s[6], s[7], s[8], s[9]),
    }
}

pub proof fn lemma_be_round_trip(x: u32)
    ensures
        be_value((x >> 24u32) as u8, (x >> 16u32) as u8, (x >> 8u32) as u8, x as u8) == x,
{
    assert(((((x >> 24u32) as u8) as u32) << 24u32) | ((((x >> 16u32) as u8) as u32) << 16u32)
        | ((((x >> 8u32) as u8) as u32) << 8u32) | ((x as u8) as u32) == x) by (bit_vector);
}

/// Reading back the bytes of a header with a canonical kind gives that
/// header, whatever bytes follow it.
pub proof fn lemma_header_round_trip(h: ProtFrameHeader, rest: Seq<u8>)
    requires
        h.kind.is_canonical(),
    ensures
        (header_bytes(h) + rest).len() == HEADER_LEN + rest.len(),
        header_of(header_bytes(h) + rest) == h,
{
    lemma_be_round_trip(h.sock_map);
    lemma_be_round_trip(h.length);
    let s = header_bytes(h) + rest;
    assert(s[0] == kind_byte(h.kind));
    assert(s[1] == h.flag.bits);
    assert(s[2] == (h.sock_map >> 24u32) as u8);
    assert(s[3] == (h.sock_map >> 16u32) as u8);
    assert(s[4] == (h.sock_map >> 8u32) as u8);
    assert(s[5] == h.sock_map as u8);
    assert(s[6] == (h.length >> 24u32) as u8);
    assert(s[7] == (h.length >> 16u32) as u8);
    assert(s[8] == (h.length >> 8u32) as u8);
    assert(s[9] == h.length as u8);
}

fn push_be(buf: &mut Vec<u8>, x: u32)
    ensures
        final(buf)@ == old(buf)@ + be_bytes(x),
{
    buf.push((x >> 24u32) as u8);
    buf.push((x >> 16u32) as u8);
    buf.push((x >> 8u32) as u8);
    buf.push(x as u8);
    assert(final(buf)@ =~= old(buf)@ + be_bytes(x));
}

impl ProtFrameHeader {
    /// A header with no payload yet.
    pub fn new(kind: ProtKind, flag: ProtFlag, sock_map: u32) -> (r: ProtFrameHeader)
        ensures
            r == (ProtFrameHeader { kind, flag, sock_map, length: 0 }),
    {
        ProtFrameHeader { kind, flag, sock_map, length: 0 }
    }

    pub fn sock_map(&self) -> (r: u32)
        ensures
            r == self.sock_map,
    {
        self.sock_map
    }

    /// Appends the header's ten bytes to `buf`; returns how many were written.
    pub fn encode(&self, buf: &mut Vec<u8>) -> (r: usize)
        ensures
            r == HEADER_LEN,
            final(buf)@ == old(buf)@ + header_bytes(*self),
    {
        buf.push(self.kind.to_u8());
        buf.push(self.flag.bits);
        push_be(buf, self.sock_map);
        push_be(buf, self.length);
        assert(final(buf)@ =~= old(buf)@ + header_bytes(*self));
        HEADER_LEN
    }

    /// Reads a header from the start of `buf`. Any kind byte is accepted; only
    /// an input shorter than a header is refused.
    pub fn parse(buf: &[u8]) -> (r: Result<ProtFrameHeader, ProtError>)
        ensures
            buf@.len() < HEADER_LEN ==> r == Err::<ProtFrameHeader, ProtError>(
                ProtError::MalformedFrame,
            ),
            buf@.len() >= HEADER_LEN ==> r == Ok::<ProtFrameHeader, ProtError>(header_of(buf@)),
    {
        if buf.len() < HEADER_LEN {
            return Err(ProtError::MalformedFrame);
        }
        let kind = ProtKind::from_u8(buf[0]);
        let sock_map = ((buf[2] as u32) << 24u32) | ((buf[3] as u32) << 16u32) | ((buf[4] as u32)
            << 8u32) | (buf[5] as u32);
        let length = ((buf[6] as u32) << 24u32) | ((buf[7] as u32) << 16u32) | ((buf[8] as u32)
            << 8u32) | (buf[9] as u32);
        Ok(ProtFrameHeader { kind, flag: ProtFlag { bits: buf[1] }, sock_map, length })
    }
}

} // verus!
