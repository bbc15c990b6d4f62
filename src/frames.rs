//! Frame kinds built on the header: the Close frame that ends a virtual
//! connection, the Data frame that carries its bytes, and the reader that
//! takes one whole frame off a byte stream.
use vstd::prelude::*;

use crate::header::{
    ProtError, ProtFlag, ProtFrameHeader, ProtKind, HEADER_LEN, header_bytes, header_of,
    lemma_header_round_trip,
};

verus! {

/// The header of the Close frame for a virtual connection.
pub open spec fn close_header(sock_map: u32) -> ProtFrameHeader {
    ProtFrameHeader { kind: ProtKind::Close, flag: ProtFlag { bits: 0 }, sock_map, length: 0 }
}

/// Bytes of a Close frame: its header alone.
pub open spec fn close_bytes(sock_map: u32) -> Seq<u8> {
    header_bytes(close_header(sock_map))
}

/// Whether `s` starts with a whole frame: a header and the payload it declares.
pub open spec fn holds_frame(s: Seq<u8>) -> bool {
    s.len() >= HEADER_LEN && HEADER_LEN + header_of(s).length <= s.len()
}

/// Number of bytes taken by the frame at the start of `s`.
pub open spec fn frame_size(s: Seq<u8>) -> int {
    HEADER_LEN + header_of(s).length
}

/// The payload of the frame at the start of `s`.
pub open spec fn payload_of(s: Seq<u8>) -> Seq<u8> {
    s.subrange(HEADER_LEN as int, frame_size(s))
}

/// A virtual connection is being closed by the sender. The frame carries no
/// payload.
#[derive(Debug)]
pub struct ProtClose {
    sock_map: u32,
}

impl ProtClose {
    pub closed spec fn spec_sock_map(&self) -> u32 {
        self.sock_map
    }

    pub fn new(sock_map: u32) -> (r: ProtClose)
        ensures
            r.spec_sock_map() == sock_map,
    {
        ProtClose { sock_map }
    }

    /// Builds the frame from its header and the payload that follows it, which
    /// must hold the `length` bytes that the header declares.
    pub fn parse(header: ProtFrameHeader, buf: &[u8]) -> (r: Result<ProtClose, ProtError>)
        ensures
            buf@.len() < header.length ==> r is Err && r->Err_0 == ProtError::MalformedFrame,
            buf@.len() >= header.length ==> r is Ok && r->Ok_0.spec_sock_map()
                == header.sock_map,
    {
        if buf.len() < header.length as usize {
            return Err(ProtError::MalformedFrame);
        }
        Ok(ProtClose { sock_map: header.sock_map })
    }

    /// Appends the frame to `buf`: the header only, with length zero.
    pub fn encode(self, buf: &mut Vec<u8>) -> (r: usize)
        ensures
            r == HEADER_LEN,
            final(buf)@ == old(buf)@ + close_bytes(self.spec_sock_map()),
    {
        let head = ProtFrameHeader::new(ProtKind::Close, ProtFlag::zero(), self.sock_map);
        head.encode(buf)
    }

    pub fn sock_map(&self) -> (r: u32)
        ensures
            r == self.spec_sock_map(),
    {
        self.sock_map
    }
}

/// Bytes of one virtual connection.
#[derive(Debug)]
pub struct ProtData {
    sock_map: u32,
    data: Vec<u8>,
}

/// The header of the Data frame for a payload.
pub open spec fn data_header(sock_map: u32, len: nat) -> ProtFrameHeader {
    ProtFrameHeader {
        kind: ProtKind::Data,
        flag: ProtFlag { bits: 0 },
        sock_map,
        length: len as u32,
    }
}

impl ProtData {
    pub closed spec fn spec_sock_map(&self) -> u32 {
        self.sock_map
    }

    pub closed spec fn spec_data(&self) -> Seq<u8> {
        self.data@
    }

    pub fn new(sock_map: u32, data: Vec<u8>) -> (r: ProtData)
        ensures
            r.spec_sock_map() == sock_map,
            r.spec_data() == data@,
    {
        ProtData { sock_map, data }
    }

    pub fn sock_map(&self) -> (r: u32)
        ensures
            r == self.spec_sock_map(),
    {
        self.sock_map
    }

    pub fn data(&self) -> (r: &Vec<u8>)
        ensures
            r@ == self.spec_data(),
    {
        &self.data
    }

    /// Builds the frame from its header and what follows it: the payload is
    /// the first `length` bytes of `buf`, and nothing beyond them is read.
    pub fn parse(header: ProtFrameHeader, buf: &[u8]) -> (r: Result<ProtData, ProtError>)
        ensures
            buf@.len() < header.length ==> r is Err && r->Err_0 == ProtError::MalformedFrame,
            buf@.len() >= header.length ==> r is Ok && r->Ok_0.spec_sock_map()
                == header.sock_map && r->Ok_0.spec_data() == buf@.subrange(
                0,
                header.length as int,
            ),
    {
        let len = header.length as usize;
        if buf.len() < len {
            return Err(ProtError::MalformedFrame);
        }
        let mut data: Vec<u8> = Vec::new();
        let mut i: usize = 0;
        while i < len
            invariant
                i <= len,
                len <= buf@.len(),
                data@ == buf@.subrange(0, i as int),
            decreases len - i,
        {
            data.push(buf[i]);
            i = i + 1;
            assert(data@ =~= buf@.subrange(0, i as int));
        }
        Ok(ProtData { sock_map: header.sock_map, data })
    }

    /// Appends the header and the payload to `buf`; refuses a frame whose
    /// whole size, header included, exceeds what 32 bits can count, and then
    /// writes nothing.
    pub fn encode(self, buf: &mut Vec<u8>) -> (r: Result<usize, ProtError>)
        ensures
            HEADER_LEN + self.spec_data().len() > u32::MAX ==> r == Err::<usize, ProtError>(
                ProtError::PayloadTooLarge,
            ) && final(buf)@ == old(buf)@,
            HEADER_LEN + self.spec_data().len() <= u32::MAX ==> r == Ok::<usize, ProtError>(
                (HEADER_LEN + self.spec_data().len()) as usize,
            ) && final(buf)@ == old(buf)@ + header_bytes(
                data_header(self.spec_sock_map(), self.spec_data().len()),
            ) + self.spec_data(),
    {
        if self.data.len() > u32::MAX as usize - HEADER_LEN {
            return Err(ProtError::PayloadTooLarge);
        }
        let mut head = ProtFrameHeader::new(ProtKind::Data, ProtFlag::zero(), self.sock_map);
        head.length = self.data.len() as u32;
        let size = head.encode(buf);
        let ghost mid = buf@;
        let mut i: usize = 0;
        while i < self.data.len()
            invariant
                i <= self.data@.len(),
                buf@ == mid + self.data@.subrange(0, i as int),
            decreases self.data@.len() - i,
        {
            buf.push(self.data[i]);
            i = i + 1;
            assert(buf@ =~= mid + self.data@.subrange(0, i as int));
        }
        assert(self.data@.subrange(0, self.data@.len() as int) =~= self.data@);
        Ok(size + self.data.len())
    }
}

/// One decoded frame. Open, Ping, Pong and unknown kinds are skipped by their
/// declared length and kept by header only.
#[derive(Debug)]
pub enum ProtFrame {
    Close(ProtClose),
    Data(ProtData),
    Skipped(ProtFrameHeader),
}

impl ProtFrame {
    /// Whether this frame is what the frame at the start of `s` decodes to.
    pub open spec fn decodes_from(&self, s: Seq<u8>) -> bool {
        let h = header_of(s);
        match self {
            ProtFrame::Close(c) => h.kind == ProtKind::Close && c.spec_sock_map() == h.sock_map,
            ProtFrame::Data(d) => h.kind == ProtKind::Data && d.spec_sock_map() == h.sock_map
                && d.spec_data() == payload_of(s),
            ProtFrame::Skipped(sh) => h.kind != ProtKind::Close && h.kind != ProtKind::Data && *sh
                == h,
        }
    }

    /// Takes the frame at the start of `buf`. On success returns the frame and
    /// the number of bytes it took: the header and exactly the declared
    /// payload, never more. Fails when `buf` ends before either.
    pub fn decode(buf: &[u8]) -> (r: Result<(ProtFrame, usize), ProtError>)
        ensures
            !holds_frame(buf@) ==> r == Err::<(ProtFrame, usize), ProtError>(
                ProtError::MalformedFrame,
            ),
            holds_frame(buf@) ==> r is Ok && r->Ok_0.1 == frame_size(buf@) && r->Ok_0.0.decodes_from(
                buf@,
            ),
    {
        let header = match ProtFrameHeader::parse(buf) {
            Ok(h) => h,
            Err(e) => return Err(e),
        };
        let len = header.length as usize;
        if buf.len() - HEADER_LEN < len {
            return Err(ProtError::MalformedFrame);
        }
        let end = HEADER_LEN + len;
        let payload = slice_range(buf, HEADER_LEN, end);
        match header.kind {
            ProtKind::Close => {
                let c = match ProtClose::parse(header, payload) {
                    Ok(c) => c,
                    Err(e) => return Err(e),
                };
                Ok((ProtFrame::Close(c), end))
            },
            ProtKind::Data => {
                let d = match ProtData::parse(header, payload) {
                    Ok(d) => d,
                    Err(e) => return Err(e),
                };
                assert(d.spec_data() =~= payload_of(buf@));
                Ok((ProtFrame::Data(d), end))
            },
            _ => Ok((ProtFrame::Skipped(header), end)),
        }
    }
}

fn slice_range(buf: &[u8], from: usize, to: usize) -> (r: &[u8])
    requires
        from <= to <= buf@.len(),
    ensures
        r@ == buf@.subrange(from as int, to as int),
{
    let (head, _tail) = buf.split_at(to);
    let (_skip, mid) = head.split_at(from);
    assert(mid@ =~= buf@.subrange(from as int, to as int));
    mid
}

/// A Close frame for any virtual connection decodes back to a Close frame for
/// the same connection, whatever follows it; the frame declares length zero
/// and takes exactly its header's bytes.
pub proof fn lemma_close_round_trip(sock_map: u32, rest: Seq<u8>)
    ensures
        header_of(close_bytes(sock_map) + rest).length == 0,
        header_of(close_bytes(sock_map) + rest).kind == ProtKind::Close,
        header_of(close_bytes(sock_map) + rest).sock_map == sock_map,
        holds_frame(close_bytes(sock_map) + rest),
        frame_size(close_bytes(sock_map) + rest) == HEADER_LEN,
{
    lemma_header_round_trip(close_header(sock_map), rest);
}

/// A Data frame decodes back to its connection and payload, whatever follows
/// it, and takes exactly its header and payload.
pub proof fn lemma_data_round_trip(sock_map: u32, data: Seq<u8>, rest: Seq<u8>)
    requires
        data.len() <= u32::MAX,
    ensures
        ({
            let s = header_bytes(data_header(sock_map, data.len())) + data + rest;
            &&& holds_frame(s)
            &&& header_of(s).kind == ProtKind::Data
            &&& header_of(s).sock_map == sock_map
            &&& frame_size(s) == HEADER_LEN + data.len()
            &&& payload_of(s) == data
        }),
{
    let h = data_header(sock_map, data.len());
    lemma_header_round_trip(h, data + rest);
    let s = header_bytes(h) + data + rest;
    assert(s =~= header_bytes(h) + (data + rest));
    assert(payload_of(s) =~= data);
}

/// Whatever follows a whole frame does not change how it decodes: its
/// header, its size and its payload are read from its own bytes only.
pub proof fn lemma_decode_ignores_rest(s: Seq<u8>, rest: Seq<u8>)
    requires
        holds_frame(s),
    ensures
        holds_frame(s + rest),
        header_of(s + rest) == header_of(s),
        frame_size(s + rest) == frame_size(s),
        payload_of(s + rest) == payload_of(s),
{
    let t = s + rest;
    assert(t.subrange(0, HEADER_LEN as int) =~= s.subrange(0, HEADER_LEN as int));
    assert(t[0] == s[0] && t[1] == s[1] && t[2] == s[2] && t[3] == s[3] && t[4] == s[4]);
    assert(t[5] == s[5] && t[6] == s[6] && t[7] == s[7] && t[8] == s[8] && t[9] == s[9]);
    assert(payload_of(t) =~= payload_of(s));
}

} // verus!
