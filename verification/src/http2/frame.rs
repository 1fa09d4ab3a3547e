//! The frame header and the frame.

use super::flag::{flag_of_bits, lemma_flag_by_bits, valid_flag_bits, Flag};
use super::kind::{byte_of_kind, kind_of_byte, Kind};
use super::payload::{
    filled, filled_len, lemma_payload_wire_len, parse_payload, payload_fixed_len, payload_wire,
    payload_wire_len, Payload, PayloadView,
};
use super::{
    be_bytes, be_value, encode_u24, lemma_be_bytes_len, lemma_be_round_trip,
    lemma_pow256_values, overwritten, stream_id_of, stream_id_wire, Error, StreamIdentifier,
    FRAME_HEADER_BYTES,
};
use vstd::prelude::*;

verus! {

/// The header of a frame: nine bytes on the wire.
#[derive(Copy, Clone, Debug, PartialEq, Eq, Hash)]
pub struct FrameHeader {
    /// Bytes of the payload that follows the header; 24 bits on the wire.
    pub length: u32,
    pub kind: Kind,
    pub flag: Flag,
    pub id: StreamIdentifier,
}

/// What the bytes of a frame header say.
pub open spec fn parse_frame_header(buf: Seq<u8>) -> Result<FrameHeader, Error> {
    if buf.len() < FRAME_HEADER_BYTES {
        Err(Error::Short)
    } else if !valid_flag_bits(buf[4]) {
        Err(Error::BadFlag(buf[4]))
    } else {
        Ok(
            FrameHeader {
                length: be_value(buf, 3) as u32,
                kind: kind_of_byte(buf[3]),
                flag: flag_of_bits(buf[4]),
                id: stream_id_of(buf.skip(5)),
            },
        )
    }
}

/// The nine bytes of a frame header: the three lowest bytes of the length,
/// the frame type, the flags, the stream identifier without the reserved bit.
pub open spec fn frame_header_wire(header: FrameHeader) -> Seq<u8> {
    be_bytes(header.length as nat, 3) + seq![byte_of_kind(header.kind), header.flag.spec_bits()]
        + stream_id_wire(header.id)
}

/// The wire form of a frame header has `FRAME_HEADER_BYTES` bytes.
pub proof fn lemma_frame_header_wire_len(header: FrameHeader)
    ensures
        frame_header_wire(header).len() == FRAME_HEADER_BYTES,
{
    lemma_be_bytes_len(header.length as nat, 3);
    lemma_be_bytes_len((header.id.0 % 0x8000_0000) as nat, 4);
}

impl FrameHeader {
    /// Reads a frame header from the first nine bytes of `buf`.
    #[inline]
    pub fn parse(buf: &[u8]) -> (r: Result<FrameHeader, Error>)
        ensures
            r == parse_frame_header(buf@),
    {
        if buf.len() < FRAME_HEADER_BYTES {
            return Err(Error::Short);
        }
        let b0: u8 = buf[0];
        let b1: u8 = buf[1];
        let b2: u8 = buf[2];
        let length: u32 = ((b0 as u32) << 16) | ((b1 as u32) << 8) | (b2 as u32);
        assert(((b0 as u32) << 16) | ((b1 as u32) << 8) | (b2 as u32) == (b0 * 256 + b1) * 256
            + b2) by (bit_vector);
        proof {
            reveal_with_fuel(be_value, 4);
        }
        let flag = match Flag::new(buf[4]) {
            Ok(flag) => flag,
            Err(_) => {
                return Err(Error::BadFlag(buf[4]));
            },
        };
        let tail = vstd::slice::slice_subrange(buf, 5, buf.len());
        proof {
            super::lemma_be_value_prefix(tail@, buf@.skip(5), 4);
        }
        Ok(FrameHeader { length, kind: Kind::new(buf[3]), flag, id: StreamIdentifier::parse(tail) })
    }

    /// Writes the header to the first nine bytes of `buf`.
    #[inline]
    pub fn encode(&self, buf: &mut [u8])
        requires
            old(buf)@.len() >= FRAME_HEADER_BYTES,
        ensures
            final(buf)@ == overwritten(old(buf)@, frame_header_wire(*self)),
    {
        encode_u24(buf, self.length);
        buf[3] = self.kind.encode();
        buf[4] = self.flag.bits();
        let (head, tail) = buf.split_at_mut(5);
        self.id.encode(tail);
        proof {
            lemma_be_bytes_len(self.length as nat, 3);
            lemma_be_bytes_len((self.id.0 % 0x8000_0000) as nat, 4);
            assert(final(buf)@ =~= overwritten(old(buf)@, frame_header_wire(*self)));
        }
    }
}

/// A frame: its header and its payload.
#[derive(Clone, Debug, PartialEq, Eq, Hash)]
pub struct Frame<'a> {
    pub header: FrameHeader,
    pub payload: Payload<'a>,
}

/// What the bytes after a frame header say, given the header.
pub open spec fn parse_frame(header: FrameHeader, buf: Seq<u8>) -> Result<
    (FrameHeader, PayloadView),
    Error,
> {
    match parse_payload(header, buf) {
        Ok(payload) => Ok((header, payload)),
        Err(e) => Err(e),
    }
}

impl<'a> Frame<'a> {
    /// Reads the frame that `header` announces from the bytes after the
    /// header. The frame keeps `header` as it is.
    pub fn parse(header: FrameHeader, buf: &'a [u8]) -> (r: Result<Frame<'a>, Error>)
        ensures
            match r {
                Ok(frame) => parse_frame(header, buf@) == Ok::<(FrameHeader, PayloadView), Error>(
                    (frame.header, frame.payload@),
                ),
                Err(e) => parse_frame(header, buf@) == Err::<(FrameHeader, PayloadView), Error>(e),
            },
    {
        match Payload::parse(header, buf) {
            Ok(payload) => Ok(Frame { header, payload }),
            Err(e) => Err(e),
        }
    }

    /// Writes the header and then the payload to the start of `buf`, and
    /// returns the number of bytes written. The header and the payload's
    /// fields of fixed size need room in `buf`; of the byte range after
    /// them, as much is written as `buf` has room for.
    pub fn encode(&self, buf: &mut [u8]) -> (n: usize)
        requires
            old(buf)@.len() >= FRAME_HEADER_BYTES + payload_fixed_len(self.payload@),
        ensures
            n == FRAME_HEADER_BYTES + filled_len(
                (old(buf)@.len() - FRAME_HEADER_BYTES) as nat,
                payload_wire(self.payload@),
            ),
            final(buf)@ == frame_header_wire(self.header) + filled(
                old(buf)@.skip(FRAME_HEADER_BYTES as int),
                payload_wire(self.payload@),
            ),
    {
        let room: usize = buf.len();
        self.header.encode(buf);
        let (head, rest) = buf.split_at_mut(FRAME_HEADER_BYTES);
        let wrote: usize = self.payload.encode(rest);
        proof {
            lemma_frame_header_wire_len(self.header);
            assert(final(buf)@ =~= frame_header_wire(self.header) + filled(
                old(buf)@.skip(FRAME_HEADER_BYTES as int),
                payload_wire(self.payload@),
            ));
        }
        wrote + FRAME_HEADER_BYTES
    }

    /// The number of bytes of this frame on the wire.
    pub fn encoded_len(&self) -> (n: usize)
        requires
            FRAME_HEADER_BYTES + payload_wire_len(self.payload@) <= usize::MAX,
        ensures
            n == FRAME_HEADER_BYTES + payload_wire_len(self.payload@),
            n == frame_header_wire(self.header).len() + payload_wire(self.payload@).len(),
    {
        proof {
            lemma_frame_header_wire_len(self.header);
            lemma_payload_wire_len(self.payload@);
        }
        FRAME_HEADER_BYTES + self.payload.encoded_len()
    }
}

/// Reading the bytes that a header is written as, whatever follows them,
/// gives the header back: its frame type and flags as they are, its length
/// as far as three bytes hold it, and its stream identifier without the
/// reserved bit.
pub proof fn lemma_frame_header_round_trip(header: FrameHeader, rest: Seq<u8>)
    requires
        valid_flag_bits(header.flag.spec_bits()),
    ensures
        parse_frame_header(frame_header_wire(header) + rest) == Ok::<FrameHeader, Error>(
            FrameHeader {
                length: (header.length % 0x100_0000) as u32,
                kind: header.kind,
                flag: header.flag,
                id: StreamIdentifier((header.id.0 % 0x8000_0000) as u32),
            },
        ),
{
    let wire = frame_header_wire(header) + rest;
    let length = be_bytes(header.length as nat, 3);
    let id = stream_id_wire(header.id);
    lemma_frame_header_wire_len(header);
    lemma_be_bytes_len(header.length as nat, 3);
    lemma_be_bytes_len((header.id.0 % 0x8000_0000) as nat, 4);
    lemma_pow256_values();
    lemma_flag_by_bits(header.flag);
    let after_length = seq![byte_of_kind(header.kind), header.flag.spec_bits()] + id + rest;
    assert(wire =~= length + after_length);
    lemma_be_round_trip(header.length as nat, 3, after_length);
    assert(wire.skip(5) =~= id + rest);
    lemma_be_round_trip((header.id.0 % 0x8000_0000) as nat, 4, rest);
    assert(wire[3] == byte_of_kind(header.kind));
    assert(wire[4] == header.flag.spec_bits());
}

} // verus!
