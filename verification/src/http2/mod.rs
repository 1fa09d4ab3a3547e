//! Parsing and encoding of HTTP/2 frames.

use byteorder::ByteOrder;
use vstd::prelude::*;

pub mod flag;
pub mod frame;
pub mod kind;
pub mod payload;

verus! {

/// Bytes of a frame header on the wire.
pub const FRAME_HEADER_BYTES: usize = 9;

/// Errors of parsing a frame.
#[derive(Copy, Clone, Debug, PartialEq, Eq, Hash, Structural)]
pub enum Error {
    /// Fewer bytes were passed than the header, or the length it declares,
    /// asks for.
    Short,
    /// The flag byte has a bit that no flag uses.
    BadFlag(u8),
    /// The byte of the frame type is not accepted.
    BadKind(u8),
    /// The padding length is larger than what is left of the payload.
    TooMuchPadding(u8),
    /// The declared payload length is smaller than what the flags and the
    /// frame type ask for.
    PayloadLengthTooShort,
    /// The declared payload length of a SETTINGS frame is no multiple of the
    /// size of one setting.
    PartialSettingLength,
    /// The declared payload length is not the one that the frame type fixes.
    InvalidPayloadLength,
}

/// What the flags of a frame announce in its payload.
#[derive(Copy, Clone, Debug, PartialEq, Eq, Hash, Structural)]
pub struct ParserSettings {
    pub padding: bool,
    pub priority: bool,
}

/// Error codes by name.
pub enum HttpError {
    Protocol,
    Internal,
    FlowControlError,
    SettingsTimeout,
}

/// The number that the first `n` bytes of `s` denote, most significant byte
/// first.
pub open spec fn be_value(s: Seq<u8>, n: nat) -> nat
    decreases n,
{
    if n == 0 {
        0
    } else {
        be_value(s, (n - 1) as nat) * 256 + s[n - 1] as nat
    }
}

/// The `n` lowest bytes of `v`, most significant byte first.
pub open spec fn be_bytes(v: nat, n: nat) -> Seq<u8>
    decreases n,
{
    if n == 0 {
        Seq::empty()
    } else {
        be_bytes(v / 256, (n - 1) as nat).push((v % 256) as u8)
    }
}

/// `s` with its first bytes replaced by `wire`.
pub open spec fn overwritten(s: Seq<u8>, wire: Seq<u8>) -> Seq<u8> {
    wire + s.skip(wire.len() as int)
}

/// Highest value of a stream identifier, and the mask that clears the
/// reserved bit.
pub const STREAM_ID_MASK: u32 = 0x7fff_ffff;

/// `be_bytes` has `n` bytes.
pub proof fn lemma_be_bytes_len(v: nat, n: nat)
    ensures
        be_bytes(v, n).len() == n,
    decreases n,
{
    if n > 0 {
        lemma_be_bytes_len(v / 256, (n - 1) as nat);
    }
}

/// `be_value` reads only the first `n` bytes.
pub proof fn lemma_be_value_prefix(s: Seq<u8>, t: Seq<u8>, n: nat)
    requires
        n <= s.len(),
        n <= t.len(),
        forall|i: int| 0 <= i < n ==> s[i] == t[i],
    ensures
        be_value(s, n) == be_value(t, n),
    decreases n,
{
    if n > 0 {
        lemma_be_value_prefix(s, t, (n - 1) as nat);
    }
}

/// `byteorder::BigEndian::read_u32`: the number in the first four bytes of
/// `buf`, most significant byte first. It panics on a shorter slice, which
/// `requires` leaves out.
#[verifier::external_body]
fn read_u32_be(buf: &[u8]) -> (v: u32)
    requires
        buf@.len() >= 4,
    ensures
        v == be_value(buf@, 4),
{
    byteorder::BigEndian::read_u32(buf)
}

/// `byteorder::BigEndian::read_u64`: the number in the first eight bytes of
/// `buf`, most significant byte first. It panics on a shorter slice, which
/// `requires` leaves out.
#[verifier::external_body]
fn read_u64_be(buf: &[u8]) -> (v: u64)
    requires
        buf@.len() >= 8,
    ensures
        v == be_value(buf@, 8),
{
    byteorder::BigEndian::read_u64(buf)
}

/// `byteorder::BigEndian::read_u16`: the number in the first two bytes of
/// `buf`, most significant byte first. It panics on a shorter slice, which
/// `requires` leaves out.
#[verifier::external_body]
fn read_u16_be(buf: &[u8]) -> (v: u16)
    requires
        buf@.len() >= 2,
    ensures
        v == be_value(buf@, 2),
{
    byteorder::BigEndian::read_u16(buf)
}

/// `byteorder::BigEndian::write_u32`: puts the four bytes of `val`, most
/// significant first, at the start of `buf` and leaves the rest as it was.
/// It panics on a shorter slice, which `requires` leaves out.
#[verifier::external_body]
fn write_u32_be(buf: &mut [u8], val: u32)
    requires
        old(buf)@.len() >= 4,
    ensures
        final(buf)@ == overwritten(old(buf)@, be_bytes(val as nat, 4)),
{
    byteorder::BigEndian::write_u32(buf, val)
}

/// `byteorder::BigEndian::write_u64`: puts the eight bytes of `val`, most
/// significant first, at the start of `buf` and leaves the rest as it was.
/// It panics on a shorter slice, which `requires` leaves out.
#[verifier::external_body]
fn write_u64_be(buf: &mut [u8], val: u64)
    requires
        old(buf)@.len() >= 8,
    ensures
        final(buf)@ == overwritten(old(buf)@, be_bytes(val as nat, 8)),
{
    byteorder::BigEndian::write_u64(buf, val)
}

/// The identifier of a stream: 31 bits. The reserved bit above them is
/// cleared when one is read and when one is written.
#[derive(Copy, Clone, Debug, PartialEq, Eq, Hash, Structural)]
pub struct StreamIdentifier(pub u32);

/// The stream identifier in the first four bytes of `s`.
pub open spec fn stream_id_of(s: Seq<u8>) -> StreamIdentifier {
    StreamIdentifier((be_value(s, 4) % 0x8000_0000) as u32)
}

/// The four bytes of a stream identifier.
pub open spec fn stream_id_wire(id: StreamIdentifier) -> Seq<u8> {
    be_bytes((id.0 % 0x8000_0000) as nat, 4)
}

impl StreamIdentifier {
    /// Reads an identifier from the first four bytes of `buf`, without the
    /// reserved bit.
    pub fn parse(buf: &[u8]) -> (id: StreamIdentifier)
        requires
            buf@.len() >= 4,
        ensures
            id == stream_id_of(buf@),
    {
        let raw: u32 = read_u32_be(buf);
        assert(raw & 0x7fff_ffff == raw % 0x8000_0000) by (bit_vector);
        StreamIdentifier(raw & STREAM_ID_MASK)
    }

    /// Writes the identifier to the first four bytes of `buf`, without the
    /// reserved bit, and returns the number of bytes written.
    pub fn encode(&self, buf: &mut [u8]) -> (n: usize)
        requires
            old(buf)@.len() >= 4,
        ensures
            n == 4,
            final(buf)@ == overwritten(old(buf)@, stream_id_wire(*self)),
    {
        let raw: u32 = self.0;
        assert(raw & 0x7fff_ffff == raw % 0x8000_0000) by (bit_vector);
        encode_u32(buf, raw & STREAM_ID_MASK)
    }
}

/// The code of an error, as RST_STREAM and GOAWAY carry it.
#[derive(Copy, Clone, Debug, PartialEq, Eq, Hash, Structural)]
pub struct ErrorCode(pub u32);

impl ErrorCode {
    /// Reads an error code from the first four bytes of `buf`.
    pub fn parse(buf: &[u8]) -> (code: ErrorCode)
        requires
            buf@.len() >= 4,
        ensures
            code.0 == be_value(buf@, 4),
    {
        ErrorCode(read_u32_be(buf))
    }

    /// Writes the error code to the first four bytes of `buf` and returns
    /// the number of bytes written.
    pub fn encode(&self, buf: &mut [u8]) -> (n: usize)
        requires
            old(buf)@.len() >= 4,
        ensures
            n == 4,
            final(buf)@ == overwritten(old(buf)@, be_bytes(self.0 as nat, 4)),
    {
        encode_u32(buf, self.0)
    }
}

/// The increment of a flow-control window: 31 bits when read.
#[derive(Copy, Clone, Debug, PartialEq, Eq, Hash, Structural)]
pub struct SizeIncrement(pub u32);

impl SizeIncrement {
    /// Reads an increment from the first four bytes of `buf`, without the
    /// reserved bit.
    pub fn parse(buf: &[u8]) -> (inc: SizeIncrement)
        requires
            buf@.len() >= 4,
        ensures
            inc.0 == be_value(buf@, 4) % 0x8000_0000,
    {
        let raw: u32 = read_u32_be(buf);
        assert(raw & 0x7fff_ffff == raw % 0x8000_0000) by (bit_vector);
        SizeIncrement(raw & STREAM_ID_MASK)
    }

    /// Writes the increment to the first four bytes of `buf` and returns the
    /// number of bytes written.
    pub fn encode(&self, buf: &mut [u8]) -> (n: usize)
        requires
            old(buf)@.len() >= 4,
        ensures
            n == 4,
            final(buf)@ == overwritten(old(buf)@, be_bytes(self.0 as nat, 4)),
    {
        encode_u32(buf, self.0)
    }
}

/// Writes the three lowest bytes of `val`, most significant first, to the
/// start of `buf` and returns the number of bytes written.
#[inline(always)]
pub fn encode_u24(buf: &mut [u8], val: u32) -> (n: usize)
    requires
        old(buf)@.len() >= 3,
    ensures
        n == 3,
        final(buf)@ == overwritten(old(buf)@, be_bytes(val as nat, 3)),
{
    assert((val >> 16) as u8 == (val / 0x1_0000) % 256) by (bit_vector);
    assert((val >> 8) as u8 == (val / 0x100) % 256) by (bit_vector);
    assert(val as u8 == val % 256) by (bit_vector);
    buf[0] = #[verifier::truncate] ((val >> 16) as u8);
    buf[1] = #[verifier::truncate] ((val >> 8) as u8);
    buf[2] = #[verifier::truncate] (val as u8);
    proof {
        reveal_with_fuel(be_bytes, 4);
        assert(final(buf)@ =~= overwritten(old(buf)@, be_bytes(val as nat, 3)));
    }
    3
}

/// Writes the four bytes of `val`, most significant first, to the start of
/// `buf` and returns the number of bytes written.
#[inline(always)]
pub fn encode_u32(buf: &mut [u8], val: u32) -> (n: usize)
    requires
        old(buf)@.len() >= 4,
    ensures
        n == 4,
        final(buf)@ == overwritten(old(buf)@, be_bytes(val as nat, 4)),
{
    write_u32_be(buf, val);
    4
}

/// Writes the eight bytes of `val`, most significant first, to the start of
/// `buf` and returns the number of bytes written.
#[inline(always)]
pub fn encode_u64(buf: &mut [u8], val: u64) -> (n: usize)
    requires
        old(buf)@.len() >= 8,
    ensures
        n == 8,
        final(buf)@ == overwritten(old(buf)@, be_bytes(val as nat, 8)),
{
    write_u64_be(buf, val);
    8
}

/// The number of values that `n` bytes can hold.
pub open spec fn pow256(n: nat) -> nat
    decreases n,
{
    if n == 0 {
        1
    } else {
        256 * pow256((n - 1) as nat)
    }
}

/// Reading back the `n` bytes of `v`, with whatever follows them, gives
/// `v` as far as `n` bytes hold it.
pub proof fn lemma_be_round_trip(v: nat, n: nat, rest: Seq<u8>)
    ensures
        be_value(be_bytes(v, n) + rest, n) == v % pow256(n),
        pow256(n) > 0,
    decreases n,
{
    if n > 0 {
        let m = (n - 1) as nat;
        let whole = be_bytes(v, n) + rest;
        let head = be_bytes(v / 256, m);
        lemma_be_bytes_len(v / 256, m);
        lemma_be_bytes_len(v, n);
        lemma_be_round_trip(v / 256, m, Seq::empty());
        lemma_be_value_prefix(whole, head + Seq::<u8>::empty(), m);
        assert(whole[n - 1] == (v % 256) as u8);
        let p = pow256(m) as int;
        let q = (v / 256) as int;
        let r = (v % 256) as int;
        let a = q / p;
        let b = q % p;
        vstd::arithmetic::div_mod::lemma_fundamental_div_mod(q, p);
        assert(0 <= b < p);
        assert(v == a * (256 * p) + (b * 256 + r)) by (nonlinear_arith)
            requires
                v == 256 * q + r,
                q == p * a + b,
        ;
        assert(b * 256 + r < 256 * p) by (nonlinear_arith)
            requires
                0 <= b < p,
                0 <= r < 256,
        ;
        vstd::arithmetic::div_mod::lemma_fundamental_div_mod_converse(
            v as int,
            256 * p,
            a,
            b * 256 + r,
        );
    }
}

/// The numbers of values that two, three, four and eight bytes can hold.
pub proof fn lemma_pow256_values()
    ensures
        pow256(2) == 0x1_0000,
        pow256(3) == 0x100_0000,
        pow256(4) == 0x1_0000_0000,
        pow256(8) == 0x1_0000_0000_0000_0000,
{
    reveal_with_fuel(pow256, 9);
}

} // verus!
