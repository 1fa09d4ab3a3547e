//! The flag byte of an HTTP/2 frame header.

use vstd::prelude::*;

verus! {

/// Bit of `END_STREAM`, on DATA and HEADERS frames.
pub const END_STREAM: u8 = 0x1;

/// Bit of `ACK`, on SETTINGS and PING frames. It is the bit of `END_STREAM`:
/// which of the two a set bit means depends on the frame type.
pub const ACK: u8 = 0x1;

/// Bit of `END_HEADERS`.
pub const END_HEADERS: u8 = 0x4;

/// Bit of `PADDED`.
pub const PADDED: u8 = 0x8;

/// Bit of `PRIORITY`.
pub const PRIORITY: u8 = 0x20;

/// All the bits that a flag byte may have.
pub const ALL_FLAGS: u8 = 0x2d;

/// A set of frame flags. Only bits of `ALL_FLAGS` are set in it.
#[derive(Copy, Clone, Debug, PartialEq, Eq, Hash, Structural)]
pub struct Flag {
    bits: u8,
}

/// A byte is a flag set when it has no bit outside `ALL_FLAGS`.
pub open spec fn valid_flag_bits(data: u8) -> bool {
    data & !ALL_FLAGS == 0
}

/// The flag set whose byte is `data`.
pub closed spec fn flag_of_bits(data: u8) -> Flag {
    Flag { bits: data }
}

/// The byte of `flag_of_bits(data)` is `data`.
pub proof fn lemma_flag_of_bits(data: u8)
    ensures
        flag_of_bits(data).spec_bits() == data,
{
}

/// A flag set is determined by its byte.
pub proof fn lemma_flag_by_bits(flag: Flag)
    ensures
        flag == flag_of_bits(flag.spec_bits()),
{
}

impl Flag {
    /// The flag byte.
    pub closed spec fn spec_bits(&self) -> u8 {
        self.bits
    }

    /// Whether every bit of `other` is set in `self`.
    pub open spec fn spec_contains(&self, other: Flag) -> bool {
        self.spec_bits() & other.spec_bits() == other.spec_bits()
    }

    #[verifier::type_invariant]
    spec fn well_formed(self) -> bool {
        valid_flag_bits(self.bits)
    }

    /// Reads a flag byte. A byte with a bit outside `ALL_FLAGS` is refused.
    pub fn new(data: u8) -> (r: Result<Flag, ()>)
        ensures
            valid_flag_bits(data) <==> r is Ok,
            r is Ok ==> r->Ok_0 == flag_of_bits(data),
    {
        match Flag::from_bits(data) {
            Some(v) => Ok(v),
            None => Err(()),
        }
    }

    /// Reads a flag byte, or nothing where it has a bit outside `ALL_FLAGS`.
    pub fn from_bits(data: u8) -> (r: Option<Flag>)
        ensures
            valid_flag_bits(data) <==> r is Some,
            r is Some ==> r->Some_0 == flag_of_bits(data),
    {
        if data & !ALL_FLAGS == 0 {
            Some(Flag { bits: data })
        } else {
            None
        }
    }

    /// The flag byte.
    #[verifier::when_used_as_spec(spec_bits)]
    pub fn bits(&self) -> (b: u8)
        ensures
            b == self.spec_bits(),
            valid_flag_bits(b),
    {
        proof {
            use_type_invariant(self);
        }
        self.bits
    }

    /// Whether every bit of `other` is set in `self`.
    #[verifier::when_used_as_spec(spec_contains)]
    pub fn contains(&self, other: Flag) -> (b: bool)
        ensures
            b == self.spec_contains(other),
    {
        self.bits & other.bits == other.bits
    }

    /// The set that holds `ACK` alone.
    pub fn ack() -> (f: Flag)
        ensures
            f == flag_of_bits(ACK),
    {
        assert(valid_flag_bits(ACK)) by (bit_vector);
        Flag { bits: ACK }
    }

    /// The set that holds `END_STREAM` alone.
    pub fn end_stream() -> (f: Flag)
        ensures
            f == flag_of_bits(END_STREAM),
    {
        assert(valid_flag_bits(END_STREAM)) by (bit_vector);
        Flag { bits: END_STREAM }
    }

    /// The set that holds `END_HEADERS` alone.
    pub fn end_headers() -> (f: Flag)
        ensures
            f == flag_of_bits(END_HEADERS),
    {
        assert(valid_flag_bits(END_HEADERS)) by (bit_vector);
        Flag { bits: END_HEADERS }
    }

    /// The set that holds `PADDED` alone.
    pub fn padded() -> (f: Flag)
        ensures
            f == flag_of_bits(PADDED),
    {
        assert(valid_flag_bits(PADDED)) by (bit_vector);
        Flag { bits: PADDED }
    }

    /// The set that holds `PRIORITY` alone.
    pub fn priority() -> (f: Flag)
        ensures
            f == flag_of_bits(PRIORITY),
    {
        assert(valid_flag_bits(PRIORITY)) by (bit_vector);
        Flag { bits: PRIORITY }
    }
}

} // verus!
