//! The registry of HTTP/2 frame types.

use vstd::prelude::*;

verus! {

/// The byte that stands on the wire for a frame type outside the registry.
pub const UNREGISTERED_BYTE: u8 = 255;

/// Frame types of the HTTP/2 registry, and `Unregistered` for every other
/// wire value.
#[derive(Copy, Clone, Debug, PartialEq, Eq, Hash, Structural)]
pub enum Kind {
    Data,
    Headers,
    Priority,
    Reset,
    Settings,
    PushPromise,
    Ping,
    GoAway,
    WindowUpdate,
    Continuation,
    Unregistered,
}

/// The frame type that a wire byte denotes.
pub open spec fn kind_of_byte(byte: u8) -> Kind {
    match byte {
        0 => Kind::Data,
        1 => Kind::Headers,
        2 => Kind::Priority,
        3 => Kind::Reset,
        4 => Kind::Settings,
        5 => Kind::PushPromise,
        6 => Kind::Ping,
        7 => Kind::GoAway,
        8 => Kind::WindowUpdate,
        9 => Kind::Continuation,
        _ => Kind::Unregistered,
    }
}

/// The wire byte of a frame type.
pub open spec fn byte_of_kind(kind: Kind) -> u8 {
    match kind {
        Kind::Data => 0,
        Kind::Headers => 1,
        Kind::Priority => 2,
        Kind::Reset => 3,
        Kind::Settings => 4,
        Kind::PushPromise => 5,
        Kind::Ping => 6,
        Kind::GoAway => 7,
        Kind::WindowUpdate => 8,
        Kind::Continuation => 9,
        Kind::Unregistered => UNREGISTERED_BYTE,
    }
}

impl Kind {
    /// Reads a frame type from its wire byte. Every byte is accepted.
    pub fn new(byte: u8) -> (kind: Kind)
        ensures
            kind == kind_of_byte(byte),
    {
        match byte {
            0 => Kind::Data,
            1 => Kind::Headers,
            2 => Kind::Priority,
            3 => Kind::Reset,
            4 => Kind::Settings,
            5 => Kind::PushPromise,
            6 => Kind::Ping,
            7 => Kind::GoAway,
            8 => Kind::WindowUpdate,
            9 => Kind::Continuation,
            _ => Kind::Unregistered,
        }
    }

    /// The wire byte of this frame type.
    pub fn encode(&self) -> (byte: u8)
        ensures
            byte == byte_of_kind(*self),
    {
        match *self {
            Kind::Data => 0,
            Kind::Headers => 1,
            Kind::Priority => 2,
            Kind::Reset => 3,
            Kind::Settings => 4,
            Kind::PushPromise => 5,
            Kind::Ping => 6,
            Kind::GoAway => 7,
            Kind::WindowUpdate => 8,
            Kind::Continuation => 9,
            Kind::Unregistered => UNREGISTERED_BYTE,
        }
    }
}

/// Reading a byte, writing the frame type back and reading it again gives
/// the same frame type. A registered byte is written back unchanged; every
/// other byte reads as `Unregistered` and is written as
/// `UNREGISTERED_BYTE`.
pub proof fn lemma_kind_round_trip(byte: u8)
    ensures
        kind_of_byte(byte_of_kind(kind_of_byte(byte))) == kind_of_byte(byte),
        byte <= 9 ==> byte_of_kind(kind_of_byte(byte)) == byte,
        byte > 9 ==> kind_of_byte(byte) == Kind::Unregistered && byte_of_kind(kind_of_byte(byte))
            == UNREGISTERED_BYTE,
{
}

/// Every frame type is read back from its own wire byte.
pub proof fn lemma_kind_byte_round_trip(kind: Kind)
    ensures
        kind_of_byte(byte_of_kind(kind)) == kind,
{
}

} // verus!
