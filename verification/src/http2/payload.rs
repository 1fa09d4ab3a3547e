//! The payload of a frame, by frame type.

use super::flag::{Flag, PADDED, PRIORITY};
use super::frame::FrameHeader;
use super::kind::Kind;
use super::{
    be_bytes, be_value, encode_u32, encode_u64, lemma_be_bytes_len, lemma_be_round_trip,
    lemma_pow256_values, overwritten, read_u16_be, read_u32_be, read_u64_be, stream_id_of, stream_id_wire, Error,
    ErrorCode, ParserSettings, SizeIncrement, StreamIdentifier, STREAM_ID_MASK,
};
use vstd::prelude::*;
use vstd::slice::slice_subrange;

verus! {

/// Bytes of a priority block on the wire.
pub const PRIORITY_BYTES: u32 = 5;

/// Bytes of the pad length on the wire.
pub const PADDING_BYTES: u32 = 1;

/// The priority block of a HEADERS or PRIORITY frame.
#[derive(Copy, Clone, Debug, PartialEq, Eq, Hash, Structural)]
pub struct Priority {
    /// The highest bit of the dependency field.
    pub exclusive: bool,
    pub dependency: StreamIdentifier,
    pub weight: u8,
}

/// One entry of a SETTINGS frame.
#[derive(Copy, Clone, Debug, PartialEq, Eq, Hash, Structural)]
pub struct Setting {
    pub identifier: u16,
    pub value: u32,
}

/// The identifiers of the settings registry.
#[derive(Copy, Clone, Debug, PartialEq, Eq, Hash, Structural)]
pub enum SettingIdentifier {
    HeaderTableSize,
    EnablePush,
    MaxConcurrentStreams,
    InitialWindowSize,
    MaxFrameSize,
}

/// The payload of a frame. Byte ranges borrow from the buffer that was
/// parsed.
#[derive(Clone, Debug, PartialEq, Eq, Hash)]
pub enum Payload<'a> {
    Data { data: &'a [u8] },
    Headers { priority: Option<Priority>, block: &'a [u8] },
    Priority(Priority),
    Reset(ErrorCode),
    Settings(Vec<Setting>),
    PushPromise { promised: StreamIdentifier, block: &'a [u8] },
    Ping(u64),
    GoAway { last: StreamIdentifier, error: ErrorCode, data: &'a [u8] },
    WindowUpdate(SizeIncrement),
    Continuation(&'a [u8]),
    Unregistered(&'a [u8]),
}

/// A payload as a value: byte ranges are sequences.
pub enum PayloadView {
    Data { data: Seq<u8> },
    Headers { priority: Option<Priority>, block: Seq<u8> },
    Priority(Priority),
    Reset(ErrorCode),
    Settings(Seq<Setting>),
    PushPromise { promised: StreamIdentifier, block: Seq<u8> },
    Ping(u64),
    GoAway { last: StreamIdentifier, error: ErrorCode, data: Seq<u8> },
    WindowUpdate(SizeIncrement),
    Continuation(Seq<u8>),
    Unregistered(Seq<u8>),
}

impl<'a> View for Payload<'a> {
    type V = PayloadView;

    open spec fn view(&self) -> PayloadView {
        match *self {
            Payload::Data { data } => PayloadView::Data { data: data@ },
            Payload::Headers { priority, block } => PayloadView::Headers {
                priority,
                block: block@,
            },
            Payload::Priority(priority) => PayloadView::Priority(priority),
            Payload::Reset(code) => PayloadView::Reset(code),
            Payload::Settings(settings) => PayloadView::Settings(settings@),
            Payload::PushPromise { promised, block } => PayloadView::PushPromise {
                promised,
                block: block@,
            },
            Payload::Ping(data) => PayloadView::Ping(data),
            Payload::GoAway { last, error, data } => PayloadView::GoAway {
                last,
                error,
                data: data@,
            },
            Payload::WindowUpdate(increment) => PayloadView::WindowUpdate(increment),
            Payload::Continuation(block) => PayloadView::Continuation(block@),
            Payload::Unregistered(block) => PayloadView::Unregistered(block@),
        }
    }
}

/// What the flags announce in the payload.
pub open spec fn parser_settings(flag: Flag) -> ParserSettings {
    ParserSettings {
        padding: flag.spec_bits() & PADDED == PADDED,
        priority: flag.spec_bits() & PRIORITY == PRIORITY,
    }
}

/// The least payload length that the flags allow: five bytes for a priority
/// block and one for the pad length.
pub open spec fn min_payload_length(settings: ParserSettings) -> nat {
    (if settings.priority {
        5nat
    } else {
        0nat
    }) + (if settings.padding {
        1nat
    } else {
        0nat
    })
}

/// A payload without its padding: where `padding` is set, without its first
/// byte, the pad length, and without that many bytes at its end.
pub open spec fn trimmed_padding(padding: bool, body: Seq<u8>) -> Result<Seq<u8>, Error> {
    if !padding {
        Ok(body)
    } else if body[0] > body.len() - 1 {
        Err(Error::TooMuchPadding(body[0]))
    } else {
        Ok(body.subrange(1, body.len() - body[0]))
    }
}

/// The priority block in the first five bytes of `s`.
pub open spec fn priority_of(s: Seq<u8>) -> Priority {
    Priority { exclusive: s[0] >= 0x80, dependency: stream_id_of(s), weight: s[4] }
}

/// A priority block read from the start of `body` where one is present, and
/// the bytes after it.
pub open spec fn parsed_priority(present: bool, body: Seq<u8>) -> Result<
    (Seq<u8>, Option<Priority>),
    Error,
> {
    if !present {
        Ok((body, None))
    } else if body.len() < PRIORITY_BYTES {
        Err(Error::PayloadLengthTooShort)
    } else {
        Ok((body.skip(PRIORITY_BYTES as int), Some(priority_of(body))))
    }
}

/// The five bytes of a priority block: the dependency with the exclusive
/// bit above it, then the weight.
pub open spec fn priority_wire(priority: Priority) -> Seq<u8> {
    be_bytes(
        (priority.dependency.0 % 0x8000_0000 + if priority.exclusive {
            0x8000_0000int
        } else {
            0int
        }) as nat,
        4,
    ).push(priority.weight)
}

/// The setting in the first six bytes of `s`.
pub open spec fn setting_of(s: Seq<u8>) -> Setting {
    Setting { identifier: be_value(s, 2) as u16, value: be_value(s.skip(2), 4) as u32 }
}

/// The settings that `body` holds, six bytes each. Bytes after the last
/// whole setting are left out.
pub open spec fn settings_of(body: Seq<u8>) -> Seq<Setting> {
    Seq::new(
        body.len() / 6,
        |i: int| setting_of(body.subrange(6 * i, 6 * i + 6)),
    )
}

/// The six bytes of a setting.
pub open spec fn setting_wire(setting: Setting) -> Seq<u8> {
    be_bytes(setting.identifier as nat, 2) + be_bytes(setting.value as nat, 4)
}

/// The bytes of a list of settings, one after the other.
pub open spec fn settings_wire(settings: Seq<Setting>) -> Seq<u8>
    decreases settings.len(),
{
    if settings.len() == 0 {
        Seq::empty()
    } else {
        settings_wire(settings.drop_last()) + setting_wire(settings.last())
    }
}

/// The registry entry of a setting's identifier, if it has one.
pub open spec fn setting_identifier(identifier: u16) -> Option<SettingIdentifier> {
    match identifier {
        0x1 => Some(SettingIdentifier::HeaderTableSize),
        0x2 => Some(SettingIdentifier::EnablePush),
        0x3 => Some(SettingIdentifier::MaxConcurrentStreams),
        0x4 => Some(SettingIdentifier::InitialWindowSize),
        0x5 => Some(SettingIdentifier::MaxFrameSize),
        _ => None,
    }
}

/// The number of a registry entry.
pub open spec fn setting_identifier_number(identifier: SettingIdentifier) -> u16 {
    match identifier {
        SettingIdentifier::HeaderTableSize => 0x1,
        SettingIdentifier::EnablePush => 0x2,
        SettingIdentifier::MaxConcurrentStreams => 0x3,
        SettingIdentifier::InitialWindowSize => 0x4,
        SettingIdentifier::MaxFrameSize => 0x5,
    }
}

/// What a payload of the given frame type says, where `body` is exactly the
/// declared length and not below what the flags ask for.
pub open spec fn parse_body(kind: Kind, settings: ParserSettings, body: Seq<u8>) -> Result<
    PayloadView,
    Error,
> {
    match kind {
        Kind::Data => match trimmed_padding(settings.padding, body) {
            Ok(data) => Ok(PayloadView::Data { data }),
            Err(e) => Err(e),
        },
        Kind::Headers => match trimmed_padding(settings.padding, body) {
            Ok(rest) => match parsed_priority(settings.priority, rest) {
                Ok((block, priority)) => Ok(PayloadView::Headers { priority, block }),
                Err(e) => Err(e),
            },
            Err(e) => Err(e),
        },
        Kind::Priority => match parsed_priority(true, body) {
            Ok((_, priority)) => Ok(PayloadView::Priority(priority->Some_0)),
            Err(e) => Err(e),
        },
        Kind::Reset => if body.len() < 4 {
            Err(Error::PayloadLengthTooShort)
        } else {
            Ok(PayloadView::Reset(ErrorCode(be_value(body, 4) as u32)))
        },
        Kind::Settings => if body.len() % 6 != 0 {
            Err(Error::PartialSettingLength)
        } else {
            Ok(PayloadView::Settings(settings_of(body)))
        },
        Kind::PushPromise => match trimmed_padding(settings.padding, body) {
            Ok(rest) => if rest.len() < 4 {
                Err(Error::PayloadLengthTooShort)
            } else {
                Ok(PayloadView::PushPromise { promised: stream_id_of(rest), block: rest.skip(4) })
            },
            Err(e) => Err(e),
        },
        Kind::Ping => if body.len() != 8 {
            Err(Error::InvalidPayloadLength)
        } else {
            Ok(PayloadView::Ping(be_value(body, 8) as u64))
        },
        Kind::GoAway => if body.len() < 8 {
            Err(Error::PayloadLengthTooShort)
        } else {
            Ok(
                PayloadView::GoAway {
                    last: stream_id_of(body),
                    error: ErrorCode(be_value(body.skip(4), 4) as u32),
                    data: body.skip(8),
                },
            )
        },
        Kind::WindowUpdate => if body.len() != 4 {
            Err(Error::InvalidPayloadLength)
        } else {
            Ok(PayloadView::WindowUpdate(SizeIncrement((be_value(body, 4) % 0x8000_0000) as u32)))
        },
        Kind::Continuation => Ok(PayloadView::Continuation(body)),
        Kind::Unregistered => Ok(PayloadView::Unregistered(body)),
    }
}

/// What the bytes after a frame header say, given the header: `Short` where
/// fewer bytes are there than the header declares, `PayloadLengthTooShort`
/// where it declares fewer than its flags ask for, else what the first
/// `header.length` bytes say for the frame type.
pub open spec fn parse_payload(header: FrameHeader, buf: Seq<u8>) -> Result<PayloadView, Error> {
    let settings = parser_settings(header.flag);
    if buf.len() < header.length {
        Err(Error::Short)
    } else if header.length < min_payload_length(settings) {
        Err(Error::PayloadLengthTooShort)
    } else {
        parse_body(header.kind, settings, buf.take(header.length as int))
    }
}

/// Whether an executable result says what a result over sequences says.
pub open spec fn payload_result_is(
    r: Result<Payload<'_>, Error>,
    expected: Result<PayloadView, Error>,
) -> bool {
    match r {
        Ok(payload) => expected == Ok::<PayloadView, Error>(payload@),
        Err(e) => expected == Err::<PayloadView, Error>(e),
    }
}

/// The bytes of a payload on the wire.
pub open spec fn payload_wire(payload: PayloadView) -> Seq<u8> {
    match payload {
        PayloadView::Data { data } => data,
        PayloadView::Headers { priority, block } => match priority {
            Some(p) => priority_wire(p) + block,
            None => block,
        },
        PayloadView::Priority(priority) => priority_wire(priority),
        PayloadView::Reset(code) => be_bytes(code.0 as nat, 4),
        PayloadView::Settings(settings) => settings_wire(settings),
        PayloadView::PushPromise { promised, block } => stream_id_wire(promised) + block,
        PayloadView::Ping(data) => be_bytes(data as nat, 8),
        PayloadView::GoAway { last, error, data } => stream_id_wire(last) + be_bytes(
            error.0 as nat,
            4,
        ) + data,
        PayloadView::WindowUpdate(increment) => be_bytes(increment.0 as nat, 4),
        PayloadView::Continuation(block) => block,
        PayloadView::Unregistered(block) => block,
    }
}

/// The number of bytes of a payload on the wire.
pub open spec fn payload_wire_len(payload: PayloadView) -> nat {
    match payload {
        PayloadView::Data { data } => data.len(),
        PayloadView::Headers { priority, block } => (if priority is Some {
            5nat
        } else {
            0nat
        }) + block.len(),
        PayloadView::Priority(_) => 5,
        PayloadView::Reset(_) => 4,
        PayloadView::Settings(settings) => settings.len() * 6,
        PayloadView::PushPromise { block, .. } => 4 + block.len(),
        PayloadView::Ping(_) => 8,
        PayloadView::GoAway { data, .. } => 4 + 4 + data.len(),
        PayloadView::WindowUpdate(_) => 4,
        PayloadView::Continuation(block) => block.len(),
        PayloadView::Unregistered(block) => block.len(),
    }
}

/// The bytes at the start of a payload's wire form that are written whole:
/// its fields of fixed size. The byte range after them is written as far as
/// the buffer has room.
pub open spec fn payload_fixed_len(payload: PayloadView) -> nat {
    match payload {
        PayloadView::Data { .. } => 0,
        PayloadView::Headers { priority, .. } => if priority is Some {
            5
        } else {
            0
        },
        PayloadView::Priority(_) => 5,
        PayloadView::Reset(_) => 4,
        PayloadView::Settings(_) => 0,
        PayloadView::PushPromise { .. } => 4,
        PayloadView::Ping(_) => 8,
        PayloadView::GoAway { .. } => 8,
        PayloadView::WindowUpdate(_) => 4,
        PayloadView::Continuation(_) => 0,
        PayloadView::Unregistered(_) => 0,
    }
}

/// `s` with its start replaced by as much of `wire` as it has room for.
pub open spec fn filled(s: Seq<u8>, wire: Seq<u8>) -> Seq<u8> {
    if wire.len() <= s.len() {
        wire + s.skip(wire.len() as int)
    } else {
        wire.take(s.len() as int)
    }
}

/// The number of bytes of `wire` that a buffer of `room` bytes takes.
pub open spec fn filled_len(room: nat, wire: Seq<u8>) -> nat {
    if wire.len() <= room {
        wire.len()
    } else {
        room
    }
}

/// The wire form of a list of settings has six bytes for each.
pub proof fn lemma_settings_wire_len(settings: Seq<Setting>)
    ensures
        settings_wire(settings).len() == settings.len() * 6,
    decreases settings.len(),
{
    if settings.len() > 0 {
        lemma_settings_wire_len(settings.drop_last());
        lemma_be_bytes_len(settings.last().identifier as nat, 2);
        lemma_be_bytes_len(settings.last().value as nat, 4);
    }
}

/// `payload_wire_len` is the length of `payload_wire`.
pub proof fn lemma_payload_wire_len(payload: PayloadView)
    ensures
        payload_wire(payload).len() == payload_wire_len(payload),
        payload_fixed_len(payload) <= payload_wire_len(payload),
{
    match payload {
        PayloadView::Headers { priority, block } => {
            if let Some(p) = priority {
                lemma_priority_wire_len(p);
            }
        },
        PayloadView::Priority(p) => {
            lemma_priority_wire_len(p);
        },
        PayloadView::Reset(code) => {
            lemma_be_bytes_len(code.0 as nat, 4);
        },
        PayloadView::Settings(settings) => {
            lemma_settings_wire_len(settings);
        },
        PayloadView::PushPromise { promised, block } => {
            lemma_be_bytes_len((promised.0 % 0x8000_0000) as nat, 4);
        },
        PayloadView::Ping(data) => {
            lemma_be_bytes_len(data as nat, 8);
        },
        PayloadView::GoAway { last, error, data } => {
            lemma_be_bytes_len((last.0 % 0x8000_0000) as nat, 4);
            lemma_be_bytes_len(error.0 as nat, 4);
        },
        PayloadView::WindowUpdate(increment) => {
            lemma_be_bytes_len(increment.0 as nat, 4);
        },
        _ => {},
    }
}

/// The wire form of a priority block has five bytes.
pub proof fn lemma_priority_wire_len(priority: Priority)
    ensures
        priority_wire(priority).len() == PRIORITY_BYTES,
{
    lemma_be_bytes_len(
        (priority.dependency.0 % 0x8000_0000 + if priority.exclusive {
            0x8000_0000int
        } else {
            0int
        }) as nat,
        4,
    );
}

impl Priority {
    /// Reads a priority block from the start of `buf` where `present` says
    /// that there is one, and returns it with the bytes after it. A present
    /// block that `buf` is too short for gives `PayloadLengthTooShort`.
    #[inline]
    pub fn parse(present: bool, buf: &[u8]) -> (r: Result<(&[u8], Option<Priority>), Error>)
        ensures
            match r {
                Ok((rest, priority)) => parsed_priority(present, buf@) == Ok::<
                    (Seq<u8>, Option<Priority>),
                    Error,
                >((rest@, priority)),
                Err(e) => parsed_priority(present, buf@) == Err::<
                    (Seq<u8>, Option<Priority>),
                    Error,
                >(e),
            },
    {
        if present {
            if buf.len() < PRIORITY_BYTES as usize {
                return Err(Error::PayloadLengthTooShort);
            }
            let first: u8 = buf[0];
            assert((first & 0x7f != first) == (first >= 0x80)) by (bit_vector);
            Ok(
                (
                    slice_subrange(buf, PRIORITY_BYTES as usize, buf.len()),
                    Some(
                        Priority {
                            exclusive: first & 0x7F != first,
                            dependency: StreamIdentifier::parse(buf),
                            weight: buf[4],
                        },
                    ),
                ),
            )
        } else {
            Ok((buf, None))
        }
    }

    /// Writes the priority block to the first five bytes of `buf` and
    /// returns the number of bytes written.
    #[inline]
    pub fn encode(&self, buf: &mut [u8]) -> (n: usize)
        requires
            old(buf)@.len() >= PRIORITY_BYTES,
        ensures
            n == PRIORITY_BYTES,
            final(buf)@ == overwritten(old(buf)@, priority_wire(*self)),
    {
        let id: u32 = self.dependency.0;
        let mut dependency: u32 = id & STREAM_ID_MASK;
        assert(id & 0x7fff_ffff == id % 0x8000_0000) by (bit_vector);
        if self.exclusive {
            assert((id & 0x7fff_ffff) | 0x8000_0000 == (id & 0x7fff_ffff) + 0x8000_0000)
                by (bit_vector);
            dependency = dependency | 0x8000_0000;
        }
        encode_u32(buf, dependency);
        buf[PRIORITY_BYTES as usize - 1] = self.weight;
        proof {
            lemma_be_bytes_len(dependency as nat, 4);
            assert(final(buf)@ =~= overwritten(old(buf)@, priority_wire(*self)));
        }
        PRIORITY_BYTES as usize
    }
}

impl Setting {
    /// A setting of the registry.
    #[inline]
    pub fn new(identifier: SettingIdentifier, value: u32) -> (setting: Setting)
        ensures
            setting == (Setting { identifier: setting_identifier_number(identifier), value }),
    {
        let number: u16 = match identifier {
            SettingIdentifier::HeaderTableSize => 0x1,
            SettingIdentifier::EnablePush => 0x2,
            SettingIdentifier::MaxConcurrentStreams => 0x3,
            SettingIdentifier::InitialWindowSize => 0x4,
            SettingIdentifier::MaxFrameSize => 0x5,
        };
        Setting { identifier: number, value }
    }

    /// The registry entry of the identifier, or nothing for an identifier
    /// that the registry does not hold.
    #[inline]
    pub fn identifier(&self) -> (r: Option<SettingIdentifier>)
        ensures
            r == setting_identifier(self.identifier),
    {
        match self.identifier {
            0x1 => Some(SettingIdentifier::HeaderTableSize),
            0x2 => Some(SettingIdentifier::EnablePush),
            0x3 => Some(SettingIdentifier::MaxConcurrentStreams),
            0x4 => Some(SettingIdentifier::InitialWindowSize),
            0x5 => Some(SettingIdentifier::MaxFrameSize),
            _ => None,
        }
    }

    /// The value of the setting.
    #[inline]
    pub fn value(&self) -> (v: u32)
        ensures
            v == self.value,
    {
        self.value
    }

    /// The wire bytes of a list of settings.
    #[inline]
    pub fn to_bytes(settings: &[Setting]) -> (bytes: Vec<u8>)
        ensures
            bytes@ == settings_wire(settings@),
    {
        let mut bytes: Vec<u8> = Vec::new();
        let mut i: usize = 0;
        while i < settings.len()
            invariant
                i <= settings.len(),
                bytes@ == settings_wire(settings@.take(i as int)),
            decreases settings.len() - i,
        {
            let identifier: u16 = settings[i].identifier;
            let value: u32 = settings[i].value;
            assert((identifier >> 8) as u8 == (identifier / 0x100) % 256) by (bit_vector);
            assert(identifier as u8 == identifier % 256) by (bit_vector);
            assert((value >> 24) as u8 == (value / 0x100_0000) % 256) by (bit_vector);
            assert((value >> 16) as u8 == (value / 0x1_0000) % 256) by (bit_vector);
            assert((value >> 8) as u8 == (value / 0x100) % 256) by (bit_vector);
            assert(value as u8 == value % 256) by (bit_vector);
            let ghost before = bytes@;
            bytes.push(#[verifier::truncate] ((identifier >> 8) as u8));
            bytes.push(#[verifier::truncate] (identifier as u8));
            bytes.push(#[verifier::truncate] ((value >> 24) as u8));
            bytes.push(#[verifier::truncate] ((value >> 16) as u8));
            bytes.push(#[verifier::truncate] ((value >> 8) as u8));
            bytes.push(#[verifier::truncate] (value as u8));
            proof {
                reveal_with_fuel(be_bytes, 5);
                let next = settings@.take(i + 1);
                assert(next.drop_last() =~= settings@.take(i as int));
                assert(next.last() == settings@[i as int]);
                assert(bytes@ =~= before + setting_wire(settings@[i as int]));
            }
            i += 1;
        }
        proof {
            assert(settings@.take(i as int) =~= settings@);
        }
        bytes
    }

    /// The settings that `bytes` holds, six bytes each. Bytes after the last
    /// whole setting are left out.
    #[inline]
    pub fn from_bytes(bytes: &[u8]) -> (settings: Vec<Setting>)
        ensures
            settings@ == settings_of(bytes@),
    {
        let len: usize = bytes.len();
        let count: usize = len / 6;
        let mut settings: Vec<Setting> = Vec::new();
        let mut i: usize = 0;
        while i < count
            invariant
                i <= count,
                len == bytes@.len(),
                count == len / 6,
                settings@.len() == i,
                forall|k: int|
                    0 <= k < i ==> settings@[k] == setting_of(
                        #[trigger] bytes@.subrange(
                            6 * k,
                            6 * k + 6,
                        ),
                    ),
            decreases count - i,
        {
            let entry = slice_subrange(bytes, 6 * i, 6 * i + 6);
            let value_bytes = slice_subrange(entry, 2, 6);
            let identifier: u16 = read_u16_be(entry);
            let value: u32 = read_u32_be(value_bytes);
            proof {
                assert(value_bytes@ =~= entry@.skip(2));
            }
            settings.push(Setting { identifier, value });
            i += 1;
        }
        proof {
            assert(settings@ =~= settings_of(bytes@));
        }
        settings
    }
}

/// Removes the padding of a payload whose flags announce one: its first
/// byte, the pad length, and that many bytes at its end.
#[inline]
fn trim_padding<'a>(settings: ParserSettings, header: FrameHeader, buf: &'a [u8]) -> (r: Result<
    &'a [u8],
    Error,
>)
    requires
        buf@.len() == header.length,
        settings.padding ==> header.length >= 1,
    ensures
        match r {
            Ok(rest) => trimmed_padding(settings.padding, buf@) == Ok::<Seq<u8>, Error>(rest@),
            Err(e) => trimmed_padding(settings.padding, buf@) == Err::<Seq<u8>, Error>(e),
        },
{
    if settings.padding {
        let pad_length: u8 = buf[0];
        if pad_length as u32 > header.length - PADDING_BYTES {
            Err(Error::TooMuchPadding(pad_length))
        } else {
            Ok(slice_subrange(buf, 1, header.length as usize - pad_length as usize))
        }
    } else {
        Ok(buf)
    }
}

/// Copies to the start of `dst` as much of `src` as it has room for, and
/// returns the number of bytes copied.
#[inline]
fn encode_memory(src: &[u8], dst: &mut [u8]) -> (n: usize)
    ensures
        n == filled_len(old(dst)@.len(), src@),
        final(dst)@ == filled(old(dst)@, src@),
{
    let n: usize = if src.len() < dst.len() {
        src.len()
    } else {
        dst.len()
    };
    let mut i: usize = 0;
    while i < n
        invariant
            i <= n,
            n <= src@.len(),
            n <= dst@.len(),
            dst@.len() == old(dst)@.len(),
            forall|k: int| 0 <= k < i ==> dst@[k] == src@[k],
            forall|k: int| i <= k < dst@.len() ==> dst@[k] == old(dst)@[k],
        decreases n - i,
    {
        dst[i] = src[i];
        i += 1;
    }
    proof {
        assert(dst@ =~= filled(old(dst)@, src@));
    }
    n
}

/// The frame type of a payload.
pub open spec fn payload_kind(payload: PayloadView) -> Kind {
    match payload {
        PayloadView::Data { .. } => Kind::Data,
        PayloadView::Headers { .. } => Kind::Headers,
        PayloadView::Priority(..) => Kind::Priority,
        PayloadView::Reset(..) => Kind::Reset,
        PayloadView::Settings(..) => Kind::Settings,
        PayloadView::PushPromise { .. } => Kind::PushPromise,
        PayloadView::Ping(..) => Kind::Ping,
        PayloadView::GoAway { .. } => Kind::GoAway,
        PayloadView::WindowUpdate(_) => Kind::WindowUpdate,
        PayloadView::Continuation(_) => Kind::Continuation,
        PayloadView::Unregistered(_) => Kind::Unregistered,
    }
}

/// The priority block of a payload, which a PRIORITY frame has and a HEADERS
/// frame may have.
pub open spec fn payload_priority(payload: PayloadView) -> Option<Priority> {
    match payload {
        PayloadView::Priority(priority) => Some(priority),
        PayloadView::Headers { priority, .. } => priority,
        _ => None,
    }
}

impl<'a> Payload<'a> {
    /// The frame type of this payload.
    #[inline]
    pub fn kind(&self) -> (kind: Kind)
        ensures
            kind == payload_kind(self@),
    {
        match *self {
            Payload::Data { .. } => Kind::Data,
            Payload::Headers { .. } => Kind::Headers,
            Payload::Priority(..) => Kind::Priority,
            Payload::Reset(..) => Kind::Reset,
            Payload::Settings(..) => Kind::Settings,
            Payload::PushPromise { .. } => Kind::PushPromise,
            Payload::Ping(..) => Kind::Ping,
            Payload::GoAway { .. } => Kind::GoAway,
            Payload::WindowUpdate(_) => Kind::WindowUpdate,
            Payload::Continuation(_) => Kind::Continuation,
            Payload::Unregistered(_) => Kind::Unregistered,
        }
    }

    /// Reads the payload that `header` announces from the bytes after it.
    #[inline]
    pub fn parse(header: FrameHeader, buf: &'a [u8]) -> (r: Result<Payload<'a>, Error>)
        ensures
            payload_result_is(r, parse_payload(header, buf@)),
    {
        proof {
            super::flag::lemma_flag_of_bits(PADDED);
            super::flag::lemma_flag_of_bits(PRIORITY);
        }
        let settings = ParserSettings {
            padding: header.flag.contains(Flag::padded()),
            priority: header.flag.contains(Flag::priority()),
        };

        if buf.len() < header.length as usize {
            return Err(Error::Short);
        }
        let min_payload_length: u32 = if settings.priority && settings.padding {
            PRIORITY_BYTES + PADDING_BYTES
        } else if settings.priority {
            PRIORITY_BYTES
        } else if settings.padding {
            PADDING_BYTES
        } else {
            0
        };

        if header.length < min_payload_length {
            return Err(Error::PayloadLengthTooShort);
        }
        let buf = slice_subrange(buf, 0, header.length as usize);

        match header.kind {
            Kind::Data => Payload::parse_data(header, buf, settings),
            Kind::Headers => Payload::parse_headers(header, buf, settings),
            Kind::Priority => {
                match Priority::parse(true, buf) {
                    Ok((_, Some(priority))) => Ok(Payload::Priority(priority)),
                    Ok((_, None)) => Err(Error::PayloadLengthTooShort),
                    Err(e) => Err(e),
                }
            },
            Kind::Reset => Payload::parse_reset(header, buf),
            Kind::Settings => Payload::parse_settings(header, buf),
            Kind::Ping => Payload::parse_ping(header, buf),
            Kind::GoAway => Payload::parse_goaway(header, buf),
            Kind::WindowUpdate => Payload::parse_window_update(header, buf),
            Kind::PushPromise => Payload::parse_push_promise(header, buf, settings),
            Kind::Continuation => Ok(Payload::Continuation(buf)),
            Kind::Unregistered => Ok(Payload::Unregistered(buf)),
        }
    }

    /// Writes the payload to the start of `buf` and returns the number of
    /// bytes written. The fields of fixed size need room in `buf`; of the
    /// byte range after them, as much is written as `buf` has room for.
    #[inline]
    pub fn encode(&self, buf: &mut [u8]) -> (n: usize)
        requires
            old(buf)@.len() >= payload_fixed_len(self@),
        ensures
            n == filled_len(old(buf)@.len(), payload_wire(self@)),
            final(buf)@ == filled(old(buf)@, payload_wire(self@)),
    {
        proof {
            lemma_payload_wire_len(self@);
        }
        let room: usize = buf.len();
        match self {
            Payload::Data { data } => encode_memory(data, buf),
            Payload::Headers { priority, block } => {
                let priority_wrote: usize = match priority {
                    Some(p) => {
                        proof {
                            lemma_priority_wire_len(*p);
                        }
                        p.encode(buf)
                    },
                    None => 0,
                };
                let (head, rest) = buf.split_at_mut(priority_wrote);
                let block_wrote: usize = encode_memory(block, rest);
                proof {
                    assert(final(buf)@ =~= filled(old(buf)@, payload_wire(self@)));
                }
                priority_wrote + block_wrote
            },
            Payload::Reset(err) => err.encode(buf),
            Payload::Settings(settings) => {
                let bytes = Setting::to_bytes(settings.as_slice());
                encode_memory(bytes.as_slice(), buf)
            },
            Payload::Ping(data) => encode_u64(buf, *data),
            Payload::GoAway { data, last, error } => {
                let last_wrote: usize = last.encode(buf);
                let (head, rest) = buf.split_at_mut(last_wrote);
                let error_wrote: usize = error.encode(rest);
                let (middle, rest) = rest.split_at_mut(error_wrote);
                let data_wrote: usize = encode_memory(data, rest);
                proof {
                    lemma_be_bytes_len((last.0 % 0x8000_0000) as nat, 4);
                    lemma_be_bytes_len(error.0 as nat, 4);
                    assert(final(buf)@ =~= filled(old(buf)@, payload_wire(self@)));
                }
                data_wrote + last_wrote + error_wrote
            },
            Payload::WindowUpdate(increment) => increment.encode(buf),
            Payload::PushPromise { promised, block } => {
                promised.encode(buf);
                let (head, rest) = buf.split_at_mut(4);
                let block_wrote: usize = encode_memory(block, rest);
                proof {
                    assert(final(buf)@ =~= filled(old(buf)@, payload_wire(self@)));
                }
                block_wrote + 4
            },
            Payload::Priority(priority) => {
                proof {
                    lemma_priority_wire_len(*priority);
                }
                priority.encode(buf)
            },
            Payload::Continuation(block) => encode_memory(block, buf),
            Payload::Unregistered(block) => encode_memory(block, buf),
        }
    }

    /// The number of bytes of this payload on the wire.
    #[inline]
    pub fn encoded_len(&self) -> (n: usize)
        requires
            payload_wire_len(self@) <= usize::MAX,
        ensures
            n == payload_wire_len(self@),
            n == payload_wire(self@).len(),
    {
        proof {
            lemma_payload_wire_len(self@);
        }
        match self {
            Payload::Data { data } => data.len(),
            Payload::Headers { priority, block } => {
                let priority_len: usize = if priority.is_some() {
                    5
                } else {
                    0
                };
                priority_len + block.len()
            },
            Payload::Reset(_) => 4,
            Payload::Settings(settings) => settings.len() * 6,
            Payload::Ping(_) => 8,
            Payload::GoAway { data, .. } => 4 + 4 + data.len(),
            Payload::WindowUpdate(_) => 4,
            Payload::PushPromise { block, .. } => 4 + block.len(),
            Payload::Priority(_) => 5,
            Payload::Continuation(block) => block.len(),
            Payload::Unregistered(block) => block.len(),
        }
    }

    /// The pad length of this payload. Padding is removed when a payload is
    /// read, so no payload has one.
    #[inline]
    pub fn padded(&self) -> (r: Option<u32>)
        ensures
            r is None,
    {
        None
    }

    /// The priority block of this payload, which a PRIORITY frame has and a
    /// HEADERS frame may have.
    #[inline]
    pub fn priority(&self) -> (r: Option<&Priority>)
        ensures
            match r {
                Some(p) => payload_priority(self@) == Some(*p),
                None => payload_priority(self@) is None,
            },
    {
        match self {
            Payload::Priority(priority) => Some(priority),
            Payload::Headers { priority, .. } => priority.as_ref(),
            _ => None,
        }
    }

    #[inline]
    fn parse_data(header: FrameHeader, buf: &'a [u8], settings: ParserSettings) -> (r: Result<
        Payload<'a>,
        Error,
    >)
        requires
            buf@.len() == header.length,
            header.length >= min_payload_length(settings),
        ensures
            payload_result_is(r, parse_body(Kind::Data, settings, buf@)),
    {
        match trim_padding(settings, header, buf) {
            Ok(data) => Ok(Payload::Data { data }),
            Err(e) => Err(e),
        }
    }

    #[inline]
    fn parse_headers(header: FrameHeader, buf: &'a [u8], settings: ParserSettings) -> (r: Result<
        Payload<'a>,
        Error,
    >)
        requires
            buf@.len() == header.length,
            header.length >= min_payload_length(settings),
        ensures
            payload_result_is(r, parse_body(Kind::Headers, settings, buf@)),
    {
        let buf = match trim_padding(settings, header, buf) {
            Ok(rest) => rest,
            Err(e) => {
                return Err(e);
            },
        };
        match Priority::parse(settings.priority, buf) {
            Ok((block, priority)) => Ok(Payload::Headers { priority, block }),
            Err(e) => Err(e),
        }
    }

    #[inline]
    fn parse_reset(header: FrameHeader, buf: &'a [u8]) -> (r: Result<Payload<'a>, Error>)
        requires
            buf@.len() == header.length,
        ensures
            forall|settings: ParserSettings|
                payload_result_is(r, #[trigger] parse_body(Kind::Reset, settings, buf@)),
    {
        if header.length < 4 {
            return Err(Error::PayloadLengthTooShort);
        }
        Ok(Payload::Reset(ErrorCode::parse(buf)))
    }

    #[inline]
    fn parse_settings(header: FrameHeader, buf: &'a [u8]) -> (r: Result<Payload<'a>, Error>)
        requires
            buf@.len() == header.length,
        ensures
            forall|settings: ParserSettings|
                payload_result_is(r, #[trigger] parse_body(Kind::Settings, settings, buf@)),
    {
        if header.length % 6 != 0 {
            return Err(Error::PartialSettingLength);
        }
        Ok(Payload::Settings(Setting::from_bytes(buf)))
    }

    #[inline]
    fn parse_ping(header: FrameHeader, buf: &'a [u8]) -> (r: Result<Payload<'a>, Error>)
        requires
            buf@.len() == header.length,
        ensures
            forall|settings: ParserSettings|
                payload_result_is(r, #[trigger] parse_body(Kind::Ping, settings, buf@)),
    {
        if header.length != 8 {
            return Err(Error::InvalidPayloadLength);
        }
        let data: u64 = read_u64_be(buf);
        Ok(Payload::Ping(data))
    }

    #[inline]
    fn parse_goaway(header: FrameHeader, buf: &'a [u8]) -> (r: Result<Payload<'a>, Error>)
        requires
            buf@.len() == header.length,
        ensures
            forall|settings: ParserSettings|
                payload_result_is(r, #[trigger] parse_body(Kind::GoAway, settings, buf@)),
    {
        if header.length < 8 {
            return Err(Error::PayloadLengthTooShort);
        }
        let last = StreamIdentifier::parse(buf);
        let error = ErrorCode::parse(slice_subrange(buf, 4, buf.len()));
        let rest = slice_subrange(buf, 8, buf.len());

        Ok(Payload::GoAway { last, error, data: rest })
    }

    #[inline]
    fn parse_window_update(header: FrameHeader, buf: &'a [u8]) -> (r: Result<Payload<'a>, Error>)
        requires
            buf@.len() == header.length,
        ensures
            forall|settings: ParserSettings|
                payload_result_is(r, #[trigger] parse_body(Kind::WindowUpdate, settings, buf@)),
    {
        if header.length != 4 {
            return Err(Error::InvalidPayloadLength);
        }
        Ok(Payload::WindowUpdate(SizeIncrement::parse(buf)))
    }

    #[inline]
    fn parse_push_promise(
        header: FrameHeader,
        buf: &'a [u8],
        settings: ParserSettings,
    ) -> (r: Result<Payload<'a>, Error>)
        requires
            buf@.len() == header.length,
            header.length >= min_payload_length(settings),
        ensures
            payload_result_is(r, parse_body(Kind::PushPromise, settings, buf@)),
    {
        let buf = match trim_padding(settings, header, buf) {
            Ok(rest) => rest,
            Err(e) => {
                return Err(e);
            },
        };
        if buf.len() < 4 {
            return Err(Error::PayloadLengthTooShort);
        }
        let promised = StreamIdentifier::parse(buf);
        let block = slice_subrange(buf, 4, buf.len());

        Ok(Payload::PushPromise { promised, block })
    }
}

/// A SETTINGS frame whose payload is all there, and not shorter than its
/// flags ask for, is refused with `PartialSettingLength` where the declared
/// length is no multiple of six. Where it is one, the payload is read and
/// holds a sixth of that many settings.
pub proof fn lemma_settings_by_length(header: FrameHeader, buf: Seq<u8>)
    requires
        header.kind == Kind::Settings,
        buf.len() >= header.length,
        header.length >= min_payload_length(parser_settings(header.flag)),
    ensures
        header.length % 6 != 0 ==> parse_payload(header, buf) == Err::<PayloadView, Error>(
            Error::PartialSettingLength,
        ),
        header.length % 6 == 0 ==> parse_payload(header, buf) == Ok::<PayloadView, Error>(
            PayloadView::Settings(settings_of(buf.take(header.length as int))),
        ) && settings_of(buf.take(header.length as int)).len() == header.length / 6,
{
}

/// A PING frame whose payload is all there, and not shorter than its flags
/// ask for, is read if and only if the declared length is eight. Every other
/// length is refused with `InvalidPayloadLength`.
pub proof fn lemma_ping_by_length(header: FrameHeader, buf: Seq<u8>)
    requires
        header.kind == Kind::Ping,
        buf.len() >= header.length,
        header.length >= min_payload_length(parser_settings(header.flag)),
    ensures
        parse_payload(header, buf) is Ok <==> header.length == 8,
        header.length == 8 ==> parse_payload(header, buf) == Ok::<PayloadView, Error>(
            PayloadView::Ping(be_value(buf.take(8), 8) as u64),
        ),
        header.length != 8 ==> parse_payload(header, buf) == Err::<PayloadView, Error>(
            Error::InvalidPayloadLength,
        ),
{
}

/// A padded DATA frame of declared length `header.length`, whose payload is
/// all there and not shorter than its flags ask for, with the pad length
/// `buf[0]`: it is refused with `TooMuchPadding` if and only if the pad
/// length is above `header.length - 1`. Otherwise the data that is read has
/// `header.length - 1 - buf[0]` bytes: those after the pad length, without
/// the padding.
pub proof fn lemma_data_padding(header: FrameHeader, buf: Seq<u8>)
    requires
        header.kind == Kind::Data,
        parser_settings(header.flag).padding,
        buf.len() >= header.length,
        header.length >= min_payload_length(parser_settings(header.flag)),
    ensures
        buf[0] > header.length - 1 <==> parse_payload(header, buf) == Err::<PayloadView, Error>(
            Error::TooMuchPadding(buf[0]),
        ),
        buf[0] <= header.length - 1 ==> parse_payload(header, buf) == Ok::<PayloadView, Error>(
            PayloadView::Data { data: buf.subrange(1, header.length - buf[0]) },
        ) && buf.subrange(1, header.length - buf[0]).len() == header.length - 1 - buf[0],
{
    let body = buf.take(header.length as int);
    assert(body[0] == buf[0]);
    if buf[0] <= header.length - 1 {
        assert(body.subrange(1, body.len() - body[0]) =~= buf.subrange(
            1,
            header.length - buf[0],
        ));
    }
}

/// Whether the identifiers and increments of a payload fit in 31 bits, so
/// that none has the reserved bit.
pub open spec fn payload_canonical(payload: PayloadView) -> bool {
    match payload {
        PayloadView::Headers { priority: Some(priority), .. } => priority.dependency.0
            < 0x8000_0000,
        PayloadView::Priority(priority) => priority.dependency.0 < 0x8000_0000,
        PayloadView::PushPromise { promised, .. } => promised.0 < 0x8000_0000,
        PayloadView::GoAway { last, .. } => last.0 < 0x8000_0000,
        PayloadView::WindowUpdate(increment) => increment.0 < 0x8000_0000,
        _ => true,
    }
}

/// Reading the bytes of a priority block gives the block back.
pub proof fn lemma_priority_round_trip(priority: Priority, rest: Seq<u8>)
    requires
        priority.dependency.0 < 0x8000_0000,
    ensures
        priority_of(priority_wire(priority) + rest) == priority,
        (priority_wire(priority) + rest).skip(5) == rest,
        priority_wire(priority).len() == 5,
{
    let x = (priority.dependency.0 + if priority.exclusive {
        0x8000_0000int
    } else {
        0int
    }) as nat;
    let wire = priority_wire(priority) + rest;
    lemma_be_bytes_len(x, 4);
    lemma_pow256_values();
    assert(wire =~= be_bytes(x, 4) + (seq![priority.weight] + rest));
    lemma_be_round_trip(x, 4, seq![priority.weight] + rest);
    reveal_with_fuel(be_bytes, 5);
    assert(wire[0] == ((x / 0x100_0000) % 256) as u8);
    assert(wire.skip(5) =~= rest);
}

/// Reading the bytes of a setting gives the setting back.
pub proof fn lemma_setting_round_trip(setting: Setting)
    ensures
        setting_of(setting_wire(setting)) == setting,
        setting_wire(setting).len() == 6,
{
    let wire = setting_wire(setting);
    lemma_be_bytes_len(setting.identifier as nat, 2);
    lemma_be_bytes_len(setting.value as nat, 4);
    lemma_pow256_values();
    lemma_be_round_trip(setting.identifier as nat, 2, be_bytes(setting.value as nat, 4));
    assert(wire.skip(2) =~= be_bytes(setting.value as nat, 4) + Seq::<u8>::empty());
    lemma_be_round_trip(setting.value as nat, 4, Seq::empty());
}

/// Reading the bytes of a list of settings gives the list back.
pub proof fn lemma_settings_round_trip(settings: Seq<Setting>)
    ensures
        settings_of(settings_wire(settings)) == settings,
    decreases settings.len(),
{
    lemma_settings_wire_len(settings);
    if settings.len() == 0 {
        assert(settings_of(settings_wire(settings)) =~= settings);
    } else {
        let front = settings.drop_last();
        let wire = settings_wire(settings);
        lemma_settings_round_trip(front);
        lemma_settings_wire_len(front);
        lemma_setting_round_trip(settings.last());
        assert forall|i: int| 0 <= i < settings.len() implies settings_of(wire)[i]
            == settings[i] by {
            if i < front.len() {
                assert(wire.subrange(6 * i, 6 * i + 6) =~= settings_wire(front).subrange(
                    6 * i,
                    6 * i + 6,
                ));
                assert(settings_of(settings_wire(front))[i] == front[i]);
            } else {
                assert(wire.subrange(6 * i, 6 * i + 6) =~= setting_wire(settings.last()));
            }
        }
        assert(settings_of(wire) =~= settings);
    }
}

/// Reading the bytes that a payload is written as, whatever follows them,
/// gives the payload back, where the header declares its frame type and its
/// length, announces no padding, and announces a priority block just where
/// the payload is that of a HEADERS frame with one.
pub proof fn lemma_payload_round_trip(header: FrameHeader, payload: PayloadView, rest: Seq<u8>)
    requires
        payload_canonical(payload),
        header.kind == payload_kind(payload),
        header.length == payload_wire_len(payload),
        !parser_settings(header.flag).padding,
        parser_settings(header.flag).priority == (payload is Headers && payload_priority(
            payload,
        ) is Some),
    ensures
        parse_payload(header, payload_wire(payload) + rest) == Ok::<PayloadView, Error>(payload),
{
    let wire = payload_wire(payload);
    lemma_payload_wire_len(payload);
    lemma_pow256_values();
    let body = (wire + rest).take(header.length as int);
    assert(body =~= wire);
    let none = Seq::<u8>::empty();
    match payload {
        PayloadView::Headers { priority, block } => {
            if let Some(p) = priority {
                lemma_priority_round_trip(p, block);
            }
        },
        PayloadView::Priority(p) => {
            lemma_priority_round_trip(p, none);
            assert(wire =~= priority_wire(p) + none);
        },
        PayloadView::Reset(code) => {
            assert(wire =~= be_bytes(code.0 as nat, 4) + none);
            lemma_be_round_trip(code.0 as nat, 4, none);
        },
        PayloadView::Settings(settings) => {
            lemma_settings_round_trip(settings);
        },
        PayloadView::PushPromise { promised, block } => {
            lemma_be_bytes_len(promised.0 as nat, 4);
            lemma_be_round_trip(promised.0 as nat, 4, block);
            assert(wire.skip(4) =~= block);
        },
        PayloadView::Ping(data) => {
            assert(wire =~= be_bytes(data as nat, 8) + none);
            lemma_be_round_trip(data as nat, 8, none);
        },
        PayloadView::GoAway { last, error, data } => {
            lemma_be_bytes_len(last.0 as nat, 4);
            lemma_be_bytes_len(error.0 as nat, 4);
            assert(wire =~= be_bytes(last.0 as nat, 4) + (be_bytes(error.0 as nat, 4) + data));
            lemma_be_round_trip(last.0 as nat, 4, be_bytes(error.0 as nat, 4) + data);
            assert(wire.skip(4) =~= be_bytes(error.0 as nat, 4) + data);
            lemma_be_round_trip(error.0 as nat, 4, data);
            assert(wire.skip(8) =~= data);
        },
        PayloadView::WindowUpdate(increment) => {
            assert(wire =~= be_bytes(increment.0 as nat, 4) + none);
            lemma_be_round_trip(increment.0 as nat, 4, none);
        },
        _ => {},
    }
}

} // verus!
