//! Meta events of Standard MIDI Files: a type byte, a length and that many bytes of data.
use crate::{be_u16, be_u32, spec_be, SliceGetFixed};
use core::str::Utf8Error;
use crate::text::{
    decimal, decimal_list, signed_decimal, spec_decimal, spec_decimal_list,
    spec_signed_decimal,
};
use vstd::prelude::*;
use vstd::string::*;
use vstd::utf8::{decode_utf8, valid_utf8};

verus! {

/// The status byte that introduces a meta event.
pub const STATUS: u8 = 0xFF;

#[verifier::external_type_specification]
#[verifier::external_body]
pub struct ExUtf8Error(Utf8Error);

/// The error that `core::str::from_utf8` reports for bytes that are not valid UTF-8; it is
/// determined by the bytes (where decoding stopped and how long the invalid sequence is).
pub uninterp spec fn utf8_error(bytes: Seq<u8>) -> Utf8Error;

/// `core::str::from_utf8`: the bytes as a string slice exactly when they are valid UTF-8, whose
/// encoding is then those bytes; otherwise the error that the bytes determine, `utf8_error`,
/// whose contents are not spelled out here.
#[verifier::external_body]
fn str_from_utf8(bytes: &[u8]) -> (res: Result<&str, Utf8Error>)
    ensures
        res is Ok <==> valid_utf8(bytes@),
        res matches Ok(s) ==> s.spec_bytes() == bytes@,
        res matches Err(e) ==> e == utf8_error(bytes@),
{
    core::str::from_utf8(bytes)
}

#[derive(Debug, PartialEq, Eq, Clone, Copy, Structural)]
pub enum Type {
    ChannelPrefix,
    Copyright,
    CuePoint,
    EndOfTrack,
    InstrumentName,
    KeySignature,
    Lyric,
    Marker,
    SequenceNumber,
    SequenceTrackName,
    SequencerSpecific,
    SetTempo,
    SmpteOffset,
    Text,
    TimeSignature,
    Unknown(u8),
}

impl Type {
    /// The type byte of a meta event type.
    pub open spec fn spec_byte(self) -> u8 {
        match self {
            Type::ChannelPrefix => 0x20,
            Type::Copyright => 0x02,
            Type::CuePoint => 0x07,
            Type::EndOfTrack => 0x2F,
            Type::InstrumentName => 0x04,
            Type::KeySignature => 0x59,
            Type::Lyric => 0x05,
            Type::Marker => 0x06,
            Type::SequenceNumber => 0x00,
            Type::SequenceTrackName => 0x03,
            Type::SequencerSpecific => 0x7F,
            Type::SetTempo => 0x51,
            Type::SmpteOffset => 0x54,
            Type::Text => 0x01,
            Type::TimeSignature => 0x58,
            Type::Unknown(v) => v,
        }
    }

    /// The meta event type of a type byte; bytes that name no known type are `Unknown`.
    pub open spec fn spec_from_byte(value: u8) -> Type {
        if value == 0x20 {
            Type::ChannelPrefix
        } else if value == 0x07 {
            Type::CuePoint
        } else if value == 0x02 {
            Type::Copyright
        } else if value == 0x2F {
            Type::EndOfTrack
        } else if value == 0x04 {
            Type::InstrumentName
        } else if value == 0x59 {
            Type::KeySignature
        } else if value == 0x05 {
            Type::Lyric
        } else if value == 0x06 {
            Type::Marker
        } else if value == 0x00 {
            Type::SequenceNumber
        } else if value == 0x03 {
            Type::SequenceTrackName
        } else if value == 0x7F {
            Type::SequencerSpecific
        } else if value == 0x51 {
            Type::SetTempo
        } else if value == 0x54 {
            Type::SmpteOffset
        } else if value == 0x01 {
            Type::Text
        } else if value == 0x58 {
            Type::TimeSignature
        } else {
            Type::Unknown(value)
        }
    }

    /// Whether the type is one of the known ones, or an `Unknown` that holds no known type byte.
    pub open spec fn is_canonical(self) -> bool {
        match self {
            Type::Unknown(v) => Type::spec_from_byte(v) == Type::Unknown(v),
            _ => true,
        }
    }
}

impl From<u8> for Type {
    fn from(value: u8) -> (res: Self) {
        match value {
            0x20 => Self::ChannelPrefix,
            0x07 => Self::CuePoint,
            0x02 => Self::Copyright,
            0x2F => Self::EndOfTrack,
            0x04 => Self::InstrumentName,
            0x59 => Self::KeySignature,
            0x05 => Self::Lyric,
            0x06 => Self::Marker,
            0x00 => Self::SequenceNumber,
            0x03 => Self::SequenceTrackName,
            0x7F => Self::SequencerSpecific,
            0x51 => Self::SetTempo,
            0x54 => Self::SmpteOffset,
            0x01 => Self::Text,
            0x58 => Self::TimeSignature,
            unknown => Self::Unknown(unknown),
        }
    }
}

impl vstd::std_specs::convert::FromSpecImpl<u8> for Type {
    open spec fn obeys_from_spec() -> bool {
        true
    }

    open spec fn from_spec(value: u8) -> Type {
        Type::spec_from_byte(value)
    }
}

impl From<Type> for u8 {
    fn from(value: Type) -> (res: Self) {
        match value {
            Type::ChannelPrefix => 0x20,
            Type::Copyright => 0x02,
            Type::CuePoint => 0x07,
            Type::EndOfTrack => 0x2F,
            Type::InstrumentName => 0x04,
            Type::KeySignature => 0x59,
            Type::Lyric => 0x05,
            Type::Marker => 0x06,
            Type::SequenceNumber => 0x00,
            Type::SequenceTrackName => 0x03,
            Type::SequencerSpecific => 0x7F,
            Type::SetTempo => 0x51,
            Type::SmpteOffset => 0x54,
            Type::Text => 0x01,
            Type::TimeSignature => 0x58,
            Type::Unknown(v) => v,
        }
    }
}

impl vstd::std_specs::convert::FromSpecImpl<Type> for u8 {
    open spec fn obeys_from_spec() -> bool {
        true
    }

    open spec fn from_spec(value: Type) -> u8 {
        value.spec_byte()
    }
}

/// Every byte survives the trip through a meta event type, and every type read from a byte is
/// canonical; a canonical type survives the trip through its byte.
pub proof fn law_type_byte_roundtrip(value: u8, typ: Type)
    ensures
        Type::spec_from_byte(value).spec_byte() == value,
        Type::spec_from_byte(value).is_canonical(),
        typ.is_canonical() ==> Type::spec_from_byte(typ.spec_byte()) == typ,
{
}

#[derive(Debug, PartialEq, Eq)]
pub enum MetaEvent {
    ChannelPrefix(u8),
    Copyright(String),
    CuePoint(String),
    EndOfTrack,
    InstrumentName(String),
    KeySignature { key: i8, is_minor: bool },
    Lyric(String),
    Marker(String),
    SequenceNumber(u16),
    SequenceTrackName(String),
    SequencerSpecific(Vec<u8>),
    SetTempo(u32),
    SmpteOffset {
        hours: u8,
        minute: u8,
        second: u8,
        frame_rate: u8,
        fractional_frames: u8,
    },
    Text(String),
    TimeSignature {
        numerator: u8,
        negative_denominator_power: u8,
        clock_per_metronome_click: u8,
        thirtyseconds_per_quarter_note: u8,
    },
    Unknown(Vec<u8>),
}

/// A `MetaEvent` with its texts as character sequences and its data as byte sequences.
pub enum MetaEventModel {
    ChannelPrefix(u8),
    Copyright(Seq<char>),
    CuePoint(Seq<char>),
    EndOfTrack,
    InstrumentName(Seq<char>),
    KeySignature { key: i8, is_minor: bool },
    Lyric(Seq<char>),
    Marker(Seq<char>),
    SequenceNumber(u16),
    SequenceTrackName(Seq<char>),
    SequencerSpecific(Seq<u8>),
    SetTempo(u32),
    SmpteOffset {
        hours: u8,
        minute: u8,
        second: u8,
        frame_rate: u8,
        fractional_frames: u8,
    },
    Text(Seq<char>),
    TimeSignature {
        numerator: u8,
        negative_denominator_power: u8,
        clock_per_metronome_click: u8,
        thirtyseconds_per_quarter_note: u8,
    },
    Unknown(Seq<u8>),
}

impl View for MetaEvent {
    type V = MetaEventModel;

    open spec fn view(&self) -> MetaEventModel {
        match self {
            MetaEvent::ChannelPrefix(v) => MetaEventModel::ChannelPrefix(*v),
            MetaEvent::Copyright(s) => MetaEventModel::Copyright(s@),
            MetaEvent::CuePoint(s) => MetaEventModel::CuePoint(s@),
            MetaEvent::EndOfTrack => MetaEventModel::EndOfTrack,
            MetaEvent::InstrumentName(s) => MetaEventModel::InstrumentName(s@),
            MetaEvent::KeySignature { key, is_minor } => MetaEventModel::KeySignature {
                key: *key,
                is_minor: *is_minor,
            },
            MetaEvent::Lyric(s) => MetaEventModel::Lyric(s@),
            MetaEvent::Marker(s) => MetaEventModel::Marker(s@),
            MetaEvent::SequenceNumber(v) => MetaEventModel::SequenceNumber(*v),
            MetaEvent::SequenceTrackName(s) => MetaEventModel::SequenceTrackName(s@),
            MetaEvent::SequencerSpecific(d) => MetaEventModel::SequencerSpecific(d@),
            MetaEvent::SetTempo(v) => MetaEventModel::SetTempo(*v),
            MetaEvent::SmpteOffset { hours, minute, second, frame_rate, fractional_frames } =>
                MetaEventModel::SmpteOffset {
                hours: *hours,
                minute: *minute,
                second: *second,
                frame_rate: *frame_rate,
                fractional_frames: *fractional_frames,
            },
            MetaEvent::Text(s) => MetaEventModel::Text(s@),
            MetaEvent::TimeSignature {
                numerator,
                negative_denominator_power,
                clock_per_metronome_click,
                thirtyseconds_per_quarter_note,
            } => MetaEventModel::TimeSignature {
                numerator: *numerator,
                negative_denominator_power: *negative_denominator_power,
                clock_per_metronome_click: *clock_per_metronome_click,
                thirtyseconds_per_quarter_note: *thirtyseconds_per_quarter_note,
            },
            MetaEvent::Unknown(d) => MetaEventModel::Unknown(d@),
        }
    }
}

#[derive(Debug, PartialEq, Eq)]
pub enum ParseError {
    LengthNotEnoughBytes { actual: usize, expected: usize },
    LengthNotExpected { actual: usize, expected: usize },
    TextInvalid(Utf8Error),
}

/// The model of a `ParseError`.
pub enum ParseErrorModel {
    LengthNotEnoughBytes { actual: usize, expected: usize },
    LengthNotExpected { actual: usize, expected: usize },
    TextInvalid(Utf8Error),
}

impl View for ParseError {
    type V = ParseErrorModel;

    open spec fn view(&self) -> ParseErrorModel {
        match self {
            ParseError::LengthNotEnoughBytes { actual, expected } =>
                ParseErrorModel::LengthNotEnoughBytes { actual: *actual, expected: *expected },
            ParseError::LengthNotExpected { actual, expected } =>
                ParseErrorModel::LengthNotExpected { actual: *actual, expected: *expected },
            ParseError::TextInvalid(e) => ParseErrorModel::TextInvalid(*e),
        }
    }
}

impl From<Utf8Error> for ParseError {
    fn from(value: Utf8Error) -> (res: Self) {
        Self::TextInvalid(value)
    }
}

impl vstd::std_specs::convert::FromSpecImpl<Utf8Error> for ParseError {
    open spec fn obeys_from_spec() -> bool {
        true
    }

    open spec fn from_spec(value: Utf8Error) -> ParseError {
        ParseError::TextInvalid(value)
    }
}

/// The `n` data bytes of a fixed-size meta event whose declared length is `length`.
pub open spec fn spec_fixed_bytes(bytes: Seq<u8>, length: usize, n: usize) -> Result<
    Seq<u8>,
    ParseErrorModel,
> {
    if length != n {
        Err(ParseErrorModel::LengthNotExpected { actual: length, expected: n })
    } else if bytes.len() < n {
        Err(ParseErrorModel::LengthNotEnoughBytes { actual: bytes.len() as usize, expected: n })
    } else {
        Ok(bytes.take(n as int))
    }
}

/// The first `length` data bytes, when there are that many.
pub open spec fn spec_prefix(bytes: Seq<u8>, length: usize) -> Result<Seq<u8>, ParseErrorModel> {
    if bytes.len() < length {
        Err(ParseErrorModel::LengthNotEnoughBytes { actual: bytes.len() as usize, expected: length })
    } else {
        Ok(bytes.take(length as int))
    }
}

/// The text spelled in UTF-8 by the first `length` data bytes.
pub open spec fn spec_string(bytes: Seq<u8>, length: usize) -> Result<Seq<char>, ParseErrorModel> {
    match spec_prefix(bytes, length) {
        Ok(text) => if valid_utf8(text) {
            Ok(decode_utf8(text))
        } else {
            Err(ParseErrorModel::TextInvalid(utf8_error(text)))
        },
        Err(e) => Err(e),
    }
}

impl MetaEvent {
    /// The meta event of the given type whose declared length is `length` and whose data starts
    /// `bytes`, with the number of data bytes it takes (its declared length), or why there is none.
    pub open spec fn spec_from_bytes(typ: Type, length: usize, bytes: Seq<u8>) -> Result<
        (usize, MetaEventModel),
        ParseErrorModel,
    > {
        let event: Result<MetaEventModel, ParseErrorModel> = match typ {
            Type::ChannelPrefix => match spec_fixed_bytes(bytes, length, 1) {
                Ok(b) => Ok(MetaEventModel::ChannelPrefix(b[0])),
                Err(e) => Err(e),
            },
            Type::Copyright => match spec_string(bytes, length) {
                Ok(s) => Ok(MetaEventModel::Copyright(s)),
                Err(e) => Err(e),
            },
            Type::CuePoint => match spec_string(bytes, length) {
                Ok(s) => Ok(MetaEventModel::CuePoint(s)),
                Err(e) => Err(e),
            },
            Type::EndOfTrack => Ok(MetaEventModel::EndOfTrack),
            Type::InstrumentName => match spec_string(bytes, length) {
                Ok(s) => Ok(MetaEventModel::InstrumentName(s)),
                Err(e) => Err(e),
            },
            Type::KeySignature => match spec_fixed_bytes(bytes, length, 2) {
                Ok(b) => Ok(MetaEventModel::KeySignature { key: b[0] as i8, is_minor: b[1] > 0 }),
                Err(e) => Err(e),
            },
            Type::Lyric => match spec_string(bytes, length) {
                Ok(s) => Ok(MetaEventModel::Lyric(s)),
                Err(e) => Err(e),
            },
            Type::Marker => match spec_string(bytes, length) {
                Ok(s) => Ok(MetaEventModel::Marker(s)),
                Err(e) => Err(e),
            },
            Type::SequenceNumber => match spec_fixed_bytes(bytes, length, 2) {
                Ok(b) => Ok(MetaEventModel::SequenceNumber(spec_be(b) as u16)),
                Err(e) => Err(e),
            },
            Type::SequenceTrackName => match spec_string(bytes, length) {
                Ok(s) => Ok(MetaEventModel::SequenceTrackName(s)),
                Err(e) => Err(e),
            },
            Type::SequencerSpecific => match spec_prefix(bytes, length) {
                Ok(d) => Ok(MetaEventModel::SequencerSpecific(d)),
                Err(e) => Err(e),
            },
            Type::SetTempo => match spec_fixed_bytes(bytes, length, 3) {
                Ok(b) => Ok(MetaEventModel::SetTempo(spec_be(b) as u32)),
                Err(e) => Err(e),
            },
            Type::SmpteOffset => match spec_fixed_bytes(bytes, length, 5) {
                Ok(b) => Ok(
                    MetaEventModel::SmpteOffset {
                        hours: b[0],
                        minute: b[1],
                        second: b[2],
                        frame_rate: b[3],
                        fractional_frames: b[4],
                    },
                ),
                Err(e) => Err(e),
            },
            Type::Text => match spec_string(bytes, length) {
                Ok(s) => Ok(MetaEventModel::Text(s)),
                Err(e) => Err(e),
            },
            Type::TimeSignature => match spec_fixed_bytes(bytes, length, 4) {
                Ok(b) => Ok(
                    MetaEventModel::TimeSignature {
                        numerator: b[0],
                        negative_denominator_power: b[1],
                        clock_per_metronome_click: b[2],
                        thirtyseconds_per_quarter_note: b[3],
                    },
                ),
                Err(e) => Err(e),
            },
            Type::Unknown(_) => match spec_prefix(bytes, length) {
                Ok(d) => Ok(MetaEventModel::Unknown(d)),
                Err(e) => Err(e),
            },
        };
        match event {
            Ok(event) => Ok((length, event)),
            Err(e) => Err(e),
        }
    }

    /// Reads the data of a meta event of the given type and declared length.
    pub fn from_bytes(typ: Type, length: usize, bytes: &[u8]) -> (res: Result<
        (usize, Self),
        ParseError,
    >)
        ensures
            crate::result_view(res) == Self::spec_from_bytes(typ, length, bytes@),
            res matches Ok((n, _)) ==> n == length,
    {
        let variant = match typ {
            Type::ChannelPrefix => Self::channel_prefix_content(bytes, length),
            Type::Copyright => match Self::string_content(bytes, length) {
                Ok(s) => Ok(Self::Copyright(s)),
                Err(e) => Err(e),
            },
            Type::CuePoint => match Self::string_content(bytes, length) {
                Ok(s) => Ok(Self::CuePoint(s)),
                Err(e) => Err(e),
            },
            Type::EndOfTrack => Ok(Self::EndOfTrack),
            Type::InstrumentName => match Self::string_content(bytes, length) {
                Ok(s) => Ok(Self::InstrumentName(s)),
                Err(e) => Err(e),
            },
            Type::KeySignature => Self::key_signature_content(bytes, length),
            Type::Lyric => match Self::string_content(bytes, length) {
                Ok(s) => Ok(Self::Lyric(s)),
                Err(e) => Err(e),
            },
            Type::Marker => match Self::string_content(bytes, length) {
                Ok(s) => Ok(Self::Marker(s)),
                Err(e) => Err(e),
            },
            Type::SequenceNumber => Self::sequence_number_content(bytes, length),
            Type::SequenceTrackName => match Self::string_content(bytes, length) {
                Ok(s) => Ok(Self::SequenceTrackName(s)),
                Err(e) => Err(e),
            },
            Type::SequencerSpecific => Self::sequencer_specific_content(bytes, length),
            Type::SetTempo => Self::set_tempo_content(bytes, length),
            Type::SmpteOffset => Self::smpte_offset_content(bytes, length),
            Type::Text => match Self::string_content(bytes, length) {
                Ok(s) => Ok(Self::Text(s)),
                Err(e) => Err(e),
            },
            Type::TimeSignature => Self::time_signature_content(bytes, length),
            Type::Unknown(_) => Self::unknown_content(bytes, length),
        };

        match variant {
            Ok(variant) => Ok((length, variant)),
            Err(e) => Err(e),
        }
    }

    fn channel_prefix_content(bytes: &[u8], length: usize) -> (res: Result<Self, ParseError>)
        ensures
            crate::result_view(res) == (match spec_fixed_bytes(bytes@, length, 1) {
                Ok(b) => Ok(MetaEventModel::ChannelPrefix(b[0])),
                Err(e) => Err(e),
            }),
    {
        let channel_prefix = Self::fixed_bytes_content::<1>(bytes, length)?;

        Ok(Self::ChannelPrefix(channel_prefix[0]))
    }

    fn key_signature_content(bytes: &[u8], length: usize) -> (res: Result<Self, ParseError>)
        ensures
            crate::result_view(res) == (match spec_fixed_bytes(bytes@, length, 2) {
                Ok(b) => Ok(MetaEventModel::KeySignature { key: b[0] as i8, is_minor: b[1] > 0 }),
                Err(e) => Err(e),
            }),
    {
        let key_signature_bytes = Self::fixed_bytes_content::<2>(bytes, length)?;

        Ok(
            Self::KeySignature {
                key: key_signature_bytes[0] as i8,
                is_minor: key_signature_bytes[1] > 0,
            },
        )
    }

    fn sequence_number_content(bytes: &[u8], length: usize) -> (res: Result<Self, ParseError>)
        ensures
            crate::result_view(res) == (match spec_fixed_bytes(bytes@, length, 2) {
                Ok(b) => Ok(MetaEventModel::SequenceNumber(spec_be(b) as u16)),
                Err(e) => Err(e),
            }),
    {
        let sequence_number_bytes = Self::fixed_bytes_content::<2>(bytes, length)?;

        Ok(Self::SequenceNumber(be_u16(sequence_number_bytes)))
    }

    fn sequencer_specific_content(bytes: &[u8], length: usize) -> (res: Result<Self, ParseError>)
        ensures
            crate::result_view(res) == (match spec_prefix(bytes@, length) {
                Ok(d) => Ok(MetaEventModel::SequencerSpecific(d)),
                Err(e) => Err(e),
            }),
    {
        if length > bytes.len() {
            return Err(ParseError::LengthNotEnoughBytes { actual: bytes.len(), expected: length });
        }
        let sequencer_specific_bytes = vstd::slice::slice_subrange(bytes, 0, length);

        Ok(Self::SequencerSpecific(vstd::slice::slice_to_vec(sequencer_specific_bytes)))
    }

    fn set_tempo_content(bytes: &[u8], length: usize) -> (res: Result<Self, ParseError>)
        ensures
            crate::result_view(res) == (match spec_fixed_bytes(bytes@, length, 3) {
                Ok(b) => Ok(MetaEventModel::SetTempo(spec_be(b) as u32)),
                Err(e) => Err(e),
            }),
    {
        let tempo_bytes = Self::fixed_bytes_content::<3>(bytes, length)?;
        let padded: [u8; 4] = [0x00, tempo_bytes[0], tempo_bytes[1], tempo_bytes[2]];
        proof {
            let b = tempo_bytes@;
            assert(spec_be(b) == (b[0] as nat) * 65536 + (b[1] as nat) * 256 + b[2] as nat) by {
                reveal_with_fuel(spec_be, 4);
                assert(b.drop_last().drop_last().drop_last().len() == 0);
            }
            let p = padded@;
            assert(spec_be(p) == (p[1] as nat) * 65536 + (p[2] as nat) * 256 + p[3] as nat) by {
                reveal_with_fuel(spec_be, 5);
                assert(p.drop_last().drop_last().drop_last().drop_last().len() == 0);
            }
        }

        Ok(Self::SetTempo(be_u32(&padded)))
    }

    fn smpte_offset_content(bytes: &[u8], length: usize) -> (res: Result<Self, ParseError>)
        ensures
            crate::result_view(res) == (match spec_fixed_bytes(bytes@, length, 5) {
                Ok(b) => Ok(
                    MetaEventModel::SmpteOffset {
                        hours: b[0],
                        minute: b[1],
                        second: b[2],
                        frame_rate: b[3],
                        fractional_frames: b[4],
                    },
                ),
                Err(e) => Err(e),
            }),
    {
        let offset_bytes = Self::fixed_bytes_content::<5>(bytes, length)?;

        Ok(
            Self::SmpteOffset {
                hours: offset_bytes[0],
                minute: offset_bytes[1],
                second: offset_bytes[2],
                frame_rate: offset_bytes[3],
                fractional_frames: offset_bytes[4],
            },
        )
    }

    fn time_signature_content(bytes: &[u8], length: usize) -> (res: Result<Self, ParseError>)
        ensures
            crate::result_view(res) == (match spec_fixed_bytes(bytes@, length, 4) {
                Ok(b) => Ok(
                    MetaEventModel::TimeSignature {
                        numerator: b[0],
                        negative_denominator_power: b[1],
                        clock_per_metronome_click: b[2],
                        thirtyseconds_per_quarter_note: b[3],
                    },
                ),
                Err(e) => Err(e),
            }),
    {
        let time_signature_bytes = Self::fixed_bytes_content::<4>(bytes, length)?;

        Ok(
            Self::TimeSignature {
                numerator: time_signature_bytes[0],
                negative_denominator_power: time_signature_bytes[1],
                clock_per_metronome_click: time_signature_bytes[2],
                thirtyseconds_per_quarter_note: time_signature_bytes[3],
            },
        )
    }

    fn unknown_content(bytes: &[u8], length: usize) -> (res: Result<Self, ParseError>)
        ensures
            crate::result_view(res) == (match spec_prefix(bytes@, length) {
                Ok(d) => Ok(MetaEventModel::Unknown(d)),
                Err(e) => Err(e),
            }),
    {
        if length > bytes.len() {
            return Err(ParseError::LengthNotEnoughBytes { actual: bytes.len(), expected: length });
        }
        let unknown_bytes = vstd::slice::slice_subrange(bytes, 0, length);

        Ok(Self::Unknown(vstd::slice::slice_to_vec(unknown_bytes)))
    }

    /// The `N` data bytes of a meta event whose declared length must be `N`.
    fn fixed_bytes_content<const N: usize>(bytes: &[u8], actual_length: usize) -> (res: Result<
        &[u8; N],
        ParseError,
    >)
        ensures
            match (res, spec_fixed_bytes(bytes@, actual_length, N)) {
                (Ok(window), Ok(b)) => window@ == b,
                (Err(e), Err(f)) => e@ == f,
                _ => false,
            },
    {
        if actual_length != N {
            return Err(ParseError::LengthNotExpected { actual: actual_length, expected: N });
        }
        match bytes.get_fixed::<N>(0) {
            Some(window) => Ok(window),
            None => Err(ParseError::LengthNotEnoughBytes { actual: bytes.len(), expected: N }),
        }
    }

    /// The first `length` data bytes read as UTF-8 text.
    fn string_content(bytes: &[u8], length: usize) -> (res: Result<String, ParseError>)
        ensures
            match (res, spec_string(bytes@, length)) {
                (Ok(s), Ok(t)) => s@ == t,
                (Err(e), Err(f)) => e@ == f,
                _ => false,
            },
    {
        if length > bytes.len() {
            return Err(ParseError::LengthNotEnoughBytes { actual: bytes.len(), expected: length });
        }
        let text_bytes = vstd::slice::slice_subrange(bytes, 0, length);

        match str_from_utf8(text_bytes) {
            Ok(text) => {
                proof {
                    vstd::utf8::encode_utf8_decode_utf8(text@);
                }
                Ok(text.to_owned())
            },
            Err(err) => Err(ParseError::from(err)),
        }
    }
}

/// Two to the power `p`.
pub open spec fn spec_power_of_two(p: nat) -> nat
    decreases p,
{
    if p == 0 {
        1
    } else {
        2 * spec_power_of_two((p - 1) as nat)
    }
}

/// `2_u8.pow(p)`, for the powers that fit in a byte.
fn power_of_two(p: u8) -> (res: u8)
    requires
        p < 8,
    ensures
        res as nat == spec_power_of_two(p as nat),
{
    let mut res: u8 = 1;
    let mut i: u8 = 0;
    while i < p
        invariant
            i <= p < 8,
            res as nat == spec_power_of_two(i as nat),
        decreases p - i,
    {
        proof {
            assert(spec_power_of_two(i as nat) <= 64) by {
                lemma_power_of_two_bound(i as nat);
            }
        }
        res = res * 2;
        i = i + 1;
    }
    res
}

proof fn lemma_power_of_two_bound(p: nat)
    requires
        p < 7,
    ensures
        spec_power_of_two(p) <= 64,
{
    reveal_with_fuel(spec_power_of_two, 7);
}

/// The name of a boolean, as `Display` writes it.
pub open spec fn spec_bool(b: bool) -> Seq<char> {
    if b {
        "true"@
    } else {
        "false"@
    }
}

impl MetaEventModel {
    /// Whether the event can be described: a time signature's denominator must fit in a byte.
    pub open spec fn describable(self) -> bool {
        self matches MetaEventModel::TimeSignature { negative_denominator_power, .. } ==> negative_denominator_power < 8
    }

    /// A description of the event, as in `set tempo: 500000`.
    pub open spec fn spec_to_string(self) -> Seq<char> {
        match self {
            MetaEventModel::ChannelPrefix(value) => "channel prefix: "@ + spec_decimal(value as nat),
            MetaEventModel::Copyright(value) => "copyright: "@ + value,
            MetaEventModel::CuePoint(value) => "cue point: "@ + value,
            MetaEventModel::EndOfTrack => "end of track"@,
            MetaEventModel::InstrumentName(value) => "instrument name: "@ + value,
            MetaEventModel::KeySignature { key, is_minor } => "key signature: "@
                + spec_signed_decimal(key as int) + ", is minor: "@ + spec_bool(is_minor),
            MetaEventModel::Lyric(value) => "lyric: "@ + value,
            MetaEventModel::Marker(marker) => "marker: "@ + marker,
            MetaEventModel::SequenceNumber(value) => "sequence number: "@ + spec_decimal(
                value as nat,
            ),
            MetaEventModel::SequenceTrackName(value) => "sequence/track name: "@ + value,
            MetaEventModel::SequencerSpecific(bytes) => "sequencer specific: "@ + spec_decimal(
                bytes.len(),
            ) + " bytes"@,
            MetaEventModel::SetTempo(value) => "set tempo: "@ + spec_decimal(value as nat),
            MetaEventModel::SmpteOffset { hours, minute, second, frame_rate, fractional_frames } =>
                "smpte offset: "@ + spec_decimal(hours as nat) + "h "@ + spec_decimal(minute as nat)
                + "m "@ + spec_decimal(second as nat) + "s, frame rate: "@ + spec_decimal(
                frame_rate as nat,
            ) + ", fractional frames: "@ + spec_decimal(fractional_frames as nat),
            MetaEventModel::Text(value) => "text: "@ + value,
            MetaEventModel::TimeSignature {
                numerator,
                negative_denominator_power,
                clock_per_metronome_click,
                thirtyseconds_per_quarter_note,
            } => "time signature: "@ + spec_decimal(numerator as nat) + "/"@ + spec_decimal(
                spec_power_of_two(negative_denominator_power as nat),
            ) + ", clocks/tick: "@ + spec_decimal(clock_per_metronome_click as nat)
                + ", thirtyseconds per quarter: "@ + spec_decimal(
                thirtyseconds_per_quarter_note as nat,
            ),
            MetaEventModel::Unknown(items) => "unknown: "@ + spec_decimal_list(items, ", "@),
        }
    }
}

impl MetaEvent {
    /// Whether the event can be described: a time signature's denominator, a power of two, must
    /// fit in a byte.
    pub fn is_describable(&self) -> (res: bool)
        ensures
            res == self@.describable(),
    {
        match self {
            MetaEvent::TimeSignature { negative_denominator_power, .. } => *negative_denominator_power
                < 8,
            _ => true,
        }
    }

    /// A description of the event, as in `set tempo: 500000`.
    pub fn to_string(&self) -> (res: String)
        requires
            self@.describable(),
        ensures
            res@ == self@.spec_to_string(),
    {
        match self {
            Self::ChannelPrefix(value) => {
                let mut res = String::from_str("channel prefix: ");
                res.append(decimal(*value as u64).as_str());
                res
            },
            Self::Copyright(value) => {
                let mut res = String::from_str("copyright: ");
                res.append(value.as_str());
                res
            },
            Self::CuePoint(value) => {
                let mut res = String::from_str("cue point: ");
                res.append(value.as_str());
                res
            },
            Self::EndOfTrack => String::from_str("end of track"),
            Self::InstrumentName(value) => {
                let mut res = String::from_str("instrument name: ");
                res.append(value.as_str());
                res
            },
            Self::KeySignature { key, is_minor } => {
                let mut res = String::from_str("key signature: ");
                res.append(signed_decimal(*key as i64).as_str());
                res.append(", is minor: ");
                res.append(
                    if *is_minor {
                        "true"
                    } else {
                        "false"
                    },
                );
                res
            },
            Self::Lyric(value) => {
                let mut res = String::from_str("lyric: ");
                res.append(value.as_str());
                res
            },
            Self::Marker(marker) => {
                let mut res = String::from_str("marker: ");
                res.append(marker.as_str());
                res
            },
            Self::SequenceNumber(value) => {
                let mut res = String::from_str("sequence number: ");
                res.append(decimal(*value as u64).as_str());
                res
            },
            Self::SequenceTrackName(value) => {
                let mut res = String::from_str("sequence/track name: ");
                res.append(value.as_str());
                res
            },
            Self::SequencerSpecific(bytes) => {
                let mut res = String::from_str("sequencer specific: ");
                res.append(decimal(bytes.len() as u64).as_str());
                res.append(" bytes");
                res
            },
            Self::SetTempo(value) => {
                let mut res = String::from_str("set tempo: ");
                res.append(decimal(*value as u64).as_str());
                res
            },
            Self::SmpteOffset { hours, minute, second, frame_rate, fractional_frames } => {
                let mut res = String::from_str("smpte offset: ");
                res.append(decimal(*hours as u64).as_str());
                res.append("h ");
                res.append(decimal(*minute as u64).as_str());
                res.append("m ");
                res.append(decimal(*second as u64).as_str());
                res.append("s, frame rate: ");
                res.append(decimal(*frame_rate as u64).as_str());
                res.append(", fractional frames: ");
                res.append(decimal(*fractional_frames as u64).as_str());
                res
            },
            Self::Text(value) => {
                let mut res = String::from_str("text: ");
                res.append(value.as_str());
                res
            },
            Self::TimeSignature {
                numerator,
                negative_denominator_power,
                clock_per_metronome_click,
                thirtyseconds_per_quarter_note,
            } => {
                let mut res = String::from_str("time signature: ");
                res.append(decimal(*numerator as u64).as_str());
                res.append("/");
                res.append(decimal(power_of_two(*negative_denominator_power) as u64).as_str());
                res.append(", clocks/tick: ");
                res.append(decimal(*clock_per_metronome_click as u64).as_str());
                res.append(", thirtyseconds per quarter: ");
                res.append(decimal(*thirtyseconds_per_quarter_note as u64).as_str());
                res
            },
            Self::Unknown(items) => {
                let mut res = String::from_str("unknown: ");
                res.append(decimal_list(items.as_slice(), ", ").as_str());
                res
            },
        }
    }
}

impl ParseErrorModel {
    /// Whether `text` is the description of the error; for an invalid text, the decoder's own
    /// description of its error (its `Display`) follows the prefix.
    pub open spec fn describes(self, text: Seq<char>) -> bool {
        match self {
            ParseErrorModel::LengthNotEnoughBytes { actual, expected } => text
                == "length not enough bytes, expeced: "@ + spec_decimal(expected as nat)
                + ", actual: "@ + spec_decimal(actual as nat),
            ParseErrorModel::LengthNotExpected { actual, expected } => text
                == "unexpected length, expected: "@ + spec_decimal(expected as nat) + ", actual: "@
                + spec_decimal(actual as nat),
            ParseErrorModel::TextInvalid(e) => exists|s: String|
                #[trigger] to_string_from_display_ensures::<Utf8Error>(&e, s) && text
                    == "received invalid text: "@ + s@,
        }
    }
}

impl ParseError {
    /// A description of the error.
    pub fn to_string(&self) -> (res: String)
        ensures
            self@.describes(res@),
    {
        match self {
            ParseError::LengthNotEnoughBytes { actual, expected } => {
                let mut res = String::from_str("length not enough bytes, expeced: ");
                res.append(decimal(*expected as u64).as_str());
                res.append(", actual: ");
                res.append(decimal(*actual as u64).as_str());
                res
            },
            ParseError::LengthNotExpected { actual, expected } => {
                let mut res = String::from_str("unexpected length, expected: ");
                res.append(decimal(*expected as u64).as_str());
                res.append(", actual: ");
                res.append(decimal(*actual as u64).as_str());
                res
            },
            ParseError::TextInvalid(err) => {
                let mut res = String::from_str("received invalid text: ");
                let ghost prefix = res@;
                let text = err.to_string();
                res.append(text.as_str());
                let ghost e = *err;
                assert(to_string_from_display_ensures::<Utf8Error>(&e, text) && res@
                    == "received invalid text: "@ + text@);
                assert(self@ matches ParseErrorModel::TextInvalid(x) && x == e);
                res
            },
        }
    }
}

/// A byte read as a signed number: below 128 as itself, from 128 on as itself minus 256.
proof fn lemma_signed_byte(b: u8)
    ensures
        (b as i8) as int == if b < 128 {
            b as int
        } else {
            b as int - 256
        },
{
    assert(b < 128 ==> (b as i8) as int == b as int) by (bit_vector);
    assert(b >= 128 ==> (b as i8) as int == b as int - 256) by (bit_vector);
}

/// The data of the fixed-size meta events, byte by byte, when the declared length is the size of
/// the event and that many bytes are there: a channel prefix is its byte; a key signature is the
/// number of sharps (negative for flats) as a signed byte, and is minor exactly when its second
/// byte is not zero; a sequence number and a tempo are big-endian numbers; an SMPTE offset and a
/// time signature are their bytes in order. Each takes its declared length.
pub proof fn law_meta_event_fixed_data(length: usize, bytes: Seq<u8>)
    ensures
        length == 1 && bytes.len() >= 1 ==> MetaEvent::spec_from_bytes(Type::ChannelPrefix, length, bytes)
            == Ok::<(usize, MetaEventModel), ParseErrorModel>(
            (1, MetaEventModel::ChannelPrefix(bytes[0])),
        ),
        length == 2 && bytes.len() >= 2 ==> (MetaEvent::spec_from_bytes(Type::KeySignature, length, bytes)
            matches Ok((2, MetaEventModel::KeySignature { key, is_minor })) && key as int == (if bytes[0]
            < 128 {
            bytes[0] as int
        } else {
            bytes[0] as int - 256
        }) && is_minor == (bytes[1] != 0)),
        length == 2 && bytes.len() >= 2 ==> (MetaEvent::spec_from_bytes(Type::SequenceNumber, length, bytes)
            matches Ok((2, MetaEventModel::SequenceNumber(number))) && number as int == bytes[0] as int
            * 0x100 + bytes[1] as int),
        length == 3 && bytes.len() >= 3 ==> (MetaEvent::spec_from_bytes(Type::SetTempo, length, bytes)
            matches Ok((3, MetaEventModel::SetTempo(tempo))) && tempo as int == bytes[0] as int
            * 0x1_0000 + bytes[1] as int * 0x100 + bytes[2] as int),
        length == 5 && bytes.len() >= 5 ==> MetaEvent::spec_from_bytes(Type::SmpteOffset, length, bytes)
            == Ok::<(usize, MetaEventModel), ParseErrorModel>(
            (
                5,
                MetaEventModel::SmpteOffset {
                    hours: bytes[0],
                    minute: bytes[1],
                    second: bytes[2],
                    frame_rate: bytes[3],
                    fractional_frames: bytes[4],
                },
            ),
        ),
        length == 4 && bytes.len() >= 4 ==> MetaEvent::spec_from_bytes(Type::TimeSignature, length, bytes)
            == Ok::<(usize, MetaEventModel), ParseErrorModel>(
            (
                4,
                MetaEventModel::TimeSignature {
                    numerator: bytes[0],
                    negative_denominator_power: bytes[1],
                    clock_per_metronome_click: bytes[2],
                    thirtyseconds_per_quarter_note: bytes[3],
                },
            ),
        ),
{
    if bytes.len() >= 2 {
        lemma_signed_byte(bytes[0]);
        let w = bytes.take(2);
        assert(spec_be(w) == w[0] as nat * 0x100 + w[1] as nat) by {
            reveal_with_fuel(spec_be, 3);
            assert(w.drop_last().drop_last().len() == 0);
        }
    }
    if bytes.len() >= 3 {
        let w = bytes.take(3);
        assert(spec_be(w) == w[0] as nat * 0x1_0000 + w[1] as nat * 0x100 + w[2] as nat) by {
            reveal_with_fuel(spec_be, 4);
            assert(w.drop_last().drop_last().drop_last().len() == 0);
        }
    }
}

/// A fixed-size meta event whose declared length is not its size fails, naming both; with the
/// right declared length and too few bytes it fails, naming how many bytes there were.
pub proof fn law_meta_event_fixed_length(typ: Type, length: usize, bytes: Seq<u8>)
    ensures
        ({
            let size: usize = match typ {
                Type::ChannelPrefix => 1,
                Type::KeySignature => 2,
                Type::SequenceNumber => 2,
                Type::SetTempo => 3,
                Type::SmpteOffset => 5,
                Type::TimeSignature => 4,
                _ => 0,
            };
            &&& size > 0 && length != size ==> MetaEvent::spec_from_bytes(typ, length, bytes) == Err::<
                (usize, MetaEventModel),
                ParseErrorModel,
            >(ParseErrorModel::LengthNotExpected { actual: length, expected: size })
            &&& size > 0 && length == size && bytes.len() < size ==> MetaEvent::spec_from_bytes(
                typ,
                length,
                bytes,
            ) == Err::<(usize, MetaEventModel), ParseErrorModel>(
                ParseErrorModel::LengthNotEnoughBytes { actual: bytes.len() as usize, expected: size },
            )
        }),
{
}

/// The meta events that carry text or raw data: the text is the UTF-8 decoding of the first
/// `length` data bytes, and the raw data is those bytes; invalid UTF-8 fails with the decoder's
/// error for them, and fewer than `length` bytes fail, naming how many there were. The end of a
/// track carries nothing and reads whatever its declared length. Each takes its declared length.
pub proof fn law_meta_event_text_data(length: usize, bytes: Seq<u8>)
    ensures
        ({
            let data = bytes.take(length as int);
            &&& length <= bytes.len() && valid_utf8(data) ==> MetaEvent::spec_from_bytes(
                Type::Text,
                length,
                bytes,
            ) == Ok::<(usize, MetaEventModel), ParseErrorModel>(
                (length, MetaEventModel::Text(decode_utf8(data))),
            ) && MetaEvent::spec_from_bytes(Type::Lyric, length, bytes) == Ok::<
                (usize, MetaEventModel),
                ParseErrorModel,
            >((length, MetaEventModel::Lyric(decode_utf8(data))))
                && MetaEvent::spec_from_bytes(Type::SequenceTrackName, length, bytes) == Ok::<
                (usize, MetaEventModel),
                ParseErrorModel,
            >((length, MetaEventModel::SequenceTrackName(decode_utf8(data))))
            &&& length <= bytes.len() && !valid_utf8(data) ==> MetaEvent::spec_from_bytes(
                Type::Text,
                length,
                bytes,
            ) == Err::<(usize, MetaEventModel), ParseErrorModel>(
                ParseErrorModel::TextInvalid(utf8_error(data)),
            )
            &&& length > bytes.len() ==> MetaEvent::spec_from_bytes(Type::Text, length, bytes)
                == Err::<(usize, MetaEventModel), ParseErrorModel>(
                ParseErrorModel::LengthNotEnoughBytes {
                    actual: bytes.len() as usize,
                    expected: length,
                },
            )
            &&& length <= bytes.len() ==> MetaEvent::spec_from_bytes(
                Type::SequencerSpecific,
                length,
                bytes,
            ) == Ok::<(usize, MetaEventModel), ParseErrorModel>(
                (length, MetaEventModel::SequencerSpecific(data)),
            )
            &&& MetaEvent::spec_from_bytes(Type::EndOfTrack, length, bytes) == Ok::<
                (usize, MetaEventModel),
                ParseErrorModel,
            >((length, MetaEventModel::EndOfTrack))
        }),
{
}

} // verus!
