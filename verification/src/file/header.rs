//! The header chunk of a Standard MIDI File.
use crate::{be_u16, be_u32, bytes_eq, spec_be, SliceGetFixed};
use crate::text::{byte_list, decimal, spec_byte_list, spec_decimal};
use vstd::prelude::*;
use vstd::string::*;

verus! {

/// The type of the header chunk.
pub const CHUNK_TYPE: &'static [u8; 4] = &[0x4D, 0x54, 0x68, 0x64];

/// The bytes of `CHUNK_TYPE`.
pub open spec fn spec_chunk_type() -> Seq<u8> {
    seq![0x4Du8, 0x54u8, 0x68u8, 0x64u8]
}

#[derive(Debug, PartialEq, Eq, Clone, Copy, Structural)]
pub struct Header {
    pub division: Division,
    pub format: Format,
    pub number_of_tracks: u16,
}

#[derive(Debug, PartialEq, Eq, Clone, Copy, Structural)]
pub enum Format {
    SingleTrack,
    MultiTrack,
    MultiTrackIndependent,
}

impl Format {
    /// The format a header names: 0, 1 or 2; any other number is the error.
    pub open spec fn spec_try_from(value: u16) -> Result<Format, u16> {
        if value == 0 {
            Ok(Format::SingleTrack)
        } else if value == 1 {
            Ok(Format::MultiTrack)
        } else if value == 2 {
            Ok(Format::MultiTrackIndependent)
        } else {
            Err(value)
        }
    }
}

impl TryFrom<u16> for Format {
    type Error = u16;

    /// Returns the `value` if the variant could not be matched.
    fn try_from(value: u16) -> (res: Result<Self, Self::Error>) {
        Ok(
            match value {
                0 => Self::SingleTrack,
                1 => Self::MultiTrack,
                2 => Self::MultiTrackIndependent,
                n => return Err(n),
            },
        )
    }
}

impl vstd::std_specs::convert::TryFromSpecImpl<u16> for Format {
    open spec fn obeys_try_from_spec() -> bool {
        true
    }

    open spec fn try_from_spec(value: u16) -> Result<Format, u16> {
        Format::spec_try_from(value)
    }
}

#[derive(Debug, PartialEq, Eq, Clone, Copy, Structural)]
pub enum Division {
    TicksPerQuarterNote(u16),
    DeltaTime { frames_per_second: u8, ticks_per_frame: u8 },
}

impl Division {
    /// The division a header names: ticks per quarter note when the top bit is clear, else the
    /// negated frames per second in the upper byte and the ticks per frame in the lower byte.
    pub open spec fn spec_from(value: u16) -> Division {
        if value < 0x8000 {
            Division::TicksPerQuarterNote(value)
        } else {
            Division::DeltaTime {
                frames_per_second: (256 - value / 256) as u8,
                ticks_per_frame: (value % 256) as u8,
            }
        }
    }
}

impl From<u16> for Division {
    fn from(value: u16) -> (res: Self) {
        proof {
            assert(value & 0x8000 == 0 <==> value < 0x8000) by (bit_vector);
            assert(value >> 8 == value / 256) by (bit_vector);
            assert(value & 0xFF == value % 256) by (bit_vector);
        }
        if value & 0x80_00 == 0 {
            Self::TicksPerQuarterNote(value)
        } else {
            let frames_per_second = (value >> 8) as u8;
            let ticks_per_frame = (value & 0xFF) as u8;
            // The upper byte is a negative two's-complement number; its magnitude is the rate.
            let frames_per_second = if frames_per_second >= 0x80 {
                (0x100 - frames_per_second as u16) as u8
            } else {
                frames_per_second
            };
            Self::DeltaTime { frames_per_second, ticks_per_frame }
        }
    }
}

impl vstd::std_specs::convert::FromSpecImpl<u16> for Division {
    open spec fn obeys_from_spec() -> bool {
        true
    }

    open spec fn from_spec(value: u16) -> Division {
        Division::spec_from(value)
    }
}

#[derive(Debug, PartialEq, Eq)]
pub enum ParseError {
    ChunkTypeInvalid(Vec<u8>),
    DivisionMissing,
    FormatInvalid(u16),
    FormatMissing,
    LengthMissing,
    LengthNotExpected { actual: usize, expected: usize },
    NumberOfTracksMissing,
    NumberOfTracksNotOne(u16),
}

/// A `ParseError` with an invalid chunk type as a sequence.
pub enum ParseErrorModel {
    ChunkTypeInvalid(Seq<u8>),
    DivisionMissing,
    FormatInvalid(u16),
    FormatMissing,
    LengthMissing,
    LengthNotExpected { actual: usize, expected: usize },
    NumberOfTracksMissing,
    NumberOfTracksNotOne(u16),
}

impl View for ParseError {
    type V = ParseErrorModel;

    open spec fn view(&self) -> ParseErrorModel {
        match self {
            ParseError::ChunkTypeInvalid(t) => ParseErrorModel::ChunkTypeInvalid(t@),
            ParseError::DivisionMissing => ParseErrorModel::DivisionMissing,
            ParseError::FormatInvalid(f) => ParseErrorModel::FormatInvalid(*f),
            ParseError::FormatMissing => ParseErrorModel::FormatMissing,
            ParseError::LengthMissing => ParseErrorModel::LengthMissing,
            ParseError::LengthNotExpected { actual, expected } =>
                ParseErrorModel::LengthNotExpected { actual: *actual, expected: *expected },
            ParseError::NumberOfTracksMissing => ParseErrorModel::NumberOfTracksMissing,
            ParseError::NumberOfTracksNotOne(n) => ParseErrorModel::NumberOfTracksNotOne(*n),
        }
    }
}

/// A header read from a file is 14 bytes long, names its format by 0, 1 or 2, announces exactly
/// one track when its format is single-track, and starts with `MThd` and the length 6.
pub proof fn law_header_valid(bytes: Seq<u8>)
    ensures
        Header::spec_from_bytes(bytes) matches Ok((n, header)) ==> {
            &&& n == 14 <= bytes.len()
            &&& bytes.take(4) == spec_chunk_type()
            &&& spec_be(bytes.subrange(4, 8)) == 6
            &&& Format::spec_try_from(spec_be(bytes.subrange(8, 10)) as u16) == Ok::<Format, u16>(
                header.format,
            )
            &&& header.format == Format::SingleTrack ==> header.number_of_tracks == 1
        },
{
}

/// A header is read exactly when the file starts with `MThd`, the length bytes `0 0 0 6`, a
/// format number 0, 1 or 2, a number of tracks (exactly one for format 0) and a division, each
/// number a big-endian 16-bit value; the header then holds those numbers.
pub proof fn law_header_fields(bytes: Seq<u8>)
    ensures
        ({
            let format_number = bytes[8] as int * 0x100 + bytes[9] as int;
            let tracks = bytes[10] as int * 0x100 + bytes[11] as int;
            let division = bytes[12] as int * 0x100 + bytes[13] as int;
            (Header::spec_from_bytes(bytes) is Ok) <==> (bytes.len() >= 14 && bytes[0] == 0x4D
                && bytes[1] == 0x54 && bytes[2] == 0x68 && bytes[3] == 0x64 && bytes[4] == 0
                && bytes[5] == 0 && bytes[6] == 0 && bytes[7] == 6 && 0 <= format_number <= 2 && (
            format_number == 0 ==> tracks == 1))
        }),
        Header::spec_from_bytes(bytes) matches Ok((_, header)) ==> {
            &&& header.number_of_tracks as int == bytes[10] as int * 0x100 + bytes[11] as int
            &&& header.division == Division::spec_from(
                (bytes[12] as int * 0x100 + bytes[13] as int) as u16,
            )
            &&& header.format == if bytes[9] == 0 {
                Format::SingleTrack
            } else if bytes[9] == 1 {
                Format::MultiTrack
            } else {
                Format::MultiTrackIndependent
            }
        },
{
    if bytes.len() >= 14 {
        let w = bytes.subrange(4, 8);
        assert(spec_be(w) == w[0] as nat * 0x100_0000 + w[1] as nat * 0x1_0000 + w[2] as nat
            * 0x100 + w[3] as nat) by {
            reveal_with_fuel(spec_be, 5);
            assert(w.drop_last().drop_last().drop_last().drop_last().len() == 0);
        }
        lemma_be_pair(bytes.subrange(8, 10));
        lemma_be_pair(bytes.subrange(10, 12));
        lemma_be_pair(bytes.subrange(12, 14));
        assert(bytes.take(4) == seq![bytes[0], bytes[1], bytes[2], bytes[3]]);
    }
}

/// Two bytes read big-endian.
proof fn lemma_be_pair(w: Seq<u8>)
    requires
        w.len() == 2,
    ensures
        spec_be(w) == w[0] as nat * 0x100 + w[1] as nat,
{
    reveal_with_fuel(spec_be, 3);
    assert(w.drop_last().drop_last().len() == 0);
}

/// Division: ticks per quarter note below `0x8000`, else a frame rate from 1 to 128 in the upper
/// byte, stored negated, and the ticks per frame in the lower byte.
pub proof fn law_division(value: u16)
    ensures
        (Division::spec_from(value) is TicksPerQuarterNote) <==> value < 0x8000,
        value < 0x8000 ==> Division::spec_from(value) == Division::TicksPerQuarterNote(value),
        Division::spec_from(value) matches Division::DeltaTime { frames_per_second, ticks_per_frame }
            ==> 1 <= frames_per_second <= 128 && frames_per_second + value / 256 == 256
            && ticks_per_frame == value % 256,
{
}

impl Header {
    /// What the front of a file makes: the header and the number of bytes it takes, or the first
    /// thing about it that is missing or wrong.
    pub open spec fn spec_from_bytes(bytes: Seq<u8>) -> Result<(usize, Header), ParseErrorModel> {
        let chunk_type = if bytes.len() >= 4 {
            bytes.take(4)
        } else {
            bytes
        };
        let length = spec_be(bytes.subrange(4, 8));
        let format = Format::spec_try_from(spec_be(bytes.subrange(8, 10)) as u16);
        let number_of_tracks = spec_be(bytes.subrange(10, 12)) as u16;
        if chunk_type != spec_chunk_type() {
            Err(ParseErrorModel::ChunkTypeInvalid(chunk_type))
        } else if bytes.len() < 8 {
            Err(ParseErrorModel::LengthMissing)
        } else if length != 6 {
            Err(ParseErrorModel::LengthNotExpected { actual: length as usize, expected: 6 })
        } else if bytes.len() < 10 {
            Err(ParseErrorModel::FormatMissing)
        } else if format is Err {
            Err(ParseErrorModel::FormatInvalid(format->Err_0))
        } else if bytes.len() < 12 {
            Err(ParseErrorModel::NumberOfTracksMissing)
        } else if format->Ok_0 == Format::SingleTrack && number_of_tracks != 1 {
            Err(ParseErrorModel::NumberOfTracksNotOne(number_of_tracks))
        } else if bytes.len() < 14 {
            Err(ParseErrorModel::DivisionMissing)
        } else {
            Ok(
                (
                    14,
                    Header {
                        division: Division::spec_from(spec_be(bytes.subrange(12, 14)) as u16),
                        format: format->Ok_0,
                        number_of_tracks,
                    },
                ),
            )
        }
    }

    /// Reads the header chunk at the front of a file.
    pub fn from_bytes(bytes: &[u8]) -> (res: Result<(usize, Self), ParseError>)
        ensures
            crate::err_view(res) == Self::spec_from_bytes(bytes@),
            res matches Ok((n, _)) ==> n == 14 && n <= bytes@.len(),
    {
        let chunk_type = if bytes.len() >= 4 {
            vstd::slice::slice_subrange(bytes, 0, 4)
        } else {
            bytes
        };
        if !bytes_eq(chunk_type, CHUNK_TYPE.as_slice()) {
            proof {
                assert(CHUNK_TYPE@ == spec_chunk_type());
            }
            return Err(ParseError::ChunkTypeInvalid(vstd::slice::slice_to_vec(chunk_type)));
        }
        let length = match bytes.get_fixed::<4>(4) {
            Some(length_bytes) => crate::u32_as_usize(be_u32(length_bytes)),
            None => return Err(ParseError::LengthMissing),
        };

        if length != 6 {
            return Err(ParseError::LengthNotExpected { actual: length, expected: 6 });
        }

        let format: Format = match bytes.get_fixed::<2>(8) {
            Some(format_bytes) => match Format::try_from(be_u16(format_bytes)) {
                Ok(format) => format,
                Err(n) => return Err(ParseError::FormatInvalid(n)),
            },
            None => return Err(ParseError::FormatMissing),
        };

        let number_of_tracks = match bytes.get_fixed::<2>(10) {
            Some(tracks_bytes) => be_u16(tracks_bytes),
            None => return Err(ParseError::NumberOfTracksMissing),
        };

        if format == Format::SingleTrack && number_of_tracks != 1 {
            return Err(ParseError::NumberOfTracksNotOne(number_of_tracks));
        }

        let division: Division = match bytes.get_fixed::<2>(12) {
            Some(division_bytes) => be_u16(division_bytes).into(),
            None => return Err(ParseError::DivisionMissing),
        };

        Ok((14, Self { division, format, number_of_tracks }))
    }
}

impl Format {
    /// A description of the format.
    pub open spec fn spec_to_string(self) -> Seq<char> {
        match self {
            Format::SingleTrack => "single track"@,
            Format::MultiTrack => "multi track"@,
            Format::MultiTrackIndependent => "multi track independent"@,
        }
    }

    /// A description of the format.
    pub fn to_string(&self) -> (res: String)
        ensures
            res@ == self.spec_to_string(),
    {
        String::from_str(
            match self {
                Format::SingleTrack => "single track",
                Format::MultiTrack => "multi track",
                Format::MultiTrackIndependent => "multi track independent",
            },
        )
    }
}

impl Division {
    /// A description of the division.
    pub open spec fn spec_to_string(self) -> Seq<char> {
        match self {
            Division::TicksPerQuarterNote(ticks) => "ticks per quarter note: "@ + spec_decimal(
                ticks as nat,
            ),
            Division::DeltaTime { frames_per_second, ticks_per_frame } => "delta time - fps: "@
                + spec_decimal(frames_per_second as nat) + ", tpf: "@ + spec_decimal(
                ticks_per_frame as nat,
            ),
        }
    }

    /// A description of the division.
    pub fn to_string(&self) -> (res: String)
        ensures
            res@ == self.spec_to_string(),
    {
        match self {
            Division::TicksPerQuarterNote(ticks) => {
                let mut res = String::from_str("ticks per quarter note: ");
                res.append(decimal(*ticks as u64).as_str());
                res
            },
            Division::DeltaTime { frames_per_second, ticks_per_frame } => {
                let mut res = String::from_str("delta time - fps: ");
                res.append(decimal(*frames_per_second as u64).as_str());
                res.append(", tpf: ");
                res.append(decimal(*ticks_per_frame as u64).as_str());
                res
            },
        }
    }
}

/// What `Debug` writes for `String::from_utf8` on the given bytes.
pub uninterp spec fn spec_utf8_debug(bytes: Seq<u8>) -> Seq<char>;

/// `Debug` of `String::from_utf8(bytes)`: the quoted and escaped text, or the decoding error. The
/// text is named by `spec_utf8_debug` and not spelled out.
#[verifier::external_body]
fn utf8_debug(bytes: &[u8]) -> (res: String)
    ensures
        res@ == spec_utf8_debug(bytes@),
{
    format!("{:?}", String::from_utf8(bytes.to_vec()))
}

impl ParseErrorModel {
    /// A description of the error.
    pub open spec fn spec_to_string(self) -> Seq<char> {
        match self {
            ParseErrorModel::ChunkTypeInvalid(items) => "chunk type is invalid, str repr: "@
                + spec_utf8_debug(items) + ", bytes: "@ + spec_byte_list(items),
            ParseErrorModel::DivisionMissing => "division is missing"@,
            ParseErrorModel::FormatInvalid(format) => "format invalid: "@ + spec_decimal(
                format as nat,
            ),
            ParseErrorModel::FormatMissing => "format is missing"@,
            ParseErrorModel::LengthMissing => "length is missing"@,
            ParseErrorModel::LengthNotExpected { actual, expected } =>
                "length not expected, expected: "@ + spec_decimal(expected as nat) + ", actual: "@
                + spec_decimal(actual as nat),
            ParseErrorModel::NumberOfTracksMissing => "number of tracks missing"@,
            ParseErrorModel::NumberOfTracksNotOne(n) =>
                "expected single track, as declared in format, but received "@ + spec_decimal(
                n as nat,
            ) + " tracks"@,
        }
    }
}

impl ParseError {
    /// A description of the error.
    pub fn to_string(&self) -> (res: String)
        ensures
            res@ == self@.spec_to_string(),
    {
        match self {
            ParseError::ChunkTypeInvalid(items) => {
                let mut res = String::from_str("chunk type is invalid, str repr: ");
                res.append(utf8_debug(items.as_slice()).as_str());
                res.append(", bytes: ");
                res.append(byte_list(items.as_slice()).as_str());
                res
            },
            ParseError::DivisionMissing => String::from_str("division is missing"),
            ParseError::FormatInvalid(format) => {
                let mut res = String::from_str("format invalid: ");
                res.append(decimal(*format as u64).as_str());
                res
            },
            ParseError::FormatMissing => String::from_str("format is missing"),
            ParseError::LengthMissing => String::from_str("length is missing"),
            ParseError::LengthNotExpected { actual, expected } => {
                let mut res = String::from_str("length not expected, expected: ");
                res.append(decimal(*expected as u64).as_str());
                res.append(", actual: ");
                res.append(decimal(*actual as u64).as_str());
                res
            },
            ParseError::NumberOfTracksMissing => String::from_str("number of tracks missing"),
            ParseError::NumberOfTracksNotOne(n) => {
                let mut res = String::from_str(
                    "expected single track, as declared in format, but received ",
                );
                res.append(decimal(*n as u64).as_str());
                res.append(" tracks");
                res
            },
        }
    }
}

} // verus!
