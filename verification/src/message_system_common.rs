//! MIDI System Common messages (status bytes `0xF0..=0xF7`).
//!
//! These messages are intended for all receivers in a MIDI system. They include
//! System Exclusive (SysEx), Song Position Pointer, Song Select, and Tune Request.
//!
//! Unlike System Real-Time messages, these may carry data bytes and cannot be
//! interleaved within other messages.
use crate::message_channel_voice::{fourteen_bit, mask_data, spec_fourteen_bit, spec_mask_data};
use crate::text::{decimal, spec_decimal};
use vstd::prelude::*;
use vstd::string::*;

verus! {

/// The byte that ends a System Exclusive message.
pub const SYS_EX_END: u8 = 0xF7;

#[derive(Debug, PartialEq, Eq, Clone, Copy, Structural)]
pub enum Status {
    SongPositionPointer,
    SongSelect,
    SysExEnd,
    SysExStart,
    TuneRequest,
}

impl Status {
    pub open spec fn spec_byte(self) -> u8 {
        match self {
            Status::SongPositionPointer => 0xF2,
            Status::SongSelect => 0xF3,
            Status::SysExEnd => 0xF7,
            Status::SysExStart => 0xF0,
            Status::TuneRequest => 0xF6,
        }
    }

    /// The status whose byte is `value`; any other byte is the error.
    pub open spec fn spec_try_from_byte(value: u8) -> Result<Status, u8> {
        if value == 0xF2 {
            Ok(Status::SongPositionPointer)
        } else if value == 0xF3 {
            Ok(Status::SongSelect)
        } else if value == 0xF7 {
            Ok(Status::SysExEnd)
        } else if value == 0xF0 {
            Ok(Status::SysExStart)
        } else if value == 0xF6 {
            Ok(Status::TuneRequest)
        } else {
            Err(value)
        }
    }
}

impl From<Status> for u8 {
    fn from(value: Status) -> (res: Self) {
        match value {
            Status::SongPositionPointer => 0xF2,
            Status::SongSelect => 0xF3,
            Status::SysExEnd => 0xF7,
            Status::SysExStart => 0xF0,
            Status::TuneRequest => 0xF6,
        }
    }
}

impl vstd::std_specs::convert::FromSpecImpl<Status> for u8 {
    open spec fn obeys_from_spec() -> bool {
        true
    }

    open spec fn from_spec(value: Status) -> u8 {
        value.spec_byte()
    }
}

impl TryFrom<u8> for Status {
    type Error = u8;

    fn try_from(value: u8) -> (res: Result<Self, Self::Error>) {
        Ok(
            match value {
                0xF2 => Status::SongPositionPointer,
                0xF3 => Status::SongSelect,
                0xF7 => Status::SysExEnd,
                0xF0 => Status::SysExStart,
                0xF6 => Status::TuneRequest,
                undefined => return Err(undefined),
            },
        )
    }
}

impl vstd::std_specs::convert::TryFromSpecImpl<u8> for Status {
    open spec fn obeys_try_from_spec() -> bool {
        true
    }

    open spec fn try_from_spec(value: u8) -> Result<Status, u8> {
        Status::spec_try_from_byte(value)
    }
}

/// A status and its byte convert into each other.
pub proof fn law_status_byte_roundtrip(status: Status, value: u8)
    ensures
        Status::spec_try_from_byte(status.spec_byte()) == Ok::<Status, u8>(status),
        Status::spec_try_from_byte(value) matches Ok(s) ==> s.spec_byte() == value,
        Status::spec_try_from_byte(value) matches Err(e) ==> e == value,
{
}

#[derive(Debug, PartialEq, Eq)]
pub enum Message {
    SongPositionPointer(u16),
    SongSelect(u8),
    SysEx(Vec<u8>),
    TuneRequest,
}

/// A `Message` with the data of a System Exclusive message as a sequence.
pub enum MessageModel {
    SongPositionPointer(u16),
    SongSelect(u8),
    SysEx(Seq<u8>),
    TuneRequest,
}

impl View for Message {
    type V = MessageModel;

    open spec fn view(&self) -> MessageModel {
        match self {
            Message::SongPositionPointer(v) => MessageModel::SongPositionPointer(*v),
            Message::SongSelect(v) => MessageModel::SongSelect(*v),
            Message::SysEx(data) => MessageModel::SysEx(data@),
            Message::TuneRequest => MessageModel::TuneRequest,
        }
    }
}

#[derive(Debug, PartialEq, Eq, Clone, Copy, Structural)]
pub enum ParseError {
    DataNotEnoughBytes { available: usize, length: usize },
    SysExEndBeforeStart,
    SysExEndMissing,
}

/// Every byte with its top bit cleared.
pub open spec fn spec_mask_all(bytes: Seq<u8>) -> Seq<u8> {
    bytes.map_values(|b: u8| spec_mask_data(b))
}

/// Clears the top bit of every byte.
pub fn mask_all(bytes: &[u8]) -> (res: Vec<u8>)
    ensures
        res@ == spec_mask_all(bytes@),
{
    let mut out: Vec<u8> = Vec::new();
    let mut i: usize = 0;
    while i < bytes.len()
        invariant
            i <= bytes@.len(),
            out@ == spec_mask_all(bytes@.take(i as int)),
        decreases bytes@.len() - i,
    {
        out.push(mask_data(bytes[i]));
        i = i + 1;
        assert(spec_mask_all(bytes@.take(i as int)) =~= spec_mask_all(bytes@.take(i - 1)).push(
            spec_mask_data(bytes@[i - 1]),
        ));
    }
    assert(bytes@.take(i as int) =~= bytes@);
    out
}

/// The data of a System Exclusive message: the bytes before the first end byte, masked, and the
/// number of bytes taken, end byte included; `None` when no end byte follows.
pub open spec fn spec_sys_ex(bytes: Seq<u8>) -> Option<(usize, Seq<u8>)> {
    match crate::spec_position(bytes, SYS_EX_END) {
        Some(end) => Some(((end + 1) as usize, spec_mask_all(bytes.take(end)))),
        None => None,
    }
}

/// The data of the System Common messages: a song position pointer is a 14-bit value, least
/// significant seven bits first; a song select is its byte with the top bit cleared; a System
/// Exclusive message runs to its first end byte. Each fails exactly when its bytes run out, and an
/// end byte on its own is no message.
pub proof fn law_common_data(bytes: Seq<u8>)
    requires
        bytes.len() <= usize::MAX,
    ensures
        (Message::spec_from_bytes(Status::SongPositionPointer, bytes) is Ok) <==> bytes.len() >= 2,
        bytes.len() >= 2 ==> (Message::spec_from_bytes(Status::SongPositionPointer, bytes) matches Ok(
            (2, MessageModel::SongPositionPointer(value)),
        ) && value as int == (bytes[1] % 128) as int * 128 + (bytes[0] % 128) as int),
        (Message::spec_from_bytes(Status::SongSelect, bytes) is Ok) <==> bytes.len() >= 1,
        bytes.len() >= 1 ==> Message::spec_from_bytes(Status::SongSelect, bytes) == Ok::<
            (usize, MessageModel),
            ParseError,
        >((1, MessageModel::SongSelect((bytes[0] % 128) as u8))),
        Message::spec_from_bytes(Status::SysExStart, bytes) matches Ok((n, MessageModel::SysEx(data)))
            ==> spec_sys_ex(bytes) == Some((n, data)),
        (Message::spec_from_bytes(Status::SysExStart, bytes) is Ok) <==> exists|i: int|
            0 <= i < bytes.len() && #[trigger] bytes[i] == SYS_EX_END,
        Message::spec_from_bytes(Status::SysExEnd, bytes) is Err,
        Message::spec_from_bytes(Status::TuneRequest, bytes) == Ok::<(usize, MessageModel), ParseError>(
            (0, MessageModel::TuneRequest),
        ),
{
    law_sys_ex(bytes);
}

/// The data of a System Exclusive message holds every byte before the first end byte, masked,
/// and none after it.
pub proof fn law_sys_ex(bytes: Seq<u8>)
    requires
        bytes.len() <= usize::MAX,
    ensures
        spec_sys_ex(bytes) matches Some((n, data)) ==> {
            &&& 1 <= n <= bytes.len()
            &&& bytes[n - 1] == SYS_EX_END
            &&& data.len() == n - 1
            &&& forall|i: int| 0 <= i < n - 1 ==> bytes[i] != SYS_EX_END && #[trigger] data[i]
                == spec_mask_data(bytes[i]) && data[i] < 128
        },
        spec_sys_ex(bytes) is None ==> forall|i: int| 0 <= i < bytes.len() ==> bytes[i]
            != SYS_EX_END,
{
    crate::lemma_spec_position(bytes, SYS_EX_END);
    if let Some(end) = crate::spec_position(bytes, SYS_EX_END) {
        let data = spec_mask_all(bytes.take(end));
        assert forall|i: int| 0 <= i < end implies bytes[i] != SYS_EX_END && #[trigger] data[i]
            == spec_mask_data(bytes[i]) && data[i] < 128 by {
            assert(bytes.take(end)[i] == bytes[i]);
        }
    }
}

/// Reads the data of a System Exclusive message up to its end byte.
pub fn sys_ex(bytes: &[u8]) -> (res: Option<(usize, Vec<u8>)>)
    ensures
        match (res, spec_sys_ex(bytes@)) {
            (Some((n, data)), Some((m, d))) => n == m && data@ == d,
            (None, None) => true,
            _ => false,
        },
        res matches Some((n, _)) ==> 1 <= n <= bytes@.len(),
{
    proof {
        crate::lemma_spec_position(bytes@, SYS_EX_END);
    }
    let pos_end = match crate::position(bytes, SYS_EX_END) {
        Some(pos_end) => pos_end,
        None => return None,
    };
    assert(pos_end < bytes.len());
    let content = vstd::slice::slice_subrange(bytes, 0, pos_end);
    let content = mask_all(content);

    Some((pos_end + 1, content))
}

impl Message {
    /// What the data bytes after a status make: the message and the number of data bytes it
    /// takes, or what is missing.
    pub open spec fn spec_from_bytes(status: Status, bytes: Seq<u8>) -> Result<
        (usize, MessageModel),
        ParseError,
    > {
        match status {
            Status::SongPositionPointer => if bytes.len() < 2 {
                Err(ParseError::DataNotEnoughBytes { available: bytes.len() as usize, length: 2 })
            } else {
                Ok((2, MessageModel::SongPositionPointer(spec_fourteen_bit(bytes[0], bytes[1]))))
            },
            Status::SongSelect => if bytes.len() < 1 {
                Err(ParseError::DataNotEnoughBytes { available: 0, length: 1 })
            } else {
                Ok((1, MessageModel::SongSelect(spec_mask_data(bytes[0]))))
            },
            Status::SysExEnd => Err(ParseError::SysExEndBeforeStart),
            Status::SysExStart => match spec_sys_ex(bytes) {
                Some((n, data)) => Ok((n, MessageModel::SysEx(data))),
                None => Err(ParseError::SysExEndMissing),
            },
            Status::TuneRequest => Ok((0, MessageModel::TuneRequest)),
        }
    }

    /// Reads the data bytes that follow a System Common status.
    pub fn from_bytes(status: Status, bytes: &[u8]) -> (res: Result<(usize, Self), ParseError>)
        ensures
            crate::ok_view(res) == Self::spec_from_bytes(status, bytes@),
            res matches Ok((n, _)) ==> n <= bytes@.len(),
    {
        match status {
            Status::SongPositionPointer => Self::content_song_position_pointer(bytes),
            Status::SongSelect => Self::content_song_select(bytes),
            Status::SysExEnd => Err(ParseError::SysExEndBeforeStart),
            Status::SysExStart => Self::content_sys_ex(bytes),
            Status::TuneRequest => Ok((0, Self::TuneRequest)),
        }
    }

    fn content_song_position_pointer(bytes: &[u8]) -> (res: Result<(usize, Self), ParseError>)
        ensures
            crate::ok_view(res) == Self::spec_from_bytes(Status::SongPositionPointer, bytes@),
            res matches Ok((n, _)) ==> n <= bytes@.len(),
    {
        if bytes.len() < 1 {
            return Err(ParseError::DataNotEnoughBytes { available: 0, length: 2 });
        }
        let lsb = bytes[0];
        if bytes.len() < 2 {
            return Err(ParseError::DataNotEnoughBytes { available: 1, length: 2 });
        }
        let msb = bytes[1];

        let value = fourteen_bit(lsb, msb);

        Ok((2, Self::SongPositionPointer(value)))
    }

    fn content_song_select(bytes: &[u8]) -> (res: Result<(usize, Self), ParseError>)
        ensures
            crate::ok_view(res) == Self::spec_from_bytes(Status::SongSelect, bytes@),
            res matches Ok((n, _)) ==> n <= bytes@.len(),
    {
        if bytes.len() < 1 {
            return Err(ParseError::DataNotEnoughBytes { available: 0, length: 1 });
        }
        let byte = bytes[0];

        Ok((1, Self::SongSelect(mask_data(byte))))
    }

    fn content_sys_ex(bytes: &[u8]) -> (res: Result<(usize, Self), ParseError>)
        ensures
            crate::ok_view(res) == Self::spec_from_bytes(Status::SysExStart, bytes@),
            res matches Ok((n, _)) ==> n <= bytes@.len(),
    {
        match sys_ex(bytes) {
            Some((consumed, content)) => Ok((consumed, Self::SysEx(content))),
            None => Err(ParseError::SysExEndMissing),
        }
    }
}

impl ParseError {
    /// A description of the error.
    pub open spec fn spec_to_string(self) -> Seq<char> {
        match self {
            ParseError::DataNotEnoughBytes { available, length } =>
                "data not enough bytes, length: "@ + spec_decimal(length as nat) + ", available: "@
                + spec_decimal(available as nat),
            ParseError::SysExEndBeforeStart => "sys ex end before start"@,
            ParseError::SysExEndMissing => "sys ex end missing"@,
        }
    }

    /// A description of the error.
    pub fn to_string(&self) -> (res: String)
        ensures
            res@ == self.spec_to_string(),
    {
        match self {
            ParseError::DataNotEnoughBytes { available, length } => {
                let mut res = String::from_str("data not enough bytes, length: ");
                res.append(decimal(*length as u64).as_str());
                res.append(", available: ");
                res.append(decimal(*available as u64).as_str());
                res
            },
            ParseError::SysExEndBeforeStart => String::from_str("sys ex end before start"),
            ParseError::SysExEndMissing => String::from_str("sys ex end missing"),
        }
    }
}

} // verus!
