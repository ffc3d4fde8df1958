//! MIDI System messages (status bytes `0xF0..=0xFF`), common and real-time alike.
use crate::message_channel_voice::{fourteen_bit, mask_data, spec_fourteen_bit, spec_mask_data};
use crate::message_system_common::{spec_sys_ex, sys_ex};
use vstd::prelude::*;

verus! {

#[derive(Debug, PartialEq, Eq, Clone, Copy, Structural)]
pub enum Status {
    ActiveSensing,
    Reset,
    SequenceContinue,
    SequenceStart,
    SequenceStop,
    SongPositionPointer,
    SongSelect,
    SysExEnd,
    SysExStart,
    TimingClock,
    TuneRequest,
}

impl Status {
    pub open spec fn spec_byte(self) -> u8 {
        match self {
            Status::ActiveSensing => 0xFE,
            Status::Reset => 0xFF,
            Status::SequenceContinue => 0xFB,
            Status::SequenceStart => 0xFA,
            Status::SequenceStop => 0xFC,
            Status::SongPositionPointer => 0xF2,
            Status::SongSelect => 0xF3,
            Status::SysExEnd => 0xF7,
            Status::SysExStart => 0xF0,
            Status::TimingClock => 0xF8,
            Status::TuneRequest => 0xF6,
        }
    }

    /// The status whose byte is `value`; any other byte is the error.
    pub open spec fn spec_try_from_byte(value: u8) -> Result<Status, u8> {
        if value == 0xFE {
            Ok(Status::ActiveSensing)
        } else if value == 0xFF {
            Ok(Status::Reset)
        } else if value == 0xFB {
            Ok(Status::SequenceContinue)
        } else if value == 0xFA {
            Ok(Status::SequenceStart)
        } else if value == 0xFC {
            Ok(Status::SequenceStop)
        } else if value == 0xF2 {
            Ok(Status::SongPositionPointer)
        } else if value == 0xF3 {
            Ok(Status::SongSelect)
        } else if value == 0xF7 {
            Ok(Status::SysExEnd)
        } else if value == 0xF0 {
            Ok(Status::SysExStart)
        } else if value == 0xF8 {
            Ok(Status::TimingClock)
        } else if value == 0xF6 {
            Ok(Status::TuneRequest)
        } else {
            Err(value)
        }
    }
}

impl From<Status> for u8 {
    fn from(value: Status) -> (res: Self) {
        match value {
            Status::ActiveSensing => 0xFE,
            Status::Reset => 0xFF,
            Status::SequenceContinue => 0xFB,
            Status::SequenceStart => 0xFA,
            Status::SequenceStop => 0xFC,
            Status::SongPositionPointer => 0xF2,
            Status::SongSelect => 0xF3,
            Status::SysExEnd => 0xF7,
            Status::SysExStart => 0xF0,
            Status::TimingClock => 0xF8,
            Status::TuneRequest => 0xF6,
        }
    }
}

impl vstd::std_specs::convert::FromSpecImpl<Status> for u8 {
    open spec fn obeys_from_spec() -> bool {
        true
    }

    open spec fn from_spec(value: Status) -> u8 {
        value.spec_byte()
    }
}

impl TryFrom<u8> for Status {
    type Error = u8;

    fn try_from(value: u8) -> (res: Result<Self, Self::Error>) {
        Ok(
            match value {
                0xFE => Status::ActiveSensing,
                0xFF => Status::Reset,
                0xFB => Status::SequenceContinue,
                0xFA => Status::SequenceStart,
                0xFC => Status::SequenceStop,
                0xF2 => Status::SongPositionPointer,
                0xF3 => Status::SongSelect,
                0xF7 => Status::SysExEnd,
                0xF0 => Status::SysExStart,
                0xF8 => Status::TimingClock,
                0xF6 => Status::TuneRequest,
                undefined => return Err(undefined),
            },
        )
    }
}

impl vstd::std_specs::convert::TryFromSpecImpl<u8> for Status {
    open spec fn obeys_try_from_spec() -> bool {
        true
    }

    open spec fn try_from_spec(value: u8) -> Result<Status, u8> {
        Status::spec_try_from_byte(value)
    }
}

/// A status and its byte convert into each other.
pub proof fn law_status_byte_roundtrip(status: Status, value: u8)
    ensures
        Status::spec_try_from_byte(status.spec_byte()) == Ok::<Status, u8>(status),
        Status::spec_try_from_byte(value) matches Ok(s) ==> s.spec_byte() == value,
        Status::spec_try_from_byte(value) matches Err(e) ==> e == value,
{
}

#[derive(Debug, PartialEq, Eq)]
pub enum MessageSystem {
    ActiveSensing,
    Reset,
    SequenceContinue,
    SequenceStart,
    SequenceStop,
    SongPositionPointer(u16),
    SongSelect(u8),
    SysEx(Vec<u8>),
    TimingClock,
    TuneRequest,
}

/// A `MessageSystem` with the data of a System Exclusive message as a sequence.
pub enum MessageSystemModel {
    ActiveSensing,
    Reset,
    SequenceContinue,
    SequenceStart,
    SequenceStop,
    SongPositionPointer(u16),
    SongSelect(u8),
    SysEx(Seq<u8>),
    TimingClock,
    TuneRequest,
}

impl View for MessageSystem {
    type V = MessageSystemModel;

    open spec fn view(&self) -> MessageSystemModel {
        match self {
            MessageSystem::ActiveSensing => MessageSystemModel::ActiveSensing,
            MessageSystem::Reset => MessageSystemModel::Reset,
            MessageSystem::SequenceContinue => MessageSystemModel::SequenceContinue,
            MessageSystem::SequenceStart => MessageSystemModel::SequenceStart,
            MessageSystem::SequenceStop => MessageSystemModel::SequenceStop,
            MessageSystem::SongPositionPointer(v) => MessageSystemModel::SongPositionPointer(*v),
            MessageSystem::SongSelect(v) => MessageSystemModel::SongSelect(*v),
            MessageSystem::SysEx(data) => MessageSystemModel::SysEx(data@),
            MessageSystem::TimingClock => MessageSystemModel::TimingClock,
            MessageSystem::TuneRequest => MessageSystemModel::TuneRequest,
        }
    }
}

#[derive(Debug, PartialEq, Eq, Clone, Copy, Structural)]
pub enum ParseError {
    LengthNotEnoughBytes { actual: usize, expected: usize },
    SysExEndBeforeStart,
    SysExEndMissing,
}

impl MessageSystem {
    /// What the data bytes after a system status make: the message and the number of data bytes
    /// it takes, or what is missing.
    pub open spec fn spec_from_bytes(status: Status, bytes: Seq<u8>) -> Result<
        (usize, MessageSystemModel),
        ParseError,
    > {
        match status {
            Status::ActiveSensing => Ok((0, MessageSystemModel::ActiveSensing)),
            Status::Reset => Ok((0, MessageSystemModel::Reset)),
            Status::SequenceContinue => Ok((0, MessageSystemModel::SequenceContinue)),
            Status::SequenceStart => Ok((0, MessageSystemModel::SequenceStart)),
            Status::SequenceStop => Ok((0, MessageSystemModel::SequenceStop)),
            Status::SongPositionPointer => if bytes.len() < 2 {
                Err(ParseError::LengthNotEnoughBytes { actual: bytes.len() as usize, expected: 2 })
            } else {
                Ok(
                    (
                        2,
                        MessageSystemModel::SongPositionPointer(
                            spec_fourteen_bit(bytes[0], bytes[1]),
                        ),
                    ),
                )
            },
            Status::SongSelect => if bytes.len() < 1 {
                Err(ParseError::LengthNotEnoughBytes { actual: 0, expected: 1 })
            } else {
                Ok((1, MessageSystemModel::SongSelect(spec_mask_data(bytes[0]))))
            },
            Status::SysExEnd => Err(ParseError::SysExEndBeforeStart),
            Status::SysExStart => match spec_sys_ex(bytes) {
                Some((n, data)) => Ok((n, MessageSystemModel::SysEx(data))),
                None => Err(ParseError::SysExEndMissing),
            },
            Status::TimingClock => Ok((0, MessageSystemModel::TimingClock)),
            Status::TuneRequest => Ok((0, MessageSystemModel::TuneRequest)),
        }
    }

    /// Reads the data bytes that follow a system status.
    pub fn from_bytes(status: Status, bytes: &[u8]) -> (res: Result<(usize, Self), ParseError>)
        ensures
            crate::ok_view(res) == Self::spec_from_bytes(status, bytes@),
            res matches Ok((n, _)) ==> n <= bytes@.len(),
    {
        match status {
            Status::ActiveSensing => Ok((0, Self::ActiveSensing)),
            Status::Reset => Ok((0, Self::Reset)),
            Status::SequenceContinue => Ok((0, Self::SequenceContinue)),
            Status::SequenceStart => Ok((0, Self::SequenceStart)),
            Status::SequenceStop => Ok((0, Self::SequenceStop)),
            Status::SongPositionPointer => Self::content_song_position_pointer(bytes),
            Status::SongSelect => Self::content_song_select(bytes),
            Status::SysExEnd => Err(ParseError::SysExEndBeforeStart),
            Status::SysExStart => Self::content_sys_ex(bytes),
            Status::TimingClock => Ok((0, Self::TimingClock)),
            Status::TuneRequest => Ok((0, Self::TuneRequest)),
        }
    }

    fn content_song_position_pointer(bytes: &[u8]) -> (res: Result<(usize, Self), ParseError>)
        ensures
            crate::ok_view(res) == Self::spec_from_bytes(Status::SongPositionPointer, bytes@),
            res matches Ok((n, _)) ==> n <= bytes@.len(),
    {
        if bytes.len() < 1 {
            return Err(ParseError::LengthNotEnoughBytes { actual: 0, expected: 2 });
        }
        let lsb = bytes[0];
        if bytes.len() < 2 {
            return Err(ParseError::LengthNotEnoughBytes { actual: 1, expected: 2 });
        }
        let msb = bytes[1];

        let value = fourteen_bit(lsb, msb);

        Ok((2, Self::SongPositionPointer(value)))
    }

    fn content_song_select(bytes: &[u8]) -> (res: Result<(usize, Self), ParseError>)
        ensures
            crate::ok_view(res) == Self::spec_from_bytes(Status::SongSelect, bytes@),
            res matches Ok((n, _)) ==> n <= bytes@.len(),
    {
        if bytes.len() < 1 {
            return Err(ParseError::LengthNotEnoughBytes { actual: 0, expected: 1 });
        }
        let byte = bytes[0];

        Ok((1, Self::SongSelect(mask_data(byte))))
    }

    fn content_sys_ex(bytes: &[u8]) -> (res: Result<(usize, Self), ParseError>)
        ensures
            crate::ok_view(res) == Self::spec_from_bytes(Status::SysExStart, bytes@),
            res matches Ok((n, _)) ==> n <= bytes@.len(),
    {
        match sys_ex(bytes) {
            Some((consumed, content)) => Ok((consumed, Self::SysEx(content))),
            None => Err(ParseError::SysExEndMissing),
        }
    }
}

/// The data of the system messages: a song position pointer is a 14-bit value, least
/// significant seven bits first; a song select is its byte with the top bit cleared; a System
/// Exclusive message runs to its first end byte; the real-time messages and tune request take no
/// data. Each fails exactly when its bytes run out, and an end byte on its own is no message.
pub proof fn law_system_data(bytes: Seq<u8>)
    requires
        bytes.len() <= usize::MAX,
    ensures
        (MessageSystem::spec_from_bytes(Status::SongPositionPointer, bytes) is Ok) <==> bytes.len()
            >= 2,
        bytes.len() >= 2 ==> (MessageSystem::spec_from_bytes(Status::SongPositionPointer, bytes)
            matches Ok((2, MessageSystemModel::SongPositionPointer(value))) && value as int == (
        bytes[1] % 128) as int * 128 + (bytes[0] % 128) as int),
        (MessageSystem::spec_from_bytes(Status::SongSelect, bytes) is Ok) <==> bytes.len() >= 1,
        bytes.len() >= 1 ==> MessageSystem::spec_from_bytes(Status::SongSelect, bytes) == Ok::<
            (usize, MessageSystemModel),
            ParseError,
        >((1, MessageSystemModel::SongSelect((bytes[0] % 128) as u8))),
        MessageSystem::spec_from_bytes(Status::SysExStart, bytes) matches Ok(
            (n, MessageSystemModel::SysEx(data)),
        ) ==> spec_sys_ex(bytes) == Some((n, data)),
        (MessageSystem::spec_from_bytes(Status::SysExStart, bytes) is Ok) <==> exists|i: int|
            0 <= i < bytes.len() && #[trigger] bytes[i] == crate::message_system_common::SYS_EX_END,
        MessageSystem::spec_from_bytes(Status::SysExEnd, bytes) is Err,
        MessageSystem::spec_from_bytes(Status::TimingClock, bytes) == Ok::<
            (usize, MessageSystemModel),
            ParseError,
        >((0, MessageSystemModel::TimingClock)),
        MessageSystem::spec_from_bytes(Status::SequenceStart, bytes) == Ok::<
            (usize, MessageSystemModel),
            ParseError,
        >((0, MessageSystemModel::SequenceStart)),
        MessageSystem::spec_from_bytes(Status::SequenceStop, bytes) == Ok::<
            (usize, MessageSystemModel),
            ParseError,
        >((0, MessageSystemModel::SequenceStop)),
        MessageSystem::spec_from_bytes(Status::SequenceContinue, bytes) == Ok::<
            (usize, MessageSystemModel),
            ParseError,
        >((0, MessageSystemModel::SequenceContinue)),
        MessageSystem::spec_from_bytes(Status::ActiveSensing, bytes) == Ok::<
            (usize, MessageSystemModel),
            ParseError,
        >((0, MessageSystemModel::ActiveSensing)),
        MessageSystem::spec_from_bytes(Status::Reset, bytes) == Ok::<
            (usize, MessageSystemModel),
            ParseError,
        >((0, MessageSystemModel::Reset)),
{
    crate::message_system_common::law_sys_ex(bytes);
}

} // verus!
