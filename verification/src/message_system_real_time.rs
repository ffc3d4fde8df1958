//! MIDI System Real-Time messages (status bytes `0xF8..=0xFF`).
//!
//! These are single-byte messages used for timing and synchronization. They carry
//! no data bytes and can be interleaved anywhere in a MIDI stream, even between
//! the status and data bytes of another message.
use vstd::prelude::*;

verus! {

#[derive(Debug, PartialEq, Eq, Clone, Copy, Structural)]
pub enum Status {
    ActiveSensing,
    Reset,
    SequenceContinue,
    SequenceStart,
    SequenceStop,
    TimingClock,
}

impl Status {
    pub open spec fn spec_byte(self) -> u8 {
        match self {
            Status::ActiveSensing => 0xFE,
            Status::Reset => 0xFF,
            Status::SequenceContinue => 0xFB,
            Status::SequenceStart => 0xFA,
            Status::SequenceStop => 0xFC,
            Status::TimingClock => 0xF8,
        }
    }

    /// The status whose byte is `value`; any other byte is the error.
    pub open spec fn spec_try_from_byte(value: u8) -> Result<Status, u8> {
        if value == 0xFE {
            Ok(Status::ActiveSensing)
        } else if value == 0xFF {
            Ok(Status::Reset)
        } else if value == 0xFB {
            Ok(Status::SequenceContinue)
        } else if value == 0xFA {
            Ok(Status::SequenceStart)
        } else if value == 0xFC {
            Ok(Status::SequenceStop)
        } else if value == 0xF8 {
            Ok(Status::TimingClock)
        } else {
            Err(value)
        }
    }
}

impl From<Status> for u8 {
    fn from(value: Status) -> (res: Self) {
        match value {
            Status::ActiveSensing => 0xFE,
            Status::Reset => 0xFF,
            Status::SequenceContinue => 0xFB,
            Status::SequenceStart => 0xFA,
            Status::SequenceStop => 0xFC,
            Status::TimingClock => 0xF8,
        }
    }
}

impl vstd::std_specs::convert::FromSpecImpl<Status> for u8 {
    open spec fn obeys_from_spec() -> bool {
        true
    }

    open spec fn from_spec(value: Status) -> u8 {
        value.spec_byte()
    }
}

impl TryFrom<u8> for Status {
    type Error = u8;

    fn try_from(value: u8) -> (res: Result<Self, Self::Error>) {
        Ok(
            match value {
                0xFE => Status::ActiveSensing,
                0xFF => Status::Reset,
                0xFB => Status::SequenceContinue,
                0xFA => Status::SequenceStart,
                0xFC => Status::SequenceStop,
                0xF8 => Status::TimingClock,
                undefined => return Err(undefined),
            },
        )
    }
}

impl vstd::std_specs::convert::TryFromSpecImpl<u8> for Status {
    open spec fn obeys_try_from_spec() -> bool {
        true
    }

    open spec fn try_from_spec(value: u8) -> Result<Status, u8> {
        Status::spec_try_from_byte(value)
    }
}

/// A status and its byte convert into each other.
pub proof fn law_status_byte_roundtrip(status: Status, value: u8)
    ensures
        Status::spec_try_from_byte(status.spec_byte()) == Ok::<Status, u8>(status),
        Status::spec_try_from_byte(value) matches Ok(s) ==> s.spec_byte() == value,
        Status::spec_try_from_byte(value) matches Err(e) ==> e == value,
{
}

#[derive(Debug, PartialEq, Eq, Clone, Copy, Structural)]
pub enum Message {
    ActiveSensing,
    Reset,
    SequenceContinue,
    SequenceStart,
    SequenceStop,
    TimingClock,
}

impl Message {
    /// The message a real-time status stands for; it takes no data bytes.
    pub open spec fn spec_from_bytes(status: Status) -> (usize, Message) {
        match status {
            Status::ActiveSensing => (0, Message::ActiveSensing),
            Status::Reset => (0, Message::Reset),
            Status::SequenceContinue => (0, Message::SequenceContinue),
            Status::SequenceStart => (0, Message::SequenceStart),
            Status::SequenceStop => (0, Message::SequenceStop),
            Status::TimingClock => (0, Message::TimingClock),
        }
    }

    pub fn from_bytes(status: Status) -> (res: (usize, Self))
        ensures
            res == Self::spec_from_bytes(status),
            res.0 == 0,
    {
        match status {
            Status::ActiveSensing => (0, Self::ActiveSensing),
            Status::Reset => (0, Self::Reset),
            Status::SequenceContinue => (0, Self::SequenceContinue),
            Status::SequenceStart => (0, Self::SequenceStart),
            Status::SequenceStop => (0, Self::SequenceStop),
            Status::TimingClock => (0, Self::TimingClock),
        }
    }
}

} // verus!
