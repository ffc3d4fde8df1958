//! MIDI Channel Voice messages: a status nibble and a channel, followed by one or two data bytes.
use crate::note::Note;
use crate::text::{decimal, spec_decimal};
use vstd::prelude::*;
use vstd::string::*;

verus! {

#[derive(Debug, PartialEq, Eq, Clone, Copy, Structural)]
pub enum Status {
    Pressure,
    ControlChange,
    NoteOff,
    NoteOn,
    PitchWheelChange,
    Polyphonic,
    ProgramChange,
}

impl Status {
    /// The status byte of the message kind on channel 0 (its upper nibble).
    pub open spec fn spec_byte(self) -> u8 {
        match self {
            Status::Pressure => 0xD0,
            Status::NoteOff => 0x80,
            Status::NoteOn => 0x90,
            Status::ControlChange => 0xB0,
            Status::PitchWheelChange => 0xE0,
            Status::ProgramChange => 0xC0,
            Status::Polyphonic => 0xA0,
        }
    }

    /// The message kind of a status byte, read from its upper nibble; an upper nibble that names no
    /// kind is the error, as the byte with its lower nibble cleared.
    pub open spec fn spec_try_from_byte(value: u8) -> Result<Status, u8> {
        let nibble = value / 16;
        if nibble == 0xD {
            Ok(Status::Pressure)
        } else if nibble == 0x8 {
            Ok(Status::NoteOff)
        } else if nibble == 0x9 {
            Ok(Status::NoteOn)
        } else if nibble == 0xB {
            Ok(Status::ControlChange)
        } else if nibble == 0xE {
            Ok(Status::PitchWheelChange)
        } else if nibble == 0xC {
            Ok(Status::ProgramChange)
        } else if nibble == 0xA {
            Ok(Status::Polyphonic)
        } else {
            Err((nibble * 16) as u8)
        }
    }
}

impl TryFrom<u8> for Status {
    type Error = u8;

    fn try_from(value: u8) -> (res: Result<Self, Self::Error>) {
        let upper = value & 0xF0;
        proof {
            assert(value & 0xF0 == (value / 16) * 16) by (bit_vector);
        }
        Ok(
            match upper {
                0b1101_0000 => Self::Pressure,
                0b1000_0000 => Self::NoteOff,
                0b1001_0000 => Self::NoteOn,
                0b1011_0000 => Self::ControlChange,
                0b1110_0000 => Self::PitchWheelChange,
                0b1100_0000 => Self::ProgramChange,
                0b1010_0000 => Self::Polyphonic,
                unknown_status => return Err(unknown_status),
            },
        )
    }
}

impl vstd::std_specs::convert::TryFromSpecImpl<u8> for Status {
    open spec fn obeys_try_from_spec() -> bool {
        true
    }

    open spec fn try_from_spec(value: u8) -> Result<Status, u8> {
        Status::spec_try_from_byte(value)
    }
}

impl From<Status> for u8 {
    fn from(value: Status) -> (res: Self) {
        match value {
            Status::Pressure => 0b1101_0000,
            Status::NoteOff => 0b1000_0000,
            Status::NoteOn => 0b1001_0000,
            Status::ControlChange => 0b1011_0000,
            Status::PitchWheelChange => 0b1110_0000,
            Status::ProgramChange => 0b1100_0000,
            Status::Polyphonic => 0b1010_0000,
        }
    }
}

impl vstd::std_specs::convert::FromSpecImpl<Status> for u8 {
    open spec fn obeys_from_spec() -> bool {
        true
    }

    open spec fn from_spec(value: Status) -> u8 {
        value.spec_byte()
    }
}

/// Reading the status byte of a message kind gives that kind back.
pub proof fn law_status_byte_roundtrip(status: Status)
    ensures
        Status::spec_try_from_byte(status.spec_byte()) == Ok::<Status, u8>(status),
{
}

/// A status byte read as a message kind is that kind's byte up to the channel in its lower nibble.
pub proof fn law_status_try_from_byte(value: u8)
    ensures
        Status::spec_try_from_byte(value) matches Ok(status) ==> status.spec_byte() == (value / 16)
            * 16,
        Status::spec_try_from_byte(value) matches Err(upper) ==> upper == (value / 16) * 16,
{
}

#[derive(Debug, PartialEq, Eq, Clone, Copy, Structural)]
pub enum MessageChannelVoice {
    ChannelPressure(u8),
    ControlChange { controller: u8, value: u8 },
    Off { note: Note, velocity: u8 },
    On { note: Note, velocity: u8 },
    PitchWheelChange(u16),
    PolyphonicKeyPressure { note: Note, value: u8 },
    ProgramChange(u8),
}

#[derive(Debug, PartialEq, Eq, Clone, Copy, Structural)]
pub enum ParseError {
    ControlChangeControllerMissing,
    DataNotEnoughBytes { available: usize, length: usize },
    NoteMissing(Status),
    ValueMissing(Status),
    ProgramMissing,
    VelocityMissing(Status, Note),
}

/// A data byte with its top bit cleared.
pub open spec fn spec_mask_data(byte: u8) -> u8 {
    byte % 128
}

/// Clears the top bit of a data byte, which the MIDI specification requires to be zero.
pub fn mask_data(byte: u8) -> (res: u8)
    ensures
        res == spec_mask_data(byte),
        res < 128,
{
    proof {
        assert(byte & 0x7F == byte % 128) by (bit_vector);
    }
    byte & 0x7F
}

/// The 14-bit value of two data bytes, least significant first.
pub open spec fn spec_fourteen_bit(lsb: u8, msb: u8) -> u16 {
    (spec_mask_data(msb) * 128 + spec_mask_data(lsb)) as u16
}

/// Combines two data bytes, least significant first, into a 14-bit value.
pub fn fourteen_bit(lsb: u8, msb: u8) -> (res: u16)
    ensures
        res == spec_fourteen_bit(lsb, msb),
        res < 0x4000,
{
    let low = mask_data(lsb);
    let high = mask_data(msb);
    proof {
        assert(high < 128 && low < 128 ==> ((high as u16) << 7 | low as u16) == high as u16 * 128
            + low as u16) by (bit_vector);
    }
    (high as u16) << 7 | low as u16
}

impl MessageChannelVoice {
    /// What the data bytes after a status of the given kind make: the message and the number of
    /// data bytes it takes, or which data byte is missing.
    pub open spec fn spec_from_bytes(status: Status, bytes: Seq<u8>) -> Result<
        (usize, MessageChannelVoice),
        ParseError,
    > {
        match status {
            Status::Pressure => if bytes.len() < 1 {
                Err(ParseError::ValueMissing(Status::Pressure))
            } else {
                Ok((1, MessageChannelVoice::ChannelPressure(spec_mask_data(bytes[0]))))
            },
            Status::ControlChange => if bytes.len() < 1 {
                Err(ParseError::ControlChangeControllerMissing)
            } else if bytes.len() < 2 {
                Err(ParseError::ValueMissing(Status::ControlChange))
            } else {
                Ok(
                    (
                        2,
                        MessageChannelVoice::ControlChange {
                            controller: spec_mask_data(bytes[0]),
                            value: spec_mask_data(bytes[1]),
                        },
                    ),
                )
            },
            Status::NoteOff => if bytes.len() < 1 {
                Err(ParseError::NoteMissing(Status::NoteOff))
            } else if bytes.len() < 2 {
                Err(ParseError::VelocityMissing(Status::NoteOff, Note::spec_new(bytes[0])))
            } else {
                Ok(
                    (
                        2,
                        MessageChannelVoice::Off {
                            note: Note::spec_new(bytes[0]),
                            velocity: spec_mask_data(bytes[1]),
                        },
                    ),
                )
            },
            Status::NoteOn => if bytes.len() < 1 {
                Err(ParseError::NoteMissing(Status::NoteOn))
            } else if bytes.len() < 2 {
                Err(ParseError::VelocityMissing(Status::NoteOn, Note::spec_new(bytes[0])))
            } else {
                Ok(
                    (
                        2,
                        MessageChannelVoice::On {
                            note: Note::spec_new(bytes[0]),
                            velocity: spec_mask_data(bytes[1]),
                        },
                    ),
                )
            },
            Status::PitchWheelChange => if bytes.len() < 2 {
                Err(ParseError::DataNotEnoughBytes { available: bytes.len() as usize, length: 2 })
            } else {
                Ok(
                    (
                        2,
                        MessageChannelVoice::PitchWheelChange(
                            spec_fourteen_bit(bytes[0], bytes[1]),
                        ),
                    ),
                )
            },
            Status::Polyphonic => if bytes.len() < 1 {
                Err(ParseError::NoteMissing(Status::Polyphonic))
            } else if bytes.len() < 2 {
                Err(ParseError::ValueMissing(Status::Polyphonic))
            } else {
                Ok(
                    (
                        2,
                        MessageChannelVoice::PolyphonicKeyPressure {
                            note: Note::spec_new(bytes[0]),
                            value: spec_mask_data(bytes[1]),
                        },
                    ),
                )
            },
            Status::ProgramChange => if bytes.len() < 1 {
                Err(ParseError::ProgramMissing)
            } else {
                Ok((1, MessageChannelVoice::ProgramChange(spec_mask_data(bytes[0]))))
            },
        }
    }

    /// Reads the data bytes that follow a status of the given kind.
    pub fn from_bytes(status: Status, bytes: &[u8]) -> (res: Result<(usize, Self), ParseError>)
        ensures
            res == Self::spec_from_bytes(status, bytes@),
            res matches Ok((n, _)) ==> 1 <= n <= 2 && n <= bytes@.len(),
    {
        match status {
            Status::Pressure => Self::channel_pressure_content(bytes),
            Status::ControlChange => Self::control_change_content(bytes),
            Status::NoteOff => {
                let (consumed, note, velocity) = Self::note_content(status, bytes)?;
                Ok((consumed, MessageChannelVoice::Off { note, velocity }))
            },
            Status::NoteOn => {
                let (consumed, note, velocity) = Self::note_content(status, bytes)?;
                Ok((consumed, MessageChannelVoice::On { note, velocity }))
            },
            Status::PitchWheelChange => Self::pitch_wheel_change_content(bytes),
            Status::Polyphonic => Self::polyphonic_key_pressure(bytes),
            Status::ProgramChange => Self::program_change_content(bytes),
        }
    }

    fn channel_pressure_content(bytes: &[u8]) -> (res: Result<(usize, Self), ParseError>)
        ensures
            res == Self::spec_from_bytes(Status::Pressure, bytes@),
    {
        if bytes.len() < 1 {
            return Err(ParseError::ValueMissing(Status::Pressure));
        }
        Ok((1, Self::ChannelPressure(mask_data(bytes[0]))))
    }

    fn control_change_content(bytes: &[u8]) -> (res: Result<(usize, Self), ParseError>)
        ensures
            res == Self::spec_from_bytes(Status::ControlChange, bytes@),
    {
        if bytes.len() < 1 {
            return Err(ParseError::ControlChangeControllerMissing);
        }
        let controller = mask_data(bytes[0]);
        if bytes.len() < 2 {
            return Err(ParseError::ValueMissing(Status::ControlChange));
        }
        let value = mask_data(bytes[1]);

        Ok((2, Self::ControlChange { controller, value }))
    }

    fn note_content(status: Status, bytes: &[u8]) -> (res: Result<(usize, Note, u8), ParseError>)
        requires
            status == Status::NoteOff || status == Status::NoteOn,
        ensures
            match res {
                Ok((n, note, velocity)) => Self::spec_from_bytes(status, bytes@) == (if status
                    == Status::NoteOff {
                    Ok::<(usize, MessageChannelVoice), ParseError>(
                        (n, MessageChannelVoice::Off { note, velocity }),
                    )
                } else {
                    Ok((n, MessageChannelVoice::On { note, velocity }))
                }),
                Err(e) => Self::spec_from_bytes(status, bytes@) == Err::<
                    (usize, MessageChannelVoice),
                    ParseError,
                >(e),
            },
    {
        if bytes.len() < 1 {
            return Err(ParseError::NoteMissing(status));
        }
        let note: Note = bytes[0].into();
        if bytes.len() < 2 {
            return Err(ParseError::VelocityMissing(status, note));
        }
        let velocity = mask_data(bytes[1]);

        Ok((2, note, velocity))
    }

    fn pitch_wheel_change_content(bytes: &[u8]) -> (res: Result<(usize, Self), ParseError>)
        ensures
            res == Self::spec_from_bytes(Status::PitchWheelChange, bytes@),
    {
        // The first data byte is the least significant one for this message.
        if bytes.len() < 1 {
            return Err(ParseError::DataNotEnoughBytes { available: 0, length: 2 });
        }
        let lsb = bytes[0];
        if bytes.len() < 2 {
            return Err(ParseError::DataNotEnoughBytes { available: 1, length: 2 });
        }
        let msb = bytes[1];
        let value = fourteen_bit(lsb, msb);

        Ok((2, Self::PitchWheelChange(value)))
    }

    fn polyphonic_key_pressure(bytes: &[u8]) -> (res: Result<(usize, Self), ParseError>)
        ensures
            res == Self::spec_from_bytes(Status::Polyphonic, bytes@),
    {
        if bytes.len() < 1 {
            return Err(ParseError::NoteMissing(Status::Polyphonic));
        }
        let note = Note::from(bytes[0]);
        if bytes.len() < 2 {
            return Err(ParseError::ValueMissing(Status::Polyphonic));
        }
        let value = mask_data(bytes[1]);

        Ok((2, Self::PolyphonicKeyPressure { note, value }))
    }

    fn program_change_content(bytes: &[u8]) -> (res: Result<(usize, Self), ParseError>)
        ensures
            res == Self::spec_from_bytes(Status::ProgramChange, bytes@),
    {
        if bytes.len() < 1 {
            return Err(ParseError::ProgramMissing);
        }
        Ok((1, Self::ProgramChange(mask_data(bytes[0]))))
    }
}

impl MessageChannelVoice {
    /// The kind of the message: the status it is read under.
    pub open spec fn spec_status(self) -> Status {
        match self {
            MessageChannelVoice::ChannelPressure(_) => Status::Pressure,
            MessageChannelVoice::ControlChange { .. } => Status::ControlChange,
            MessageChannelVoice::Off { .. } => Status::NoteOff,
            MessageChannelVoice::On { .. } => Status::NoteOn,
            MessageChannelVoice::PitchWheelChange(_) => Status::PitchWheelChange,
            MessageChannelVoice::PolyphonicKeyPressure { .. } => Status::Polyphonic,
            MessageChannelVoice::ProgramChange(_) => Status::ProgramChange,
        }
    }
}

/// A message read under a status is of that status's kind, and takes the data bytes that kind
/// has: one for channel pressure and program change, two for the others.
pub proof fn law_message_status(status: Status, bytes: Seq<u8>)
    ensures
        MessageChannelVoice::spec_from_bytes(status, bytes) matches Ok((n, message)) ==> message.spec_status()
            == status && n == (if status == Status::Pressure || status == Status::ProgramChange {
            1usize
        } else {
            2usize
        }),
{
}

/// The data of a channel voice message, byte by byte, with the top bit of each value byte
/// cleared: pressure, program and the controller are the first byte; velocity, control value and
/// key pressure the second; a note is the number in the first byte; the pitch wheel is a 14-bit
/// value, least significant seven bits first. A message fails exactly when its bytes run out.
pub proof fn law_message_data(bytes: Seq<u8>)
    ensures
        bytes.len() >= 1 ==> MessageChannelVoice::spec_from_bytes(Status::Pressure, bytes) == Ok::<
            (usize, MessageChannelVoice),
            ParseError,
        >((1, MessageChannelVoice::ChannelPressure((bytes[0] % 128) as u8))),
        bytes.len() >= 1 ==> MessageChannelVoice::spec_from_bytes(Status::ProgramChange, bytes)
            == Ok::<(usize, MessageChannelVoice), ParseError>(
            (1, MessageChannelVoice::ProgramChange((bytes[0] % 128) as u8)),
        ),
        bytes.len() >= 2 ==> (MessageChannelVoice::spec_from_bytes(Status::ControlChange, bytes)
            matches Ok((2, MessageChannelVoice::ControlChange { controller, value }))
            && controller == bytes[0] % 128 && value == bytes[1] % 128),
        bytes.len() >= 2 ==> (MessageChannelVoice::spec_from_bytes(Status::NoteOn, bytes) matches Ok(
            (2, MessageChannelVoice::On { note, velocity }),
        ) && note@ == bytes[0] && velocity == bytes[1] % 128),
        bytes.len() >= 2 ==> (MessageChannelVoice::spec_from_bytes(Status::NoteOff, bytes) matches Ok(
            (2, MessageChannelVoice::Off { note, velocity }),
        ) && note@ == bytes[0] && velocity == bytes[1] % 128),
        bytes.len() >= 2 ==> (MessageChannelVoice::spec_from_bytes(Status::Polyphonic, bytes)
            matches Ok((2, MessageChannelVoice::PolyphonicKeyPressure { note, value })) && note@
            == bytes[0] && value == bytes[1] % 128),
        bytes.len() >= 2 ==> (MessageChannelVoice::spec_from_bytes(Status::PitchWheelChange, bytes)
            matches Ok((2, MessageChannelVoice::PitchWheelChange(value))) && value as int == (
        bytes[1] % 128) as int * 128 + (bytes[0] % 128) as int),
        bytes.len() == 0 ==> forall|status: Status|
            #[trigger] MessageChannelVoice::spec_from_bytes(status, bytes) is Err,
        bytes.len() == 1 ==> forall|status: Status|
            #[trigger] MessageChannelVoice::spec_from_bytes(status, bytes) is Err <==> !(status
                == Status::Pressure || status == Status::ProgramChange),
{
    broadcast use Note::lemma_spec_new;

}

/// Masking a data byte twice is masking it once.
pub proof fn law_mask_data_idempotent(byte: u8)
    ensures
        spec_mask_data(spec_mask_data(byte)) == spec_mask_data(byte),
        spec_mask_data(byte) < 128,
        byte < 128 ==> spec_mask_data(byte) == byte,
{
}

impl Status {
    /// The name of the message kind, as `Debug` writes it.
    pub open spec fn spec_name(self) -> Seq<char> {
        match self {
            Status::Pressure => "Pressure"@,
            Status::ControlChange => "ControlChange"@,
            Status::NoteOff => "NoteOff"@,
            Status::NoteOn => "NoteOn"@,
            Status::PitchWheelChange => "PitchWheelChange"@,
            Status::Polyphonic => "Polyphonic"@,
            Status::ProgramChange => "ProgramChange"@,
        }
    }

    /// The name of the message kind, as `Debug` writes it.
    pub fn name(&self) -> (res: &'static str)
        ensures
            res@ == self.spec_name(),
    {
        match self {
            Status::Pressure => "Pressure",
            Status::ControlChange => "ControlChange",
            Status::NoteOff => "NoteOff",
            Status::NoteOn => "NoteOn",
            Status::PitchWheelChange => "PitchWheelChange",
            Status::Polyphonic => "Polyphonic",
            Status::ProgramChange => "ProgramChange",
        }
    }
}

impl MessageChannelVoice {
    /// A description of the message, as in `note on: C4 (60), velocity: 100`.
    pub open spec fn spec_to_string(self) -> Seq<char> {
        match self {
            MessageChannelVoice::ChannelPressure(pressure) => "channel pressure "@ + spec_decimal(
                pressure as nat,
            ),
            MessageChannelVoice::ControlChange { controller, value } =>
                "control change for controller "@ + spec_decimal(controller as nat) + ": "@
                + spec_decimal(value as nat),
            MessageChannelVoice::Off { note, velocity } => "note off: "@ + note.spec_to_string()
                + ", velocity: "@ + spec_decimal(velocity as nat),
            MessageChannelVoice::On { note, velocity } => "note on: "@ + note.spec_to_string()
                + ", velocity: "@ + spec_decimal(velocity as nat),
            MessageChannelVoice::PitchWheelChange(pitch_wheel) => "pitch wheel: "@
                + spec_decimal(pitch_wheel as nat),
            MessageChannelVoice::PolyphonicKeyPressure { note, value } =>
                "polyphonic key pressure "@ + note.spec_to_string() + ": "@ + spec_decimal(
                value as nat,
            ),
            MessageChannelVoice::ProgramChange(program) => "program change: "@ + spec_decimal(
                program as nat,
            ),
        }
    }

    /// A description of the message, as in `note on: C4 (60), velocity: 100`.
    pub fn to_string(&self) -> (res: String)
        ensures
            res@ == self.spec_to_string(),
    {
        match self {
            MessageChannelVoice::ChannelPressure(pressure) => {
                let mut res = String::from_str("channel pressure ");
                res.append(decimal(*pressure as u64).as_str());
                res
            },
            MessageChannelVoice::ControlChange { controller, value } => {
                let mut res = String::from_str("control change for controller ");
                res.append(decimal(*controller as u64).as_str());
                res.append(": ");
                res.append(decimal(*value as u64).as_str());
                res
            },
            MessageChannelVoice::Off { note, velocity } => {
                let mut res = String::from_str("note off: ");
                res.append(note.to_string().as_str());
                res.append(", velocity: ");
                res.append(decimal(*velocity as u64).as_str());
                res
            },
            MessageChannelVoice::On { note, velocity } => {
                let mut res = String::from_str("note on: ");
                res.append(note.to_string().as_str());
                res.append(", velocity: ");
                res.append(decimal(*velocity as u64).as_str());
                res
            },
            MessageChannelVoice::PitchWheelChange(pitch_wheel) => {
                let mut res = String::from_str("pitch wheel: ");
                res.append(decimal(*pitch_wheel as u64).as_str());
                res
            },
            MessageChannelVoice::PolyphonicKeyPressure { note, value } => {
                let mut res = String::from_str("polyphonic key pressure ");
                res.append(note.to_string().as_str());
                res.append(": ");
                res.append(decimal(*value as u64).as_str());
                res
            },
            MessageChannelVoice::ProgramChange(program) => {
                let mut res = String::from_str("program change: ");
                res.append(decimal(*program as u64).as_str());
                res
            },
        }
    }
}

impl ParseError {
    /// A description of the error.
    pub open spec fn spec_to_string(self) -> Seq<char> {
        match self {
            ParseError::ControlChangeControllerMissing =>
                "'control change' is missing target controller"@,
            ParseError::DataNotEnoughBytes { available, length } =>
                "length not enough bytes: available: "@ + spec_decimal(available as nat)
                + ", expected length: "@ + spec_decimal(length as nat),
            ParseError::NoteMissing(status) => "note for status '"@ + status.spec_name()
                + "' is missing"@,
            ParseError::ValueMissing(status) => "value for status: '"@ + status.spec_name()
                + "' is missing"@,
            ParseError::ProgramMissing => "program is missing"@,
            ParseError::VelocityMissing(status, note) => "velocity is missing for status: '"@
                + status.spec_name() + "', note: "@ + note.spec_to_string(),
        }
    }

    /// A description of the error.
    pub fn to_string(&self) -> (res: String)
        ensures
            res@ == self.spec_to_string(),
    {
        match self {
            ParseError::ControlChangeControllerMissing => String::from_str(
                "'control change' is missing target controller",
            ),
            ParseError::DataNotEnoughBytes { available, length } => {
                let mut res = String::from_str("length not enough bytes: available: ");
                res.append(decimal(*available as u64).as_str());
                res.append(", expected length: ");
                res.append(decimal(*length as u64).as_str());
                res
            },
            ParseError::NoteMissing(status) => {
                let mut res = String::from_str("note for status '");
                res.append(status.name());
                res.append("' is missing");
                res
            },
            ParseError::ValueMissing(status) => {
                let mut res = String::from_str("value for status: '");
                res.append(status.name());
                res.append("' is missing");
                res
            },
            ParseError::ProgramMissing => String::from_str("program is missing"),
            ParseError::VelocityMissing(status, note) => {
                let mut res = String::from_str("velocity is missing for status: '");
                res.append(status.name());
                res.append("', note: ");
                res.append(note.to_string().as_str());
                res
            },
        }
    }
}

} // verus!
