use midi_struck::file::event::{self as file_event};
use midi_struck::file::header::{self, Division, Format};
use midi_struck::file::track;
use midi_struck::file::ParseError as ContentError;
use midi_struck::message_channel_voice::{self, MessageChannelVoice};
use midi_struck::message_system_common;
use midi_struck::meta_event::{self, MetaEvent};
use midi_struck::note::{Note, PitchClass};
use midi_struck::variable_length_quantity;

#[test]
fn note_descriptions() {
    assert_eq!(Note::new(60).to_string(), "C4 (60)");
    assert_eq!(Note::new(61).to_string(), "C♯4 (61)");
    assert_eq!(Note::new(5).to_string(), "F0 (5)");
    assert_eq!(Note::new(127).to_string(), "G9 (127)");
    assert_eq!(PitchClass::ASharp.to_string(), "A♯");
    assert_eq!(PitchClass::B.to_string(), "B");
}

#[test]
fn channel_voice_descriptions() {
    assert_eq!(MessageChannelVoice::ChannelPressure(8).to_string(), "channel pressure 8");
    assert_eq!(
        MessageChannelVoice::ControlChange { controller: 7, value: 100 }.to_string(),
        "control change for controller 7: 100"
    );
    assert_eq!(
        MessageChannelVoice::Off { note: Note::new(62), velocity: 0 }.to_string(),
        "note off: D4 (62), velocity: 0"
    );
    assert_eq!(
        MessageChannelVoice::On { note: Note::new(60), velocity: 64 }.to_string(),
        "note on: C4 (60), velocity: 64"
    );
    assert_eq!(MessageChannelVoice::PitchWheelChange(8192).to_string(), "pitch wheel: 8192");
    assert_eq!(
        MessageChannelVoice::PolyphonicKeyPressure { note: Note::new(127), value: 3 }.to_string(),
        "polyphonic key pressure G9 (127): 3"
    );
    assert_eq!(MessageChannelVoice::ProgramChange(0).to_string(), "program change: 0");
}

#[test]
fn meta_event_descriptions() {
    assert_eq!(MetaEvent::ChannelPrefix(5).to_string(), "channel prefix: 5");
    assert_eq!(MetaEvent::Copyright("abc".to_owned()).to_string(), "copyright: abc");
    assert_eq!(MetaEvent::CuePoint("x".to_owned()).to_string(), "cue point: x");
    assert_eq!(MetaEvent::EndOfTrack.to_string(), "end of track");
    assert_eq!(MetaEvent::InstrumentName("Piano".to_owned()).to_string(), "instrument name: Piano");
    assert_eq!(
        MetaEvent::KeySignature { key: -7, is_minor: true }.to_string(),
        "key signature: -7, is minor: true"
    );
    assert_eq!(
        MetaEvent::KeySignature { key: 3, is_minor: false }.to_string(),
        "key signature: 3, is minor: false"
    );
    assert_eq!(MetaEvent::Lyric("la".to_owned()).to_string(), "lyric: la");
    assert_eq!(MetaEvent::Marker("A".to_owned()).to_string(), "marker: A");
    assert_eq!(MetaEvent::SequenceNumber(261).to_string(), "sequence number: 261");
    assert_eq!(
        MetaEvent::SequenceTrackName("Track 1".to_owned()).to_string(),
        "sequence/track name: Track 1"
    );
    assert_eq!(
        MetaEvent::SequencerSpecific(vec![1, 2]).to_string(),
        "sequencer specific: 2 bytes"
    );
    assert_eq!(MetaEvent::SetTempo(500000).to_string(), "set tempo: 500000");
    assert_eq!(
        MetaEvent::SmpteOffset {
            hours: 1,
            minute: 2,
            second: 3,
            frame_rate: 4,
            fractional_frames: 5
        }
        .to_string(),
        "smpte offset: 1h 2m 3s, frame rate: 4, fractional frames: 5"
    );
    assert_eq!(MetaEvent::Text("hi".to_owned()).to_string(), "text: hi");
    assert_eq!(
        MetaEvent::TimeSignature {
            numerator: 6,
            negative_denominator_power: 3,
            clock_per_metronome_click: 24,
            thirtyseconds_per_quarter_note: 8
        }
        .to_string(),
        "time signature: 6/8, clocks/tick: 24, thirtyseconds per quarter: 8"
    );
    assert_eq!(MetaEvent::Unknown(vec![0, 10, 255]).to_string(), "unknown: 0, 10, 255");
    assert_eq!(MetaEvent::Unknown(vec![]).to_string(), "unknown: ");
}

#[test]
fn meta_event_text_is_decoded() {
    let text = "é♯";
    assert_eq!(
        MetaEvent::from_bytes(meta_event::Type::Text, text.len(), text.as_bytes()),
        Ok((text.len(), MetaEvent::Text(text.to_owned())))
    );
    let truncated = &text.as_bytes()[..1];
    assert!(matches!(
        MetaEvent::from_bytes(meta_event::Type::Lyric, 1, truncated),
        Err(meta_event::ParseError::TextInvalid(_))
    ));
}

#[test]
fn event_content_descriptions() {
    assert_eq!(
        file_event::Content::ChannelVoice {
            is_running_status: true,
            message: MessageChannelVoice::ChannelPressure(7)
        }
        .to_string(),
        "channel pressure 7 - r"
    );
    assert_eq!(
        file_event::Content::ChannelVoice {
            is_running_status: false,
            message: MessageChannelVoice::ChannelPressure(7)
        }
        .to_string(),
        "channel pressure 7"
    );
    assert_eq!(
        file_event::Content::MetaEvent(MetaEvent::EndOfTrack).to_string(),
        "meta event end of track"
    );
}

#[test]
fn header_descriptions() {
    assert_eq!(Format::SingleTrack.to_string(), "single track");
    assert_eq!(Format::MultiTrack.to_string(), "multi track");
    assert_eq!(Format::MultiTrackIndependent.to_string(), "multi track independent");
    assert_eq!(Division::TicksPerQuarterNote(480).to_string(), "ticks per quarter note: 480");
    assert_eq!(
        Division::DeltaTime { frames_per_second: 25, ticks_per_frame: 40 }.to_string(),
        "delta time - fps: 25, tpf: 40"
    );
}

#[test]
fn header_error_descriptions() {
    assert_eq!(
        header::ParseError::ChunkTypeInvalid(b"MTrk".to_vec()).to_string(),
        "chunk type is invalid, str repr: Ok(\"MTrk\"), bytes: [77, 84, 114, 107]"
    );
    let invalid = vec![0xFF];
    assert_eq!(
        header::ParseError::ChunkTypeInvalid(invalid.clone()).to_string(),
        format!(
            "chunk type is invalid, str repr: {:?}, bytes: [255]",
            String::from_utf8(invalid)
        )
    );
    assert_eq!(header::ParseError::DivisionMissing.to_string(), "division is missing");
    assert_eq!(header::ParseError::FormatInvalid(3).to_string(), "format invalid: 3");
    assert_eq!(header::ParseError::FormatMissing.to_string(), "format is missing");
    assert_eq!(header::ParseError::LengthMissing.to_string(), "length is missing");
    assert_eq!(
        header::ParseError::LengthNotExpected { actual: 5, expected: 6 }.to_string(),
        "length not expected, expected: 6, actual: 5"
    );
    assert_eq!(header::ParseError::NumberOfTracksMissing.to_string(), "number of tracks missing");
    assert_eq!(
        header::ParseError::NumberOfTracksNotOne(2).to_string(),
        "expected single track, as declared in format, but received 2 tracks"
    );
}

#[test]
fn message_error_descriptions() {
    assert_eq!(
        variable_length_quantity::ParseError::InputEmpty.to_string(),
        "input empty"
    );
    assert_eq!(
        variable_length_quantity::ParseError::ContinuationIn4thByte.to_string(),
        "received continuation in 4th byte, max. size of variable length quantity is 4 bytes"
    );
    assert_eq!(
        variable_length_quantity::ParseError::ContinuationAtEndOfInput.to_string(),
        "received continuation, but there is no more input left to process"
    );
    assert_eq!(
        message_channel_voice::ParseError::ControlChangeControllerMissing.to_string(),
        "'control change' is missing target controller"
    );
    assert_eq!(
        message_channel_voice::ParseError::DataNotEnoughBytes { available: 1, length: 2 }
            .to_string(),
        "length not enough bytes: available: 1, expected length: 2"
    );
    assert_eq!(
        message_channel_voice::ParseError::NoteMissing(message_channel_voice::Status::NoteOff)
            .to_string(),
        "note for status 'NoteOff' is missing"
    );
    assert_eq!(
        message_channel_voice::ParseError::ValueMissing(message_channel_voice::Status::Polyphonic)
            .to_string(),
        "value for status: 'Polyphonic' is missing"
    );
    assert_eq!(
        message_channel_voice::ParseError::ProgramMissing.to_string(),
        "program is missing"
    );
    assert_eq!(
        message_channel_voice::ParseError::VelocityMissing(
            message_channel_voice::Status::NoteOn,
            Note::new(60)
        )
        .to_string(),
        "velocity is missing for status: 'NoteOn', note: C4 (60)"
    );
    assert_eq!(
        message_system_common::ParseError::DataNotEnoughBytes { available: 0, length: 2 }
            .to_string(),
        "data not enough bytes, length: 2, available: 0"
    );
    assert_eq!(
        message_system_common::ParseError::SysExEndBeforeStart.to_string(),
        "sys ex end before start"
    );
    assert_eq!(
        message_system_common::ParseError::SysExEndMissing.to_string(),
        "sys ex end missing"
    );
}

#[test]
fn meta_event_error_descriptions() {
    assert_eq!(
        meta_event::ParseError::LengthNotEnoughBytes { actual: 1, expected: 2 }.to_string(),
        "length not enough bytes, expeced: 2, actual: 1"
    );
    assert_eq!(
        meta_event::ParseError::LengthNotExpected { actual: 3, expected: 2 }.to_string(),
        "unexpected length, expected: 2, actual: 3"
    );
    let bytes = [0xFFu8];
    #[allow(invalid_from_utf8)]
    let utf8_error = std::str::from_utf8(&bytes).unwrap_err();
    assert_eq!(
        meta_event::ParseError::TextInvalid(utf8_error).to_string(),
        format!("received invalid text: {utf8_error}")
    );
}

#[test]
fn file_error_descriptions() {
    assert_eq!(
        file_event::ParseError::DeltaTimeInvalid(variable_length_quantity::ParseError::InputEmpty)
            .to_string(),
        "delta time invalid: input empty"
    );
    assert_eq!(file_event::ParseError::InputEmpty.to_string(), "empty input");
    assert_eq!(
        file_event::ParseError::MessageChannelVoiceInvalid(
            message_channel_voice::ParseError::ProgramMissing
        )
        .to_string(),
        "channel voice message is invalid: program is missing"
    );
    assert_eq!(
        file_event::ParseError::MessageChannelVoiceStatusInvalid(64).to_string(),
        "status '64' is not valid for channel voice message"
    );
    assert_eq!(
        file_event::ParseError::MetaEventInvalid(meta_event::ParseError::LengthNotExpected {
            actual: 0,
            expected: 2
        })
        .to_string(),
        "meta event is invalid: unexpected length, expected: 2, actual: 0"
    );
    assert_eq!(
        file_event::ParseError::MetaEventTypeMissing.to_string(),
        "meta event event type is missing"
    );
    assert_eq!(
        track::ParseError::EventInvalid {
            data: vec![],
            pos: 12,
            err: file_event::ParseError::InputEmpty
        }
        .to_string(),
        "at 12: empty input"
    );
    assert_eq!(
        ContentError::ChunkDataNotEnoughBytes { available: 4, length: 10, pos: 22 }.to_string(),
        "at: 22, chunk data not enough bytes: need 10, have 4"
    );
    assert_eq!(
        ContentError::ChunkLengthMissing { pos: 18 }.to_string(),
        "at: 18, chunk length missing"
    );
    assert_eq!(
        ContentError::ChunkTypeIncomplete { data: b"MT", pos: 14 }.to_string(),
        "at: 14, chunk type incomplete: [77, 84]"
    );
    assert_eq!(
        ContentError::ChunksNotEnough { count: 1, expected: 2 }.to_string(),
        "not enough chunks: expected 2, got 1"
    );
    assert_eq!(
        ContentError::ChunksTooMany { expected: 1 }.to_string(),
        "too many chunks: expected 1"
    );
}

#[test]
fn invalid_text_description_carries_the_decoder_message() {
    let bytes = [0x61u8, 0xE2, 0x82];
    #[allow(invalid_from_utf8)]
    let utf8_error = std::str::from_utf8(&bytes).unwrap_err();
    let meta = meta_event::ParseError::TextInvalid(utf8_error);
    assert_eq!(meta.to_string(), format!("received invalid text: {utf8_error}"));
    let event_error = file_event::ParseError::MetaEventInvalid(meta_event::ParseError::TextInvalid(
        utf8_error,
    ));
    assert_eq!(
        event_error.to_string(),
        format!("meta event is invalid: received invalid text: {utf8_error}")
    );
    let track_error = track::ParseError::EventInvalid { data: vec![], pos: 12, err: event_error };
    assert_eq!(
        track_error.to_string(),
        format!("at 12: meta event is invalid: received invalid text: {utf8_error}")
    );
}

#[test]
fn signed_decimals_at_the_extremes() {
    assert_eq!(midi_struck::text::signed_decimal(i64::MIN), "-9223372036854775808");
    assert_eq!(midi_struck::text::signed_decimal(i64::MAX), "9223372036854775807");
    assert_eq!(midi_struck::text::signed_decimal(-7), "-7");
    assert_eq!(midi_struck::text::signed_decimal(0), "0");
}

#[test]
fn content_readability() {
    assert!(file_event::Content::is_readable(&[]));
    assert!(file_event::Content::is_readable(&[0xFF]));
    assert!(file_event::Content::is_readable(&[0xFF, 0x2F, 0x00]));
    assert!(!file_event::Content::is_readable(&[0xFF, 0x2F]));
    assert!(!file_event::Content::is_readable(&[0xFF, 0x2F, 0x80]));
    assert!(file_event::Content::is_readable(&[0x90, 0x2F]));
}
