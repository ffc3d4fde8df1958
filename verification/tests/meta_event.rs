use midi_struck::meta_event::{MetaEvent, ParseError, Type};

#[test]
fn type_channel_prefix() {
    assert_eq!(Type::from(0x20), Type::ChannelPrefix);
}

#[test]
fn type_copyright() {
    assert_eq!(Type::from(0x02), Type::Copyright);
}

#[test]
fn type_cue_point() {
    assert_eq!(Type::from(0x07), Type::CuePoint);
}

#[test]
fn type_end_of_track() {
    assert_eq!(Type::from(0x2F), Type::EndOfTrack);
}

#[test]
fn type_instrument_name() {
    assert_eq!(Type::from(0x04), Type::InstrumentName);
}

#[test]
fn type_key_signature() {
    assert_eq!(Type::from(0x59), Type::KeySignature);
}

#[test]
fn type_lyric() {
    assert_eq!(Type::from(0x05), Type::Lyric);
}

#[test]
fn type_marker() {
    assert_eq!(Type::from(0x06), Type::Marker);
}

#[test]
fn type_sequence_number() {
    assert_eq!(Type::from(0x00), Type::SequenceNumber);
}

#[test]
fn type_sequence_track_name() {
    assert_eq!(Type::from(0x03), Type::SequenceTrackName);
}

#[test]
fn type_sequencer_specific() {
    assert_eq!(Type::from(0x7F), Type::SequencerSpecific);
}

#[test]
fn type_set_tempo() {
    assert_eq!(Type::from(0x51), Type::SetTempo);
}

#[test]
fn type_smpte_offset() {
    assert_eq!(Type::from(0x54), Type::SmpteOffset);
}

#[test]
fn type_text() {
    assert_eq!(Type::from(0x01), Type::Text);
}

#[test]
fn type_time_signature() {
    assert_eq!(Type::from(0x58), Type::TimeSignature);
}

#[test]
fn type_unknown() {
    assert_eq!(Type::from(0xFF), Type::Unknown(0xFF));
    assert_eq!(Type::from(0xFE), Type::Unknown(0xFE));
}

#[test]
fn channel_prefix() {
    assert_eq!(
        MetaEvent::from_bytes(Type::ChannelPrefix, 1, &[0x05]),
        Ok((1, MetaEvent::ChannelPrefix(0x05)))
    );
    assert_eq!(
        MetaEvent::from_bytes(Type::ChannelPrefix, 1, &[0x06]),
        Ok((1, MetaEvent::ChannelPrefix(0x06)))
    );
}

#[test]
fn copyright() {
    test_string_content(Type::Copyright, MetaEvent::Copyright);
}

#[test]
fn cue_point() {
    test_string_content(Type::CuePoint, MetaEvent::CuePoint);
}

#[test]
fn end_of_track() {
    assert_eq!(
        MetaEvent::from_bytes(Type::EndOfTrack, 0, &[]),
        Ok((0, MetaEvent::EndOfTrack))
    )
}

#[test]
fn instrument_name() {
    test_string_content(Type::InstrumentName, MetaEvent::InstrumentName);
}

#[test]
fn key_signature_length_invalid() {
    assert_eq!(
        MetaEvent::from_bytes(Type::KeySignature, 0, &[]),
        Err(ParseError::LengthNotExpected {
            actual: 0x00,
            expected: 2
        })
    );
    assert_eq!(
        MetaEvent::from_bytes(Type::KeySignature, 3, &[]),
        Err(ParseError::LengthNotExpected {
            actual: 0x03,
            expected: 2,
        })
    );
}

#[test]
fn key_signature_length_not_enough_bytes() {
    assert_eq!(
        MetaEvent::from_bytes(Type::KeySignature, 2, &[0x00]),
        Err(ParseError::LengthNotEnoughBytes {
            actual: 1,
            expected: 0x02
        })
    );
}

#[test]
fn key_signature() {
    assert_eq!(
        MetaEvent::from_bytes(Type::KeySignature, 2, &[7_i8.cast_unsigned(), 0x00]),
        Ok((
            2,
            MetaEvent::KeySignature {
                key: 7,
                is_minor: false
            }
        ))
    );
    assert_eq!(
        MetaEvent::from_bytes(Type::KeySignature, 2, &[(-7_i8).cast_unsigned(), 0xFF]),
        Ok((
            2,
            MetaEvent::KeySignature {
                key: -7,
                is_minor: true
            }
        ))
    );
}

#[test]
fn lyric() {
    test_string_content(Type::Lyric, MetaEvent::Lyric);
}

#[test]
fn marker() {
    test_string_content(Type::Marker, MetaEvent::Marker);
}

#[test]
fn sequence_number_length_invalid() {
    assert_eq!(
        MetaEvent::from_bytes(Type::SequenceNumber, 0, &[]),
        Err(ParseError::LengthNotExpected {
            actual: 0x00,
            expected: 2
        })
    );
    assert_eq!(
        MetaEvent::from_bytes(Type::SequenceNumber, 3, &[]),
        Err(ParseError::LengthNotExpected {
            actual: 0x03,
            expected: 2,
        })
    );
}

#[test]
fn sequence_number_length_not_enough_bytes() {
    assert_eq!(
        MetaEvent::from_bytes(Type::SequenceNumber, 2, &[0x00]),
        Err(ParseError::LengthNotEnoughBytes {
            actual: 1,
            expected: 0x02
        })
    );
}

#[test]
fn sequence_number() {
    assert_eq!(
        MetaEvent::from_bytes(Type::SequenceNumber, 2, &[0x00, 0x05]),
        Ok((
            2,
            MetaEvent::SequenceNumber(u16::from_be_bytes([0x00, 0x05]))
        ))
    );
    assert_eq!(
        MetaEvent::from_bytes(Type::SequenceNumber, 2, &[0x01, 0x06]),
        Ok((
            2,
            MetaEvent::SequenceNumber(u16::from_be_bytes([0x01, 0x06]))
        ))
    );
}

#[test]
fn sequence_track_name() {
    test_string_content(Type::SequenceTrackName, MetaEvent::SequenceTrackName);
}

#[test]
fn sequencer_specific_not_enough_bytes() {
    assert_eq!(
        MetaEvent::from_bytes(Type::SequencerSpecific, 1, &[]),
        Err(ParseError::LengthNotEnoughBytes {
            actual: 0,
            expected: 0x01
        })
    );
    assert_eq!(
        MetaEvent::from_bytes(Type::SequencerSpecific, 2, &[0x00]),
        Err(ParseError::LengthNotEnoughBytes {
            actual: 1,
            expected: 0x02
        })
    );
}

#[test]
fn sequencer_specific() {
    assert_eq!(
        MetaEvent::from_bytes(Type::SequencerSpecific, 1, &[0x01]),
        Ok((1, MetaEvent::SequencerSpecific(vec![0x01])))
    );
    assert_eq!(
        MetaEvent::from_bytes(Type::SequencerSpecific, 2, &[0x01, 0x02]),
        Ok((2, MetaEvent::SequencerSpecific(vec![0x01, 0x02])))
    );
}

#[test]
fn set_tempo_length_invalid() {
    assert_eq!(
        MetaEvent::from_bytes(Type::SetTempo, 0, &[]),
        Err(ParseError::LengthNotExpected {
            actual: 0x00,
            expected: 3
        })
    );
    assert_eq!(
        MetaEvent::from_bytes(Type::SetTempo, 4, &[]),
        Err(ParseError::LengthNotExpected {
            actual: 0x04,
            expected: 3,
        })
    );
}

#[test]
fn set_tempo_length_not_enough_bytes() {
    assert_eq!(
        MetaEvent::from_bytes(Type::SetTempo, 3, &[0x00, 0x00]),
        Err(ParseError::LengthNotEnoughBytes {
            actual: 2,
            expected: 0x03
        })
    );
}

#[test]
fn set_tempo() {
    assert_eq!(
        MetaEvent::from_bytes(Type::SetTempo, 3, &[0x00, 0x00, 0x06]),
        Ok((
            3,
            MetaEvent::SetTempo(u32::from_be_bytes([0x00, 0x00, 0x00, 0x06]))
        ))
    );
    assert_eq!(
        MetaEvent::from_bytes(Type::SetTempo, 3, &[0x01, 0x02, 0x03]),
        Ok((
            3,
            MetaEvent::SetTempo(u32::from_be_bytes([0x00, 0x01, 0x02, 0x03]))
        ))
    );
}

#[test]
fn smpte_offset_length_invalid() {
    assert_eq!(
        MetaEvent::from_bytes(Type::SmpteOffset, 0, &[]),
        Err(ParseError::LengthNotExpected {
            actual: 0x00,
            expected: 5
        })
    );
    assert_eq!(
        MetaEvent::from_bytes(Type::SmpteOffset, 6, &[0x00]),
        Err(ParseError::LengthNotExpected {
            actual: 0x06,
            expected: 5,
        })
    );
}

#[test]
fn smpte_offset_length_not_enough_bytes() {
    assert_eq!(
        MetaEvent::from_bytes(Type::SmpteOffset, 5, &[0x00, 0x00, 0x00, 0x00]),
        Err(ParseError::LengthNotEnoughBytes {
            actual: 4,
            expected: 0x05
        })
    );
}

#[test]
fn smpte_offset() {
    assert_eq!(
        MetaEvent::from_bytes(Type::SmpteOffset, 5, &[0x01, 0x02, 0x03, 0x04, 0x05]),
        Ok((
            5,
            MetaEvent::SmpteOffset {
                hours: 0x01,
                minute: 0x02,
                second: 0x03,
                frame_rate: 0x04,
                fractional_frames: 0x05
            }
        ))
    );
    assert_eq!(
        MetaEvent::from_bytes(Type::SmpteOffset, 5, &[0x11, 0x12, 0x13, 0x14, 0x15]),
        Ok((
            5,
            MetaEvent::SmpteOffset {
                hours: 0x11,
                minute: 0x12,
                second: 0x13,
                frame_rate: 0x14,
                fractional_frames: 0x15
            }
        ))
    );
}

#[test]
fn text() {
    test_string_content(Type::Text, MetaEvent::Text);
}

#[test]
fn time_signature_length_invalid() {
    assert_eq!(
        MetaEvent::from_bytes(Type::TimeSignature, 0, &[]),
        Err(ParseError::LengthNotExpected {
            actual: 0x00,
            expected: 4
        })
    );
    assert_eq!(
        MetaEvent::from_bytes(Type::TimeSignature, 5, &[]),
        Err(ParseError::LengthNotExpected {
            actual: 0x05,
            expected: 4,
        })
    );
}

#[test]
fn time_signature_length_not_enough_bytes() {
    assert_eq!(
        MetaEvent::from_bytes(Type::TimeSignature, 4, &[0x00, 0x00, 0x00]),
        Err(ParseError::LengthNotEnoughBytes {
            actual: 3,
            expected: 0x04
        })
    );
}

#[test]
fn time_signature() {
    assert_eq!(
        MetaEvent::from_bytes(Type::TimeSignature, 4, &[0x01, 0x02, 0x03, 0x04]),
        Ok((
            4,
            MetaEvent::TimeSignature {
                numerator: 0x01,
                negative_denominator_power: 0x02,
                clock_per_metronome_click: 0x03,
                thirtyseconds_per_quarter_note: 0x04
            }
        ))
    );
    assert_eq!(
        MetaEvent::from_bytes(Type::TimeSignature, 4, &[0x06, 0x03, 0x13, 0x14]),
        Ok((
            4,
            MetaEvent::TimeSignature {
                numerator: 0x06,
                negative_denominator_power: 0x03,
                clock_per_metronome_click: 0x13,
                thirtyseconds_per_quarter_note: 0x14
            }
        ))
    );
}

fn test_string_content(typ: Type, create_variant: impl Fn(String) -> MetaEvent) {
    // Text invalid
    let text_invalid = [0xFFu8];
    assert_eq!(
        MetaEvent::from_bytes(typ, text_invalid.len(), text_invalid.as_slice()),
        Err(ParseError::TextInvalid(
            #[allow(invalid_from_utf8)]
            str::from_utf8(&text_invalid).unwrap_err()
        ))
    );

    // Text valid
    let text = "abc";
    assert_eq!(
        MetaEvent::from_bytes(typ, text.len(), text.as_bytes()),
        Ok((text.len(), create_variant(text.to_owned())))
    );
    let text = "xyz";
    assert_eq!(
        MetaEvent::from_bytes(typ, text.len(), text.as_bytes()),
        Ok((text.len(), create_variant(text.to_owned())))
    );
}

#[test]
fn unknown_length_not_enough_bytes() {
    assert_eq!(
        MetaEvent::from_bytes(Type::Unknown(0xFF), 4, &[0x00, 0x00, 0x00]),
        Err(ParseError::LengthNotEnoughBytes {
            actual: 3,
            expected: 0x04
        })
    );
}

#[test]
fn unknown() {
    assert_eq!(
        MetaEvent::from_bytes(Type::Unknown(0xFF), 4, &[0x00, 0x00, 0x00, 0x00]),
        Ok((4, MetaEvent::Unknown(vec![0x00, 0x00, 0x00, 0x00])))
    );
    assert_eq!(
        MetaEvent::from_bytes(Type::Unknown(0xFF), 4, &[0x00, 0x00, 0x01, 0x00, 0x00]),
        Ok((4, MetaEvent::Unknown(vec![0x00, 0x00, 0x01, 0x00])))
    );
}
