use midi_struck::{
    message_channel_voice::mask_data,
    message_system::{MessageSystem, ParseError, Status},
};

#[test]
fn message_system_status_undefined() {
    assert_eq!(Status::try_from(0xF1), Err(0xF1));
}

#[test]
fn message_system_status_active_sensing() {
    assert_eq!(Status::try_from(0xFE), Ok(Status::ActiveSensing));
}

#[test]
fn message_system_status_reset() {
    assert_eq!(Status::try_from(0xFF), Ok(Status::Reset));
}

#[test]
fn message_system_status_sequence_continue() {
    assert_eq!(Status::try_from(0xFB), Ok(Status::SequenceContinue));
}

#[test]
fn message_system_status_sequence_start() {
    assert_eq!(Status::try_from(0xFA), Ok(Status::SequenceStart));
}

#[test]
fn message_system_status_sequence_stop() {
    assert_eq!(Status::try_from(0xFC), Ok(Status::SequenceStop));
}

#[test]
fn message_system_status_song_position_pointer() {
    assert_eq!(Status::try_from(0xF2), Ok(Status::SongPositionPointer));
}

#[test]
fn message_system_status_song_select() {
    assert_eq!(Status::try_from(0xF3), Ok(Status::SongSelect));
}

#[test]
fn message_system_status_sys_ex_end() {
    assert_eq!(Status::try_from(0xF7), Ok(Status::SysExEnd));
}

#[test]
fn message_system_status_sys_ex_start() {
    assert_eq!(Status::try_from(0xF0), Ok(Status::SysExStart));
}

#[test]
fn message_system_status_timing_clock() {
    assert_eq!(Status::try_from(0xF8), Ok(Status::TimingClock));
}

#[test]
fn message_system_status_tune_request() {
    assert_eq!(Status::try_from(0xF6), Ok(Status::TuneRequest));
}

#[test]
fn message_system_active_sensing() {
    assert_eq!(
        MessageSystem::from_bytes(Status::ActiveSensing, &[]),
        Ok((0, MessageSystem::ActiveSensing))
    );
}

#[test]
fn message_system_reset() {
    assert_eq!(
        MessageSystem::from_bytes(Status::Reset, &[]),
        Ok((0, MessageSystem::Reset))
    );
}

#[test]
fn message_system_sequence_continue() {
    assert_eq!(
        MessageSystem::from_bytes(Status::SequenceContinue, &[]),
        Ok((0, MessageSystem::SequenceContinue))
    );
}

#[test]
fn message_system_sequence_start() {
    assert_eq!(
        MessageSystem::from_bytes(Status::SequenceStart, &[]),
        Ok((0, MessageSystem::SequenceStart))
    );
}

#[test]
fn message_system_sequence_stop() {
    assert_eq!(
        MessageSystem::from_bytes(Status::SequenceStop, &[]),
        Ok((0, MessageSystem::SequenceStop))
    );
}

#[test]
fn message_system_song_position_pointer_missing_lsb() {
    assert_eq!(
        MessageSystem::from_bytes(Status::SongPositionPointer, &[]),
        Err(ParseError::LengthNotEnoughBytes {
            actual: 0,
            expected: 2
        })
    );
}

#[test]
fn message_system_song_position_pointer_missing_msb() {
    assert_eq!(
        MessageSystem::from_bytes(Status::SongPositionPointer, &[0x01]),
        Err(ParseError::LengthNotEnoughBytes {
            actual: 1,
            expected: 2
        })
    );
}

#[test]
fn message_system_song_position_pointer() {
    let lsb: u8 = 0x71;
    let msb = 0x02;
    let value = u16::from(msb) << 7 | u16::from(lsb);
    assert_eq!(
        MessageSystem::from_bytes(Status::SongPositionPointer, &[lsb, msb]),
        Ok((2, MessageSystem::SongPositionPointer(value)))
    );

    let lsb = 0xFF;
    let msb = 0xFF;
    let value = (u16::from(mask_data(msb))) << 7 | u16::from(mask_data(lsb));
    assert_eq!(
        MessageSystem::from_bytes(Status::SongPositionPointer, &[lsb, msb]),
        Ok((2, MessageSystem::SongPositionPointer(value)))
    );
}

#[test]
fn message_system_song_select_missing_byte() {
    assert_eq!(
        MessageSystem::from_bytes(Status::SongSelect, &[]),
        Err(ParseError::LengthNotEnoughBytes {
            actual: 0,
            expected: 1
        })
    );
}

#[test]
fn message_system_song_select() {
    assert_eq!(
        MessageSystem::from_bytes(Status::SongSelect, &[0x01]),
        Ok((1, MessageSystem::SongSelect(0x01)))
    );

    assert_eq!(
        MessageSystem::from_bytes(Status::SongSelect, &[0xFF]),
        Ok((1, MessageSystem::SongSelect(mask_data(0xFF))))
    );
}

#[test]
fn message_system_sys_ex_end_before_start() {
    assert_eq!(
        MessageSystem::from_bytes(Status::SysExEnd, &[]),
        Err(ParseError::SysExEndBeforeStart)
    );
}

#[test]
fn message_system_sys_ex_end_missing() {
    assert_eq!(
        MessageSystem::from_bytes(Status::SysExStart, &[]),
        Err(ParseError::SysExEndMissing)
    );
    assert_eq!(
        MessageSystem::from_bytes(Status::SysExStart, &[0x01]),
        Err(ParseError::SysExEndMissing)
    );
}

#[test]
fn message_system_sys_ex() {
    assert_eq!(
        MessageSystem::from_bytes(Status::SysExStart, &[0x01, Status::SysExEnd.into()]),
        Ok((2, MessageSystem::SysEx(vec![0x01]))),
    );
    assert_eq!(
        MessageSystem::from_bytes(Status::SysExStart, &[0xFF, 0xFF, Status::SysExEnd.into()]),
        Ok((
            3,
            MessageSystem::SysEx(vec![mask_data(0xFF), mask_data(0xFF),])
        )),
    );
}

#[test]
fn message_system_timing_clock() {
    assert_eq!(
        MessageSystem::from_bytes(Status::TimingClock, &[]),
        Ok((0, MessageSystem::TimingClock))
    );
}

#[test]
fn message_system_tune_request() {
    assert_eq!(
        MessageSystem::from_bytes(Status::TuneRequest, &[]),
        Ok((0, MessageSystem::TuneRequest))
    );
}
