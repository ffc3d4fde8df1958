use midi_struck::message_system_real_time::{Message, Status};

#[test]
fn message_system_real_time_status_undefined() {
    assert_eq!(Status::try_from(0xF0), Err(0xF0));
    assert_eq!(Status::try_from(0xF9), Err(0xF9));
    assert_eq!(Status::try_from(0xFD), Err(0xFD));
}

#[test]
fn message_system_real_time_status_active_sensing() {
    assert_eq!(Status::try_from(0xFE), Ok(Status::ActiveSensing));
}

#[test]
fn message_system_real_time_status_reset() {
    assert_eq!(Status::try_from(0xFF), Ok(Status::Reset));
}

#[test]
fn message_system_real_time_status_sequence_continue() {
    assert_eq!(Status::try_from(0xFB), Ok(Status::SequenceContinue));
}

#[test]
fn message_system_real_time_status_sequence_start() {
    assert_eq!(Status::try_from(0xFA), Ok(Status::SequenceStart));
}

#[test]
fn message_system_real_time_status_sequence_stop() {
    assert_eq!(Status::try_from(0xFC), Ok(Status::SequenceStop));
}

#[test]
fn message_system_real_time_status_timing_clock() {
    assert_eq!(Status::try_from(0xF8), Ok(Status::TimingClock));
}

#[test]
fn message_system_real_time_active_sensing() {
    assert_eq!(
        Message::from_bytes(Status::ActiveSensing),
        (0, Message::ActiveSensing)
    );
}

#[test]
fn message_system_real_time_reset() {
    assert_eq!(Message::from_bytes(Status::Reset), (0, Message::Reset));
}

#[test]
fn message_system_real_time_sequence_continue() {
    assert_eq!(
        Message::from_bytes(Status::SequenceContinue),
        (0, Message::SequenceContinue)
    );
}

#[test]
fn message_system_real_time_sequence_start() {
    assert_eq!(
        Message::from_bytes(Status::SequenceStart),
        (0, Message::SequenceStart)
    );
}

#[test]
fn message_system_real_time_sequence_stop() {
    assert_eq!(
        Message::from_bytes(Status::SequenceStop),
        (0, Message::SequenceStop)
    );
}

#[test]
fn message_system_real_time_timing_clock() {
    assert_eq!(
        Message::from_bytes(Status::TimingClock),
        (0, Message::TimingClock)
    );
}
