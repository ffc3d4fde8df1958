use midi_struck::{
    file::{
        event::{self, Event},
        track::Track,
    },
    message_channel_voice::{self, MessageChannelVoice},
    meta_event::{self, MetaEvent},
};

#[test]
fn single_event() {
    let bytes = &[
        0x05,
        meta_event::STATUS,
        meta_event::Type::EndOfTrack.into(),
        0x00,
    ];
    let mut track = Track::new(bytes);

    assert_eq!(
        track.next_event(),
        Ok(Some((
            4,
            Event {
                tick_absolute: 5,
                tick_delta: 5,
                content: MetaEvent::EndOfTrack.into()
            }
        )))
    );
}

#[test]
fn multiple_events() {
    let bytes = [
        0x05,
        meta_event::STATUS,
        meta_event::Type::EndOfTrack.into(),
        0x00,
        0x07,
        message_channel_voice::Status::Pressure.into(),
        0x08,
    ];
    let mut track = Track::new(&bytes);

    assert_eq!(
        track.next_event(),
        Ok(Some((
            4,
            Event {
                tick_absolute: 5,
                tick_delta: 5,
                content: MetaEvent::EndOfTrack.into()
            }
        )))
    );
    assert_eq!(
        track.next_event(),
        Ok(Some((
            3,
            Event {
                tick_absolute: 12,
                tick_delta: 7,
                content: event::Content::ChannelVoice {
                    is_running_status: false,
                    message: MessageChannelVoice::ChannelPressure(8),
                }
            }
        )))
    );
}

#[test]
fn track_running_status() {
    let bytes = [
        0x00,
        message_channel_voice::Status::Pressure.into(),
        0x08,
        0x01,
        0x07,
    ];
    let mut track = Track::new(&bytes);

    assert_eq!(
        track.next_event(),
        Ok(Some((
            3,
            Event {
                tick_absolute: 0,
                tick_delta: 0,
                content: event::Content::ChannelVoice {
                    is_running_status: false,
                    message: MessageChannelVoice::ChannelPressure(8)
                }
            },
        )))
    );
    assert_eq!(
        track.next_event(),
        Ok(Some((
            2,
            Event {
                tick_absolute: 1,
                tick_delta: 1,
                content: event::Content::ChannelVoice {
                    is_running_status: true,
                    message: MessageChannelVoice::ChannelPressure(7)
                }
            }
        )))
    );
}

#[test]
fn end_returns_none() {
    let bytes = &[
        0x05,
        meta_event::STATUS,
        meta_event::Type::EndOfTrack.into(),
        0x00,
    ];
    let mut track = Track::new(bytes);

    assert!(track.next_event().unwrap().is_some());
    assert!(track.next_event().unwrap().is_none());
}

#[test]
fn tick_accumulates_across_events() {
    let bytes = [
        0x0A,
        message_channel_voice::Status::Pressure.into(),
        0x08,
        0x14,
        0x07,
        0x05,
        meta_event::STATUS,
        meta_event::Type::EndOfTrack.into(),
        0x00,
    ];
    let mut track = Track::new(&bytes);

    let (_, event1) = track.next_event().unwrap().unwrap();
    assert_eq!(event1.tick_delta, 10);
    assert_eq!(event1.tick_absolute, 10);

    let (_, event2) = track.next_event().unwrap().unwrap();
    assert_eq!(event2.tick_delta, 20);
    assert_eq!(event2.tick_absolute, 30);

    let (_, event3) = track.next_event().unwrap().unwrap();
    assert_eq!(event3.tick_delta, 5);
    assert_eq!(event3.tick_absolute, 35);
}

#[test]
fn try_all_events_collects_all_events() {
    let bytes = [
        0x05,
        message_channel_voice::Status::Pressure.into(),
        0x08,
        0x03,
        0x07,
        0x02,
        meta_event::STATUS,
        meta_event::Type::EndOfTrack.into(),
        0x00,
    ];
    let track = Track::new(&bytes);

    let events = track.try_all_events().unwrap();
    assert_eq!(events.len(), 3);
    assert_eq!(
        events[0],
        Event {
            tick_absolute: 5,
            tick_delta: 5,
            content: event::Content::ChannelVoice {
                is_running_status: false,
                message: MessageChannelVoice::ChannelPressure(8),
            }
        }
    );
    assert_eq!(
        events[1],
        Event {
            tick_absolute: 8,
            tick_delta: 3,
            content: event::Content::ChannelVoice {
                is_running_status: true,
                message: MessageChannelVoice::ChannelPressure(7),
            }
        }
    );
    assert_eq!(
        events[2],
        Event {
            tick_absolute: 10,
            tick_delta: 2,
            content: MetaEvent::EndOfTrack.into()
        }
    );
}

#[test]
fn try_all_events_empty_track() {
    let track = Track::new(&[]);
    let events = track.try_all_events().unwrap();
    assert!(events.is_empty());
}
