//! Track chunks: a stream of events, each after a delta time from the previous one.
use crate::file::event::{self, Event, EventModel};
use crate::message_channel_voice;
use crate::text::{decimal, lemma_after_prefix, spec_decimal, starts_with};
use vstd::prelude::*;
use vstd::string::*;

verus! {

/// The type of a track chunk.
pub const CHUNK_TYPE: &'static [u8; 4] = &[0x4D, 0x54, 0x72, 0x6B];

/// The bytes of `CHUNK_TYPE`.
pub open spec fn spec_chunk_type() -> Seq<u8> {
    seq![0x4Du8, 0x54u8, 0x72u8, 0x6Bu8]
}

#[derive(Debug, PartialEq, Eq)]
pub struct Track<'a> {
    bytes: &'a [u8],
    pos: usize,
    running_status: Option<message_channel_voice::Status>,
    tick: u32,
}

/// The state of a track: its data, how far it has been read, the running status and the absolute
/// tick of the last event read.
pub struct TrackModel {
    pub bytes: Seq<u8>,
    pub pos: usize,
    pub running_status: Option<message_channel_voice::Status>,
    pub tick: u32,
}

impl View for Track<'_> {
    type V = TrackModel;

    closed spec fn view(&self) -> TrackModel {
        TrackModel {
            bytes: self.bytes@,
            pos: self.pos,
            running_status: self.running_status,
            tick: self.tick,
        }
    }
}

#[derive(Debug, PartialEq, Eq)]
pub enum ParseError {
    EventInvalid { data: Vec<u8>, pos: usize, err: event::ParseError },
}

/// `ParseError` with its data as a sequence and its event error taken by its view.
pub enum ParseErrorModel {
    EventInvalid { data: Seq<u8>, pos: usize, err: event::ParseErrorModel },
}

impl View for ParseError {
    type V = ParseErrorModel;

    open spec fn view(&self) -> ParseErrorModel {
        match self {
            ParseError::EventInvalid { data, pos, err } => ParseErrorModel::EventInvalid {
                data: data@,
                pos: *pos,
                err: err@,
            },
        }
    }
}

/// What reading the next event gives: the event and the number of bytes it took, nothing at the
/// end of the track, or why it cannot be read.
pub type NextEventResult = Result<Option<(usize, EventModel)>, ParseErrorModel>;

/// The result of `Track::next_event` taken by its view.
pub open spec fn next_event_view(res: Result<Option<(usize, Event)>, ParseError>) -> NextEventResult {
    match res {
        Ok(Some((n, event))) => Ok(Some((n, event@))),
        Ok(None) => Ok(None),
        Err(e) => Err(e@),
    }
}

impl TrackModel {
    /// A track over `bytes` that has not been read yet.
    pub open spec fn spec_new(bytes: Seq<u8>) -> TrackModel {
        TrackModel { bytes, pos: 0, running_status: None, tick: 0 }
    }

    /// The bytes from `pos` on, or none when `pos` lies past the end.
    pub open spec fn tail(bytes: Seq<u8>, pos: int) -> Seq<u8> {
        if pos <= bytes.len() {
            bytes.skip(pos)
        } else {
            Seq::empty()
        }
    }

    /// The number of bytes left to read.
    pub open spec fn remaining(self) -> nat {
        if self.pos <= self.bytes.len() {
            (self.bytes.len() - self.pos) as nat
        } else {
            0
        }
    }

    /// Whether reading the next event of the track would fail unrecoverably.
    pub open spec fn spec_unreadable(self) -> bool {
        self.pos < self.bytes.len() && Event::spec_unreadable(
            self.bytes.skip(self.pos as int),
            self.tick,
            self.running_status,
        )
    }

    /// What reading the next event gives, and the state of the track after it.
    pub open spec fn spec_next_event(self) -> (NextEventResult, TrackModel) {
        if self.pos >= self.bytes.len() {
            (Ok(None), self)
        } else {
            match Event::spec_from_bytes(
                self.bytes.skip(self.pos as int),
                self.tick,
                self.running_status,
            ) {
                Err((pos_event, err)) => (
                    Err(
                        ParseErrorModel::EventInvalid {
                            data: TrackModel::tail(self.bytes, self.pos + pos_event),
                            pos: (self.pos + pos_event) as usize,
                            err,
                        },
                    ),
                    self,
                ),
                Ok((consumed, event, running_status)) => (
                    Ok(Some((consumed, event))),
                    TrackModel {
                        bytes: self.bytes,
                        pos: (self.pos + consumed) as usize,
                        running_status,
                        tick: event.tick_absolute,
                    },
                ),
            }
        }
    }

    /// The events read one after another until the end of the track, or the first error; `None`
    /// when one of them cannot be read at all.
    pub open spec fn spec_events(self) -> Option<Result<Seq<EventModel>, ParseErrorModel>>
        decreases self.remaining(),
        when self.bytes.len() <= isize::MAX
    {
        if self.pos >= self.bytes.len() {
            Some(Ok(Seq::empty()))
        } else if self.spec_unreadable() {
            None
        } else {
            proof {
                event::lemma_event_bounds(
                    self.bytes.skip(self.pos as int),
                    self.tick,
                    self.running_status,
                );
            }
            match self.spec_next_event() {
                (Err(e), _) => Some(Err(e)),
                (Ok(None), _) => Some(Ok(Seq::empty())),
                (Ok(Some((_, event))), next) => match next.spec_events() {
                    None => None,
                    Some(Err(e)) => Some(Err(e)),
                    Some(Ok(rest)) => Some(Ok(seq![event] + rest)),
                },
            }
        }
    }
}

/// Reading an event moves a track past the bytes it took and on to its absolute tick; a failed
/// read leaves the track as it was; at the end, the track stays at the end.
pub proof fn law_next_event_state(track: TrackModel)
    requires
        track.bytes.len() <= isize::MAX,
        !track.spec_unreadable(),
    ensures
        ({
            let (res, next) = track.spec_next_event();
            &&& next.bytes == track.bytes
            &&& res matches Ok(Some((n, event))) ==> next.pos == track.pos + n && next.tick
                == event.tick_absolute && event.tick_absolute == track.tick + event.tick_delta
                && n >= 2
            &&& res is Err ==> next == track
            &&& res matches Ok(None) ==> next == track && next.spec_next_event() == (
                Ok::<Option<(usize, EventModel)>, ParseErrorModel>(None),
                next,
            )
        }),
{
    if track.pos < track.bytes.len() {
        event::lemma_event_bounds(track.bytes.skip(track.pos as int), track.tick, track.running_status);
    }
}

/// After a track reads an event, its running status is the kind of the channel voice message of
/// that event, or none after a meta event; an event read under the running status has a message of
/// the kind the track held before.
pub proof fn law_track_running_status(track: TrackModel)
    requires
        track.bytes.len() <= isize::MAX,
        !track.spec_unreadable(),
    ensures
        ({
            let (res, next) = track.spec_next_event();
            &&& res matches Ok(Some((_, event))) ==> next.running_status == match event.content {
                event::ContentModel::ChannelVoice { message, .. } => Some(message.spec_status()),
                event::ContentModel::MetaEvent(_) => None,
            }
            &&& res matches Ok(Some((_, event))) ==> (event.content matches event::ContentModel::ChannelVoice {
                is_running_status: true,
                message,
            } ==> track.running_status == Some(message.spec_status()))
        }),
{
    if track.pos < track.bytes.len() {
        let bytes = track.bytes.skip(track.pos as int);
        if let Ok((d, _)) = crate::variable_length_quantity::spec_variable_length_quantity(bytes) {
            event::law_running_status_kind(bytes.skip(d as int), track.running_status);
        }
    }
}

/// The absolute tick of each event of a track is the absolute tick of the event before it, or the
/// track's starting tick for the first, plus its own delta time.
pub proof fn law_ticks_accumulate(track: TrackModel)
    requires
        track.bytes.len() <= isize::MAX,
        track.spec_events() matches Some(Ok(_)),
    ensures
        track.spec_events() matches Some(Ok(events)) ==> forall|i: int|
            0 <= i < events.len() ==> #[trigger] events[i].tick_absolute == (if i == 0 {
                track.tick as int
            } else {
                events[i - 1].tick_absolute as int
            }) + events[i].tick_delta,
    decreases track.remaining(),
{
    if track.pos < track.bytes.len() && !track.spec_unreadable() {
        event::lemma_event_bounds(track.bytes.skip(track.pos as int), track.tick, track.running_status);
        if let (Ok(Some((_, first))), next) = track.spec_next_event() {
            law_ticks_accumulate(next);
            let events = track.spec_events()->Some_0->Ok_0;
            let rest = next.spec_events()->Some_0->Ok_0;
            assert(events == seq![first] + rest);
            assert forall|i: int| 0 <= i < events.len() implies #[trigger] events[i].tick_absolute
                == (if i == 0 {
                track.tick as int
            } else {
                events[i - 1].tick_absolute as int
            }) + events[i].tick_delta by {
                if i > 0 {
                    assert(events[i] == rest[i - 1]);
                    if i > 1 {
                        assert(events[i - 1] == rest[i - 2]);
                    }
                }
            }
        }
    }
}

impl<'a> Track<'a> {
    pub fn new(bytes: &'a [u8]) -> (res: Self)
        ensures
            res@ == TrackModel::spec_new(bytes@),
    {
        Self { bytes, pos: 0, running_status: None, tick: 0 }
    }

    /// Whether the next event of the track can be read; see `Event::is_readable`.
    pub fn can_read_next_event(&self) -> (res: bool)
        requires
            self@.bytes.len() <= isize::MAX,
        ensures
            res == !self@.spec_unreadable(),
    {
        if self.pos >= self.bytes.len() {
            return true;
        }
        let event_bytes = vstd::slice::slice_subrange(self.bytes, self.pos, self.bytes.len());
        proof {
            assert(event_bytes@ == self.bytes@.skip(self.pos as int));
        }
        Event::is_readable(event_bytes, self.tick, self.running_status)
    }

    /// Reads the next event of the track, if any is left.
    pub fn next_event(&mut self) -> (res: Result<Option<(usize, Event)>, ParseError>)
        requires
            old(self)@.bytes.len() <= isize::MAX,
            !old(self)@.spec_unreadable(),
        ensures
            (next_event_view(res), final(self)@) == old(self)@.spec_next_event(),
    {
        let mut pos = self.pos;

        if pos >= self.bytes.len() {
            return Ok(None);
        }
        let event_bytes = vstd::slice::slice_subrange(self.bytes, pos, self.bytes.len());
        proof {
            assert(event_bytes@ == self.bytes@.skip(pos as int));
        }

        let (consumed_event, event, new_running_status) = match Event::from_bytes(
            event_bytes,
            self.tick,
            self.running_status,
        ) {
            Ok(parsed) => parsed,
            Err((pos_event, err)) => {
                let data_start = pos + pos_event;
                let data = if data_start <= self.bytes.len() {
                    vstd::slice::slice_subrange(self.bytes, data_start, self.bytes.len())
                } else {
                    &[]
                };
                proof {
                    if data_start > self.bytes.len() {
                        assert(data@ =~= Seq::<u8>::empty());
                    }
                }
                return Err(
                    ParseError::EventInvalid {
                        data: vstd::slice::slice_to_vec(data),
                        pos: data_start,
                        err,
                    },
                );
            },
        };

        self.running_status = new_running_status;
        pos += consumed_event;

        self.tick = event.tick_absolute;
        self.pos = pos;

        Ok(Some((consumed_event, event)))
    }

    /// Whether every event of the track, up to its end or the first error, can be read; see
    /// `can_read_next_event`. This is what `try_all_events` asks of its track.
    pub fn can_read_all_events(&self) -> (res: bool)
        requires
            self@.bytes.len() <= isize::MAX,
        ensures
            res == self@.spec_events() is Some,
    {
        let mut track = Track {
            bytes: self.bytes,
            pos: self.pos,
            running_status: self.running_status,
            tick: self.tick,
        };
        loop
            invariant
                track@.bytes == self@.bytes,
                self@.bytes.len() <= isize::MAX,
                (self@.spec_events() is Some) == (track@.spec_events() is Some),
            decreases track@.remaining(),
        {
            let ghost before = track@;
            if !track.can_read_next_event() {
                return false;
            }
            proof {
                if before.pos < before.bytes.len() {
                    event::lemma_event_bounds(
                        before.bytes.skip(before.pos as int),
                        before.tick,
                        before.running_status,
                    );
                }
            }
            match track.next_event() {
                Ok(Some(_)) => {},
                Ok(None) => {
                    return true;
                },
                Err(_) => {
                    return true;
                },
            }
        }
    }


    pub fn try_all_events(self) -> (res: Result<Vec<Event>, ParseError>)
        requires
            self@.bytes.len() <= isize::MAX,
            self@.spec_events() is Some,
        ensures
            match (res, self@.spec_events()) {
                (Ok(events), Some(Ok(models))) => events@.map_values(|e: Event| e@) == models,
                (Err(e), Some(Err(f))) => e@ == f,
                _ => false,
            },
    {
        let ghost start = self@;
        let mut track = self;
        let mut events: Vec<Event> = Vec::new();

        loop
            invariant
                start == self@,
                track@.bytes == start.bytes,
                start.bytes.len() <= isize::MAX,
                track@.spec_events() is Some,
                match (start.spec_events(), track@.spec_events()) {
                    (Some(Ok(all)), Some(Ok(rest))) => all == events@.map_values(|e: Event| e@)
                        + rest,
                    (Some(Err(e)), Some(Err(f))) => e == f,
                    _ => false,
                },
            decreases track@.remaining(),
        {
            let ghost before = track@;
            proof {
                assert(before.bytes.len() <= isize::MAX);
                if before.pos < before.bytes.len() {
                    event::lemma_event_bounds(
                        before.bytes.skip(before.pos as int),
                        before.tick,
                        before.running_status,
                    );
                }
            }
            match track.next_event() {
                Ok(Some((_, event))) => {
                    let ghost model = event@;
                    events.push(event);
                    proof {
                        assert(events@.map_values(|e: Event| e@) =~= old_events_view(
                            events@.drop_last(),
                        ).push(model));
                    }
                },
                Ok(None) => {
                    assert(events@.map_values(|e: Event| e@) + Seq::<EventModel>::empty()
                        =~= events@.map_values(|e: Event| e@));
                    return Ok(events);
                },
                Err(err) => {
                    return Err(err);
                },
            }
        }
    }
}

/// The views of a sequence of events.
spec fn old_events_view(events: Seq<Event>) -> Seq<EventModel> {
    events.map_values(|e: Event| e@)
}

impl ParseErrorModel {
    /// Whether `text` is the description of the error: where it happened, then what it was.
    pub open spec fn describes(self, text: Seq<char>) -> bool {
        match self {
            ParseErrorModel::EventInvalid { pos, err, .. } => {
                let prefix = "at "@ + spec_decimal(pos as nat) + ": "@;
                starts_with(text, prefix) && err.describes(text.skip(prefix.len() as int))
            },
        }
    }
}

impl ParseError {
    /// A description of the error: where it happened, then what it was.
    pub fn to_string(&self) -> (res: String)
        ensures
            self@.describes(res@),
    {
        match self {
            ParseError::EventInvalid { pos, err, .. } => {
                let mut res = String::from_str("at ");
                res.append(decimal(*pos as u64).as_str());
                res.append(": ");
                let ghost prefix = res@;
                let inner = err.to_string();
                res.append(inner.as_str());
                proof {
                    lemma_after_prefix(prefix, inner@);
                }
                res
            },
        }
    }
}

} // verus!
