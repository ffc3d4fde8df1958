//! Track events: a delta time followed by a channel voice message or a meta event.
use crate::message_channel_voice::{self, MessageChannelVoice};
use crate::meta_event::{self, MetaEvent, MetaEventModel};
use crate::variable_length_quantity::{
    self, spec_variable_length_quantity, variable_length_quantity, variable_length_quantity_usize,
};
use crate::text::{decimal, lemma_after_prefix, spec_decimal, starts_with};
use vstd::prelude::*;
use vstd::string::*;

verus! {

#[derive(Debug, PartialEq, Eq)]
pub struct Event {
    pub tick_delta: u32,
    pub tick_absolute: u32,
    pub content: Content,
}

#[derive(Debug, PartialEq, Eq)]
pub enum Content {
    ChannelVoice { is_running_status: bool, message: MessageChannelVoice },
    MetaEvent(MetaEvent),
}

/// `Content` with a meta event taken by its view.
pub enum ContentModel {
    ChannelVoice { is_running_status: bool, message: MessageChannelVoice },
    MetaEvent(MetaEventModel),
}

impl View for Content {
    type V = ContentModel;

    open spec fn view(&self) -> ContentModel {
        match self {
            Content::ChannelVoice { is_running_status, message } => ContentModel::ChannelVoice {
                is_running_status: *is_running_status,
                message: *message,
            },
            Content::MetaEvent(meta_event) => ContentModel::MetaEvent(meta_event@),
        }
    }
}

/// `Event` with its content taken by its view.
pub struct EventModel {
    pub tick_delta: u32,
    pub tick_absolute: u32,
    pub content: ContentModel,
}

impl View for Event {
    type V = EventModel;

    open spec fn view(&self) -> EventModel {
        EventModel {
            tick_delta: self.tick_delta,
            tick_absolute: self.tick_absolute,
            content: self.content@,
        }
    }
}

#[derive(Debug, PartialEq, Eq)]
pub enum ParseError {
    DeltaTimeInvalid(variable_length_quantity::ParseError),
    InputEmpty,
    MessageChannelVoiceInvalid(message_channel_voice::ParseError),
    MessageChannelVoiceStatusInvalid(u8),
    MetaEventInvalid(meta_event::ParseError),
    MetaEventTypeMissing,
}

/// `ParseError` with a meta event error taken by its view.
pub enum ParseErrorModel {
    DeltaTimeInvalid(variable_length_quantity::ParseError),
    InputEmpty,
    MessageChannelVoiceInvalid(message_channel_voice::ParseError),
    MessageChannelVoiceStatusInvalid(u8),
    MetaEventInvalid(meta_event::ParseErrorModel),
    MetaEventTypeMissing,
}

impl View for ParseError {
    type V = ParseErrorModel;

    open spec fn view(&self) -> ParseErrorModel {
        match self {
            ParseError::DeltaTimeInvalid(e) => ParseErrorModel::DeltaTimeInvalid(*e),
            ParseError::InputEmpty => ParseErrorModel::InputEmpty,
            ParseError::MessageChannelVoiceInvalid(e) => ParseErrorModel::MessageChannelVoiceInvalid(
                *e,
            ),
            ParseError::MessageChannelVoiceStatusInvalid(s) =>
                ParseErrorModel::MessageChannelVoiceStatusInvalid(*s),
            ParseError::MetaEventInvalid(e) => ParseErrorModel::MetaEventInvalid(e@),
            ParseError::MetaEventTypeMissing => ParseErrorModel::MetaEventTypeMissing,
        }
    }
}

impl From<message_channel_voice::ParseError> for ParseError {
    fn from(value: message_channel_voice::ParseError) -> (res: Self) {
        Self::MessageChannelVoiceInvalid(value)
    }
}

impl vstd::std_specs::convert::FromSpecImpl<message_channel_voice::ParseError> for ParseError {
    open spec fn obeys_from_spec() -> bool {
        true
    }

    open spec fn from_spec(value: message_channel_voice::ParseError) -> ParseError {
        ParseError::MessageChannelVoiceInvalid(value)
    }
}

impl From<meta_event::ParseError> for ParseError {
    fn from(value: meta_event::ParseError) -> (res: Self) {
        Self::MetaEventInvalid(value)
    }
}

impl vstd::std_specs::convert::FromSpecImpl<meta_event::ParseError> for ParseError {
    open spec fn obeys_from_spec() -> bool {
        true
    }

    open spec fn from_spec(value: meta_event::ParseError) -> ParseError {
        ParseError::MetaEventInvalid(value)
    }
}

impl From<MetaEvent> for Content {
    fn from(value: MetaEvent) -> (res: Self) {
        Self::MetaEvent(value)
    }
}

impl vstd::std_specs::convert::FromSpecImpl<MetaEvent> for Content {
    open spec fn obeys_from_spec() -> bool {
        true
    }

    open spec fn from_spec(value: MetaEvent) -> Content {
        Content::MetaEvent(value)
    }
}

/// What parsing event content gives: the number of bytes taken, the content and the running
/// status after it; or where parsing stopped and why.
pub type ContentResult = Result<
    (usize, ContentModel, Option<message_channel_voice::Status>),
    (usize, ParseErrorModel),
>;

impl Content {
    /// Whether reading content from `bytes` would find a meta event whose length does not read as
    /// a variable-length quantity.
    pub open spec fn spec_length_unreadable(bytes: Seq<u8>) -> bool {
        &&& bytes.len() >= 2
        &&& bytes[0] == meta_event::STATUS
        &&& spec_variable_length_quantity(bytes.skip(2)) is Err
    }

    /// The meta event that starts at `bytes[1]` (its type byte), read as content.
    pub open spec fn spec_meta_event(bytes: Seq<u8>) -> ContentResult {
        if bytes.len() < 2 {
            Err((1, ParseErrorModel::MetaEventTypeMissing))
        } else {
            let typ = meta_event::Type::spec_from_byte(bytes[1]);
            let (consumed_length, length) = spec_variable_length_quantity(bytes.skip(2))->Ok_0;
            let pos = 2 + consumed_length;
            let meta_event_bytes = if pos + length <= bytes.len() {
                bytes.subrange(pos, pos + length)
            } else {
                Seq::empty()
            };
            match MetaEvent::spec_from_bytes(typ, length as usize, meta_event_bytes) {
                Ok((consumed, event)) => Ok(
                    ((pos + consumed) as usize, ContentModel::MetaEvent(event), None),
                ),
                Err(e) => Err((pos as usize, ParseErrorModel::MetaEventInvalid(e))),
            }
        }
    }

    /// The channel voice message whose first byte, its status byte or its first data byte, stands
    /// at `pos` in `bytes`, under the given running status. Positions count from the start of
    /// `bytes`.
    pub open spec fn spec_channel_voice_at(
        bytes: Seq<u8>,
        pos: int,
        running_status: Option<message_channel_voice::Status>,
    ) -> ContentResult {
        let parsed = message_channel_voice::Status::spec_try_from_byte(bytes[pos]);
        if parsed is Err && running_status is None {
            Err((pos as usize, ParseErrorModel::MessageChannelVoiceStatusInvalid(parsed->Err_0)))
        } else {
            let is_running_status = parsed is Err;
            let status = if is_running_status {
                running_status->Some_0
            } else {
                parsed->Ok_0
            };
            let start = if is_running_status {
                pos
            } else {
                pos + 1
            };
            match MessageChannelVoice::spec_from_bytes(status, bytes.skip(start)) {
                Ok((consumed, message)) => Ok(
                    (
                        (start + consumed) as usize,
                        ContentModel::ChannelVoice { is_running_status, message },
                        Some(status),
                    ),
                ),
                Err(e) => Err((start as usize, ParseErrorModel::MessageChannelVoiceInvalid(e))),
            }
        }
    }

    /// The channel voice message that `bytes` starts, under the given running status.
    pub open spec fn spec_channel_voice(
        bytes: Seq<u8>,
        running_status: Option<message_channel_voice::Status>,
    ) -> ContentResult {
        Content::spec_channel_voice_at(bytes, 0, running_status)
    }

    /// The content that `bytes` starts, under the given running status.
    pub open spec fn spec_from_bytes(
        bytes: Seq<u8>,
        running_status: Option<message_channel_voice::Status>,
    ) -> ContentResult {
        if bytes.len() == 0 {
            Err((0, ParseErrorModel::InputEmpty))
        } else if bytes[0] == meta_event::STATUS {
            Content::spec_meta_event(bytes)
        } else {
            Content::spec_channel_voice(bytes, running_status)
        }
    }

    /// Whether content can be read from `bytes`: a meta event's length must read as a
    /// variable-length quantity.
    pub fn is_readable(bytes: &[u8]) -> (res: bool)
        ensures
            res == !Content::spec_length_unreadable(bytes@),
    {
        if bytes.len() >= 2 && bytes[0] == meta_event::STATUS {
            let length_bytes = vstd::slice::slice_subrange(bytes, 2, bytes.len());
            proof {
                assert(length_bytes@ == bytes@.skip(2));
            }
            variable_length_quantity(length_bytes).is_ok()
        } else {
            true
        }
    }

    /// Reads the content of an event: a meta event, or a channel voice message with its own status
    /// or, when its first byte is no status, under the running status.
    pub fn from_bytes(bytes: &[u8], running_status: Option<message_channel_voice::Status>) -> (res:
        Result<
        (usize, Self, Option<message_channel_voice::Status>),
        (usize, ParseError),
    >)
        requires
            bytes@.len() <= isize::MAX,
            !Content::spec_length_unreadable(bytes@),
        ensures
            crate::result_view(res) == Content::spec_from_bytes(bytes@, running_status),
            res matches Ok((n, _, _)) ==> 1 <= n <= bytes@.len() + 0x1000_0000,
            res matches Err((p, _)) ==> p <= bytes@.len(),
    {
        if bytes.len() < 1 {
            return Err((0, ParseError::InputEmpty));
        }
        let status_byte = &bytes[0];

        if *status_byte == meta_event::STATUS {
            return Self::from_bytes_meta_event(bytes, 1);
        }
        Self::from_bytes_message_channel_voice(bytes, 0, status_byte, running_status)
    }

    fn from_bytes_meta_event(bytes: &[u8], pos: usize) -> (res: Result<
        (usize, Self, Option<message_channel_voice::Status>),
        (usize, ParseError),
    >)
        requires
            bytes@.len() <= isize::MAX,
            bytes@.len() >= 1,
            bytes@[0] == meta_event::STATUS,
            pos == 1,
            !Content::spec_length_unreadable(bytes@),
        ensures
            crate::result_view(res) == Content::spec_meta_event(bytes@),
            res matches Ok((n, _, _)) ==> 1 <= n <= bytes@.len() + 0x1000_0000,
            res matches Err((p, _)) ==> p <= bytes@.len(),
    {
        let mut pos = pos;
        if pos >= bytes.len() {
            return Err((pos, ParseError::MetaEventTypeMissing));
        }
        let typ = meta_event::Type::from(bytes[pos]);
        pos += 1;

        let length_bytes = vstd::slice::slice_subrange(bytes, pos, bytes.len());
        proof {
            assert(length_bytes@ == bytes@.skip(2));
        }
        let (consumed_length, length) = variable_length_quantity_usize(length_bytes).unwrap();
        pos += consumed_length;

        let meta_event_bytes = if length <= bytes.len() - pos {
            vstd::slice::slice_subrange(bytes, pos, pos + length)
        } else {
            &[]
        };
        proof {
            if length > bytes.len() - pos {
                assert(meta_event_bytes@ =~= Seq::<u8>::empty());
            }
        }
        let (consumed_meta_event, meta_event) = match MetaEvent::from_bytes(
            typ,
            length,
            meta_event_bytes,
        ) {
            Ok(parsed) => parsed,
            Err(err) => return Err((pos, ParseError::from(err))),
        };
        pos += consumed_meta_event;

        Ok((pos, Content::from(meta_event), None))
    }

    fn from_bytes_message_channel_voice(
        bytes: &[u8],
        pos: usize,
        status_byte: &u8,
        running_status: Option<message_channel_voice::Status>,
    ) -> (res: Result<
        (usize, Self, Option<message_channel_voice::Status>),
        (usize, ParseError),
    >)
        requires
            pos < bytes@.len(),
            *status_byte == bytes@[pos as int],
        ensures
            crate::result_view(res) == Content::spec_channel_voice_at(
                bytes@,
                pos as int,
                running_status,
            ),
            res matches Ok((n, _, _)) ==> pos + 1 <= n <= bytes@.len(),
            res matches Err((p, _)) ==> p <= bytes@.len(),
    {
        let mut pos = pos;
        let (status, is_running_status) = match message_channel_voice::Status::try_from(
            *status_byte,
        ) {
            Ok(status) => (status, false),
            Err(err) => match running_status {
                Some(status) => (status, true),
                None => {
                    return Err((pos, ParseError::MessageChannelVoiceStatusInvalid(err)));
                },
            },
        };

        if !is_running_status {
            assert(pos < bytes.len());
            pos += 1;
        }

        let content_bytes = vstd::slice::slice_subrange(bytes, pos, bytes.len());
        proof {
            assert(content_bytes@ == bytes@.skip(pos as int));
        }

        let (consumed_message, message) = match MessageChannelVoice::from_bytes(
            status,
            content_bytes,
        ) {
            Ok(parsed) => parsed,
            Err(err) => return Err((pos, ParseError::from(err))),
        };
        pos += consumed_message;

        Ok((pos, Content::ChannelVoice { is_running_status, message }, Some(status)))
    }
}

/// What parsing an event gives: the number of bytes taken, the event and the running status after
/// it; or where parsing stopped and why.
pub type EventResult = Result<
    (usize, EventModel, Option<message_channel_voice::Status>),
    (usize, ParseErrorModel),
>;

impl Event {
    /// The event that `bytes` starts, after the absolute tick `tick` and under the given running
    /// status. Positions of errors in the content count from the end of the delta time.
    pub open spec fn spec_from_bytes(
        bytes: Seq<u8>,
        tick: u32,
        running_status: Option<message_channel_voice::Status>,
    ) -> EventResult {
        match spec_variable_length_quantity(bytes) {
            Err(e) => Err((0, ParseErrorModel::DeltaTimeInvalid(e))),
            Ok((consumed_delta, tick_delta)) => match Content::spec_from_bytes(
                bytes.skip(consumed_delta as int),
                running_status,
            ) {
                Err(e) => Err(e),
                Ok((consumed, content, running_status_new)) => Ok(
                    (
                        (consumed_delta + consumed) as usize,
                        EventModel {
                            tick_delta,
                            tick_absolute: (tick + tick_delta) as u32,
                            content,
                        },
                        running_status_new,
                    ),
                ),
            },
        }
    }

    /// Whether reading the event would fail unrecoverably: its meta event length does not read,
    /// or its absolute tick does not fit in a `u32`.
    pub open spec fn spec_unreadable(
        bytes: Seq<u8>,
        tick: u32,
        running_status: Option<message_channel_voice::Status>,
    ) -> bool {
        match spec_variable_length_quantity(bytes) {
            Err(_) => false,
            Ok((consumed_delta, tick_delta)) => {
                let rest = bytes.skip(consumed_delta as int);
                Content::spec_length_unreadable(rest) || (Content::spec_from_bytes(
                    rest,
                    running_status,
                ) is Ok && tick + tick_delta > u32::MAX)
            },
        }
    }

    /// Whether an event can be read from `bytes` after the absolute tick `tick` under the given
    /// running status: its meta event length reads, and its absolute tick fits in a `u32`.
    pub fn is_readable(
        bytes: &[u8],
        tick: u32,
        running_status: Option<message_channel_voice::Status>,
    ) -> (res: bool)
        requires
            bytes@.len() <= isize::MAX,
        ensures
            res == !Event::spec_unreadable(bytes@, tick, running_status),
    {
        let (delta_time_consumed, tick_delta) = match variable_length_quantity(bytes) {
            Ok(parsed) => parsed,
            Err(_) => return true,
        };
        let content_bytes = vstd::slice::slice_subrange(bytes, delta_time_consumed, bytes.len());
        proof {
            assert(content_bytes@ == bytes@.skip(delta_time_consumed as int));
        }
        if !Content::is_readable(content_bytes) {
            return false;
        }
        match Content::from_bytes(content_bytes, running_status) {
            Ok(_) => tick_delta <= u32::MAX - tick,
            Err(_) => true,
        }
    }

    /// Reads an event that follows the absolute tick `tick`, under the given running status.
    pub fn from_bytes(
        bytes: &[u8],
        tick: u32,
        running_status: Option<message_channel_voice::Status>,
    ) -> (res: Result<
        (usize, Self, Option<message_channel_voice::Status>),
        (usize, ParseError),
    >)
        requires
            bytes@.len() <= isize::MAX,
            !Event::spec_unreadable(bytes@, tick, running_status),
        ensures
            crate::result_view(res) == Event::spec_from_bytes(bytes@, tick, running_status),
            res matches Ok((n, _, _)) ==> 2 <= n <= bytes@.len() + 0x1000_0000,
            res matches Err((p, _)) ==> p <= bytes@.len(),
    {
        let mut pos: usize = 0;

        let (delta_time_consumed, tick_delta) = match variable_length_quantity(bytes) {
            Ok(parsed) => parsed,
            Err(err) => return Err((pos, ParseError::DeltaTimeInvalid(err))),
        };
        pos += delta_time_consumed;

        let content_bytes = vstd::slice::slice_subrange(bytes, pos, bytes.len());
        proof {
            assert(content_bytes@ == bytes@.skip(pos as int));
        }
        let (content_consumed, content, running_status_new) = Content::from_bytes(
            content_bytes,
            running_status,
        )?;
        pos += content_consumed;

        Ok((pos, Self { tick_delta, tick_absolute: tick + tick_delta, content }, running_status_new))
    }
}

/// Running status: a channel voice message sets the running status to its own kind, and a message
/// without a status byte is read under the running status it was given; a meta event clears it.
pub proof fn law_running_status(
    bytes: Seq<u8>,
    running_status: Option<message_channel_voice::Status>,
)
    ensures
        Content::spec_from_bytes(bytes, running_status) matches Ok(
            (_, ContentModel::ChannelVoice { is_running_status, .. }, new),
        ) ==> new is Some && (is_running_status <==> message_channel_voice::Status::spec_try_from_byte(
            bytes[0],
        ) is Err) && (is_running_status ==> new == running_status),
        Content::spec_from_bytes(bytes, running_status) matches Ok(
            (_, ContentModel::MetaEvent(_), new),
        ) ==> new is None,
        Content::spec_from_bytes(bytes, running_status) matches Ok((_, _, new)) ==> (new is None
            <==> bytes[0] == meta_event::STATUS),
{
}

/// A meta event in a track: after the status byte `0xFF` and the type byte comes its length as a
/// variable-length quantity of `k` bytes, and its data starts right after that. The data given to
/// the meta event is the `length` bytes there (none when fewer are left); the content takes the
/// status, type and length bytes and the data, and clears the running status; an error in the data
/// is reported where the data starts.
pub proof fn law_meta_event_content(
    bytes: Seq<u8>,
    running_status: Option<message_channel_voice::Status>,
)
    requires
        bytes.len() >= 2,
        bytes[0] == meta_event::STATUS,
        spec_variable_length_quantity(bytes.skip(2)) is Ok,
    ensures
        ({
            let (k, length) = spec_variable_length_quantity(bytes.skip(2))->Ok_0;
            let start = 2 + k;
            let data = if start + length <= bytes.len() {
                bytes.subrange(start, start + length)
            } else {
                Seq::empty()
            };
            let typ = meta_event::Type::spec_from_byte(bytes[1]);
            &&& Content::spec_from_bytes(bytes, running_status) == match MetaEvent::spec_from_bytes(
                typ,
                length as usize,
                data,
            ) {
                Ok((_, event)) => ContentResult::Ok(
                    ((start + length) as usize, ContentModel::MetaEvent(event), None),
                ),
                Err(e) => ContentResult::Err((start as usize, ParseErrorModel::MetaEventInvalid(e))),
            }
            &&& MetaEvent::spec_from_bytes(typ, length as usize, data) matches Ok((n, _)) ==> n
                == length
        }),
{
    variable_length_quantity::lemma_variable_length_quantity_bounds(bytes.skip(2));
}

/// A channel voice message in a track: a first byte that names a message kind is its status
/// byte, and the message is read from the data bytes after it; any other first byte is the first
/// data byte of a message of the running status's kind, and with no running status it is an
/// error naming the byte's upper nibble. The content takes the status byte, if any, and the data.
pub proof fn law_channel_voice_content(
    bytes: Seq<u8>,
    running_status: Option<message_channel_voice::Status>,
)
    requires
        bytes.len() >= 1,
        bytes[0] != meta_event::STATUS,
    ensures
        ({
            let parsed = message_channel_voice::Status::spec_try_from_byte(bytes[0]);
            Content::spec_from_bytes(bytes, running_status) == if parsed is Ok {
                match MessageChannelVoice::spec_from_bytes(parsed->Ok_0, bytes.skip(1)) {
                    Ok((m, message)) => ContentResult::Ok(
                        (
                            (1 + m) as usize,
                            ContentModel::ChannelVoice { is_running_status: false, message },
                            Some(parsed->Ok_0),
                        ),
                    ),
                    Err(e) => ContentResult::Err((1, ParseErrorModel::MessageChannelVoiceInvalid(e))),
                }
            } else if running_status is Some {
                match MessageChannelVoice::spec_from_bytes(running_status->Some_0, bytes) {
                    Ok((m, message)) => ContentResult::Ok(
                        (
                            m,
                            ContentModel::ChannelVoice { is_running_status: true, message },
                            running_status,
                        ),
                    ),
                    Err(e) => ContentResult::Err((0, ParseErrorModel::MessageChannelVoiceInvalid(e))),
                }
            } else {
                ContentResult::Err(
                    (0, ParseErrorModel::MessageChannelVoiceStatusInvalid((bytes[0] / 16 * 16) as u8)),
                )
            }
        }),
{
    assert(bytes.skip(0) =~= bytes);
}

/// After content is read, the running status is the kind of the channel voice message just read,
/// or none after a meta event. A message with its own status byte is of the kind that byte names;
/// a message read under the running status is of the running status's kind.
pub proof fn law_running_status_kind(
    bytes: Seq<u8>,
    running_status: Option<message_channel_voice::Status>,
)
    ensures
        Content::spec_from_bytes(bytes, running_status) matches Ok((_, content, new)) ==> new
            == match content {
            ContentModel::ChannelVoice { message, .. } => Some(message.spec_status()),
            ContentModel::MetaEvent(_) => None,
        },
        Content::spec_from_bytes(bytes, running_status) matches Ok(
            (_, ContentModel::ChannelVoice { is_running_status, message }, _),
        ) ==> if is_running_status {
            running_status == Some(message.spec_status())
        } else {
            message_channel_voice::Status::spec_try_from_byte(bytes[0]) == Ok::<
                message_channel_voice::Status,
                u8,
            >(message.spec_status())
        },
{
    if bytes.len() > 0 && bytes[0] != meta_event::STATUS {
        let parsed = message_channel_voice::Status::spec_try_from_byte(bytes[0]);
        if parsed is Ok {
            message_channel_voice::law_message_status(parsed->Ok_0, bytes.skip(1));
        } else if running_status is Some {
            message_channel_voice::law_message_status(running_status->Some_0, bytes.skip(0));
        }
    }
}

/// An event is a delta time, a variable-length quantity, followed by its content: a readable
/// event's delta is that quantity, its content is the content read right after it, and it takes
/// both; a delta time that does not read is the error at the start; an error in the content is
/// that content error.
pub proof fn law_event_parts(
    bytes: Seq<u8>,
    tick: u32,
    running_status: Option<message_channel_voice::Status>,
)
    requires
        bytes.len() <= isize::MAX,
        !Event::spec_unreadable(bytes, tick, running_status),
    ensures
        spec_variable_length_quantity(bytes) matches Err(e) ==> Event::spec_from_bytes(
            bytes,
            tick,
            running_status,
        ) == EventResult::Err((0, ParseErrorModel::DeltaTimeInvalid(e))),
        spec_variable_length_quantity(bytes) matches Ok((d, delta)) ==> match Event::spec_from_bytes(
            bytes,
            tick,
            running_status,
        ) {
            Ok((n, event, new)) => event.tick_delta == delta && Content::spec_from_bytes(
                bytes.skip(d as int),
                running_status,
            ) == ContentResult::Ok(((n - d) as usize, event.content, new)) && n >= d,
            Err((p, e)) => Content::spec_from_bytes(bytes.skip(d as int), running_status) matches Err(
                (q, f),
            ) && p == q && e == f,
        },
{
    variable_length_quantity::lemma_variable_length_quantity_bounds(bytes);
    if let Ok((d, _)) = spec_variable_length_quantity(bytes) {
        lemma_content_bounds(bytes.skip(d as int), running_status);
    }
}

/// The absolute tick of an event is the tick it follows plus its delta time.
pub proof fn law_event_tick(
    bytes: Seq<u8>,
    tick: u32,
    running_status: Option<message_channel_voice::Status>,
)
    requires
        !Event::spec_unreadable(bytes, tick, running_status),
    ensures
        Event::spec_from_bytes(bytes, tick, running_status) matches Ok((_, event, _))
            ==> event.tick_absolute == tick + event.tick_delta,
{
}

/// Readable content takes at least one byte, and at most the input and a meta event's length.
pub proof fn lemma_content_bounds(
    bytes: Seq<u8>,
    running_status: Option<message_channel_voice::Status>,
)
    requires
        bytes.len() <= isize::MAX,
        !Content::spec_length_unreadable(bytes),
    ensures
        Content::spec_from_bytes(bytes, running_status) matches Ok((n, _, _)) ==> 1 <= n
            <= bytes.len() + 0x1000_0000,
        Content::spec_from_bytes(bytes, running_status) matches Err((p, _)) ==> p <= bytes.len(),
{
    if bytes.len() >= 2 && bytes[0] == meta_event::STATUS {
        variable_length_quantity::lemma_variable_length_quantity_bounds(bytes.skip(2));
    }
}

/// A readable event takes at least two bytes, and at most the input and a meta event's length.
pub proof fn lemma_event_bounds(
    bytes: Seq<u8>,
    tick: u32,
    running_status: Option<message_channel_voice::Status>,
)
    requires
        bytes.len() <= isize::MAX,
        !Event::spec_unreadable(bytes, tick, running_status),
    ensures
        Event::spec_from_bytes(bytes, tick, running_status) matches Ok((n, _, _)) ==> 2 <= n
            <= bytes.len() + 0x1000_0000,
        Event::spec_from_bytes(bytes, tick, running_status) matches Err((p, _)) ==> p
            <= bytes.len(),
{
    variable_length_quantity::lemma_variable_length_quantity_bounds(bytes);
    if let Ok((c, _)) = spec_variable_length_quantity(bytes) {
        lemma_content_bounds(bytes.skip(c as int), running_status);
    }
}

impl ContentModel {
    /// Whether the content can be described; see `MetaEventModel::describable`.
    pub open spec fn describable(self) -> bool {
        self matches ContentModel::MetaEvent(meta_event) ==> meta_event.describable()
    }

    /// A description of the content; a message read under the running status is marked ` - r`.
    pub open spec fn spec_to_string(self) -> Seq<char> {
        match self {
            ContentModel::ChannelVoice { is_running_status, message } => message.spec_to_string()
                + if is_running_status {
                " - r"@
            } else {
                ""@
            },
            ContentModel::MetaEvent(meta_event) => "meta event "@ + meta_event.spec_to_string(),
        }
    }
}

impl Content {
    /// Whether the content can be described: a meta event in it must be describable.
    pub fn is_describable(&self) -> (res: bool)
        ensures
            res == self@.describable(),
    {
        match self {
            Content::ChannelVoice { .. } => true,
            Content::MetaEvent(meta_event) => meta_event.is_describable(),
        }
    }

    /// A description of the content; a message read under the running status is marked ` - r`.
    pub fn to_string(&self) -> (res: String)
        requires
            self@.describable(),
        ensures
            res@ == self@.spec_to_string(),
    {
        match self {
            Content::ChannelVoice { is_running_status, message } => {
                let mut res = message.to_string();
                res.append(
                    if *is_running_status {
                        " - r"
                    } else {
                        ""
                    },
                );
                res
            },
            Content::MetaEvent(meta_event) => {
                let mut res = String::from_str("meta event ");
                res.append(meta_event.to_string().as_str());
                res
            },
        }
    }
}

impl ParseErrorModel {
    /// Whether `text` is the description of the error; see `meta_event::ParseErrorModel`.
    pub open spec fn describes(self, text: Seq<char>) -> bool {
        match self {
            ParseErrorModel::DeltaTimeInvalid(e) => text == "delta time invalid: "@
                + e.spec_to_string(),
            ParseErrorModel::InputEmpty => text == "empty input"@,
            ParseErrorModel::MessageChannelVoiceInvalid(e) => text
                == "channel voice message is invalid: "@ + e.spec_to_string(),
            ParseErrorModel::MessageChannelVoiceStatusInvalid(status) => text == "status '"@
                + spec_decimal(status as nat) + "' is not valid for channel voice message"@,
            ParseErrorModel::MetaEventInvalid(e) => {
                let prefix = "meta event is invalid: "@;
                starts_with(text, prefix) && e.describes(text.skip(prefix.len() as int))
            },
            ParseErrorModel::MetaEventTypeMissing => text == "meta event event type is missing"@,
        }
    }
}

impl ParseError {
    /// A description of the error.
    pub fn to_string(&self) -> (res: String)
        ensures
            self@.describes(res@),
    {
        match self {
            ParseError::DeltaTimeInvalid(parse_error) => {
                let mut res = String::from_str("delta time invalid: ");
                res.append(parse_error.to_string().as_str());
                res
            },
            ParseError::InputEmpty => String::from_str("empty input"),
            ParseError::MessageChannelVoiceInvalid(parse_error) => {
                let mut res = String::from_str("channel voice message is invalid: ");
                res.append(parse_error.to_string().as_str());
                res
            },
            ParseError::MessageChannelVoiceStatusInvalid(status) => {
                let mut res = String::from_str("status '");
                res.append(decimal(*status as u64).as_str());
                res.append("' is not valid for channel voice message");
                res
            },
            ParseError::MetaEventInvalid(parse_error) => {
                let mut res = String::from_str("meta event is invalid: ");
                let ghost prefix = res@;
                let inner = parse_error.to_string();
                res.append(inner.as_str());
                proof {
                    lemma_after_prefix(prefix, inner@);
                }
                res
            },
            ParseError::MetaEventTypeMissing => String::from_str("meta event event type is missing"),
        }
    }
}

} // verus!
