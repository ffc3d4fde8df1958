//! Standard MIDI Files: a header chunk followed by track chunks and chunks of other types.
pub mod event;
pub mod header;
pub mod track;

pub use header::Header;
pub use track::Track;

use crate::{be_u32, bytes_eq, spec_be, u32_as_usize, SliceGetFixed};
use track::TrackModel;
use crate::text::{byte_list, decimal, spec_byte_list, spec_decimal};
use vstd::prelude::*;
use vstd::string::*;

verus! {

#[derive(Debug)]
pub struct Content<'a> {
    header: Header,
    bytes: &'a [u8],
    pos: usize,
    chunks_consumed: usize,
}

/// The state of a file being read: its header, its bytes, how far they have been read and how
/// many chunks after the header have been read.
pub struct ContentModel {
    pub header: Header,
    pub bytes: Seq<u8>,
    pub pos: usize,
    pub chunks_consumed: usize,
}

impl ContentModel {
    /// The reading position lies within the bytes, which a slice can hold, and no more chunks have
    /// been read than the header announces.
    pub open spec fn wf(self) -> bool {
        &&& self.pos <= self.bytes.len() <= isize::MAX
        &&& self.chunks_consumed <= self.header.number_of_tracks
    }
}

impl View for Content<'_> {
    type V = ContentModel;

    closed spec fn view(&self) -> ContentModel {
        ContentModel {
            header: self.header,
            bytes: self.bytes@,
            pos: self.pos,
            chunks_consumed: self.chunks_consumed,
        }
    }
}

impl<'a> Content<'a> {
    #[verifier::type_invariant]
    closed spec fn inv(self) -> bool {
        &&& self.pos <= self.bytes@.len() <= isize::MAX
        &&& self.chunks_consumed <= self.header.number_of_tracks
    }
}

#[derive(Debug, PartialEq, Eq)]
pub enum Chunk<'a> {
    Track(Track<'a>),
    Unknown(&'a [u8; 4], &'a [u8]),
}

/// A chunk: a track, or the type and data of a chunk of another type.
pub enum ChunkModel {
    Track(TrackModel),
    Unknown(Seq<u8>, Seq<u8>),
}

impl View for Chunk<'_> {
    type V = ChunkModel;

    open spec fn view(&self) -> ChunkModel {
        match self {
            Chunk::Track(track) => ChunkModel::Track(track@),
            Chunk::Unknown(chunk_type, data) => ChunkModel::Unknown(chunk_type@, data@),
        }
    }
}

#[derive(Debug, PartialEq, Eq)]
pub enum ParseError<'a> {
    ChunkDataNotEnoughBytes { available: usize, length: usize, pos: usize },
    ChunkLengthMissing { pos: usize },
    ChunkTypeIncomplete { data: &'a [u8], pos: usize },
    ChunksNotEnough { count: usize, expected: usize },
    ChunksTooMany { expected: usize },
}

/// `ParseError` with the data of an incomplete chunk type as a sequence.
pub enum ParseErrorModel {
    ChunkDataNotEnoughBytes { available: usize, length: usize, pos: usize },
    ChunkLengthMissing { pos: usize },
    ChunkTypeIncomplete { data: Seq<u8>, pos: usize },
    ChunksNotEnough { count: usize, expected: usize },
    ChunksTooMany { expected: usize },
}

impl View for ParseError<'_> {
    type V = ParseErrorModel;

    open spec fn view(&self) -> ParseErrorModel {
        match self {
            ParseError::ChunkDataNotEnoughBytes { available, length, pos } =>
                ParseErrorModel::ChunkDataNotEnoughBytes {
                available: *available,
                length: *length,
                pos: *pos,
            },
            ParseError::ChunkLengthMissing { pos } => ParseErrorModel::ChunkLengthMissing {
                pos: *pos,
            },
            ParseError::ChunkTypeIncomplete { data, pos } => ParseErrorModel::ChunkTypeIncomplete {
                data: data@,
                pos: *pos,
            },
            ParseError::ChunksNotEnough { count, expected } => ParseErrorModel::ChunksNotEnough {
                count: *count,
                expected: *expected,
            },
            ParseError::ChunksTooMany { expected } => ParseErrorModel::ChunksTooMany {
                expected: *expected,
            },
        }
    }
}

/// What reading the next chunk gives: the chunk and the number of bytes it took, nothing at the
/// end of the file, or why it cannot be read.
pub type NextChunkResult = Result<Option<(usize, ChunkModel)>, ParseErrorModel>;

/// The result of `Content::next_chunk` taken by its view.
pub open spec fn next_chunk_view(res: Result<Option<(usize, Chunk)>, ParseError>) -> NextChunkResult {
    match res {
        Ok(Some((n, chunk))) => Ok(Some((n, chunk@))),
        Ok(None) => Ok(None),
        Err(e) => Err(e@),
    }
}

impl ContentModel {
    /// What reading the next chunk gives, and the state of the file after it.
    pub open spec fn spec_next_chunk(self) -> (NextChunkResult, ContentModel) {
        let expected = self.header.number_of_tracks as usize;
        let pos = self.pos;
        let len = self.bytes.len();
        if pos >= len {
            if self.chunks_consumed < expected {
                (
                    Err(
                        ParseErrorModel::ChunksNotEnough { count: self.chunks_consumed, expected },
                    ),
                    self,
                )
            } else {
                (Ok(None), self)
            }
        } else if self.chunks_consumed >= expected {
            (Err(ParseErrorModel::ChunksTooMany { expected }), self)
        } else if pos + 4 > len {
            (Err(ParseErrorModel::ChunkTypeIncomplete { data: self.bytes.skip(pos as int), pos }), self)
        } else if pos + 8 > len {
            (Err(ParseErrorModel::ChunkLengthMissing { pos: (pos + 4) as usize }), self)
        } else {
            let length = spec_be(self.bytes.subrange(pos + 4, pos + 8));
            let start = pos + 8;
            if length > len - start {
                (
                    Err(
                        ParseErrorModel::ChunkDataNotEnoughBytes {
                            available: (len - start) as usize,
                            length: length as usize,
                            pos: start as usize,
                        },
                    ),
                    self,
                )
            } else {
                let chunk_type = self.bytes.subrange(pos as int, pos + 4);
                let data = self.bytes.subrange(start, start + length);
                let chunk = if chunk_type == track::spec_chunk_type() {
                    ChunkModel::Track(TrackModel::spec_new(data))
                } else {
                    ChunkModel::Unknown(chunk_type, data)
                };
                (
                    Ok(Some(((8 + length) as usize, chunk))),
                    ContentModel {
                        header: self.header,
                        bytes: self.bytes,
                        pos: (start + length) as usize,
                        chunks_consumed: (self.chunks_consumed + 1) as usize,
                    },
                )
            }
        }
    }
}

/// Reading a chunk moves past the bytes it took and counts it; a failed read, or the end of the
/// file, leaves the state as it was. The state stays well formed, and the end is only reached when
/// the whole file has been read and held as many chunks as the header announced.
pub proof fn law_next_chunk_state(content: ContentModel)
    requires
        content.wf(),
    ensures
        ({
            let (res, next) = content.spec_next_chunk();
            &&& next.wf()
            &&& next.header == content.header && next.bytes == content.bytes
            &&& res matches Ok(Some((n, _))) ==> next.pos == content.pos + n && n >= 8
                && next.chunks_consumed == content.chunks_consumed + 1
            &&& res is Err ==> next == content
            &&& res matches Ok(None) ==> next == content && content.pos == content.bytes.len()
                && content.chunks_consumed == content.header.number_of_tracks
        }),
{
}

/// A chunk's length is the big-endian 32-bit number in the 4 bytes after its type: when that
/// many bytes follow, reading the chunk takes 8 plus that number of bytes, and otherwise it fails,
/// saying how many bytes were wanted and how many there were.
pub proof fn law_chunk_length(content: ContentModel)
    requires
        content.wf(),
        content.pos + 8 <= content.bytes.len(),
        content.chunks_consumed < content.header.number_of_tracks,
    ensures
        ({
            let b = content.bytes;
            let p = content.pos as int;
            let length = b[p + 4] as nat * 0x100_0000 + b[p + 5] as nat * 0x1_0000 + b[p + 6] as nat
                * 0x100 + b[p + 7] as nat;
            let available = b.len() - p - 8;
            &&& length <= available ==> (content.spec_next_chunk().0 matches Ok(Some((n, _))) && n
                == 8 + length)
            &&& length > available ==> content.spec_next_chunk().0 == Err::<
                Option<(usize, ChunkModel)>,
                ParseErrorModel,
            >(
                ParseErrorModel::ChunkDataNotEnoughBytes {
                    available: available as usize,
                    length: length as usize,
                    pos: (p + 8) as usize,
                },
            )
        }),
{
    let b = content.bytes;
    let p = content.pos as int;
    let w = b.subrange(p + 4, p + 8);
    assert(spec_be(w) == w[0] as nat * 0x100_0000 + w[1] as nat * 0x1_0000 + w[2] as nat * 0x100
        + w[3] as nat) by {
        reveal_with_fuel(spec_be, 5);
        assert(w.drop_last().drop_last().drop_last().drop_last().len() == 0);
    }
}

/// A chunk read from a file holds the bytes that follow its type and length in the file, and it
/// is a track exactly when its type is `MTrk`.
pub proof fn law_chunk_data(content: ContentModel)
    requires
        content.wf(),
    ensures
        content.spec_next_chunk().0 matches Ok(Some((n, chunk))) ==> match chunk {
            ChunkModel::Track(track) => track == TrackModel::spec_new(
                content.bytes.subrange(content.pos + 8, content.pos + n),
            ) && content.bytes.subrange(content.pos as int, content.pos + 4)
                == track::spec_chunk_type(),
            ChunkModel::Unknown(chunk_type, data) => data == content.bytes.subrange(
                content.pos + 8,
                content.pos + n,
            ) && chunk_type == content.bytes.subrange(content.pos as int, content.pos + 4)
                && chunk_type != track::spec_chunk_type(),
        },
{
}

impl ContentModel {
    /// The state after `k` calls of `next_chunk`, with the sum of the byte counts of the chunks
    /// they returned and how many chunks they returned.
    pub open spec fn spec_after_chunks(self, k: nat) -> (ContentModel, nat, nat)
        decreases k,
    {
        if k == 0 {
            (self, 0, 0)
        } else {
            let (state, total, count) = self.spec_after_chunks((k - 1) as nat);
            let (res, next) = state.spec_next_chunk();
            match res {
                Ok(Some((n, _))) => (next, total + n as nat, count + 1),
                _ => (next, total, count),
            }
        }
    }
}

/// Over any number of `next_chunk` calls, the position has moved by exactly the byte counts of
/// the chunks returned, stays within the file, and every chunk returned has been counted.
proof fn lemma_after_chunks(content: ContentModel, k: nat)
    requires
        content.wf(),
    ensures
        ({
            let (state, total, count) = content.spec_after_chunks(k);
            &&& state.wf()
            &&& state.header == content.header && state.bytes == content.bytes
            &&& state.pos == content.pos + total
            &&& state.chunks_consumed == content.chunks_consumed + count
        }),
    decreases k,
{
    if k > 0 {
        lemma_after_chunks(content, (k - 1) as nat);
        let (state, _, _) = content.spec_after_chunks((k - 1) as nat);
        law_next_chunk_state(state);
    }
}

/// Reading a file chunk by chunk: whatever number of `next_chunk` calls follow `Content::new`, the
/// position stays between the end of the 14-byte header and the end of the file, and is 14 plus
/// the byte counts of the chunks returned; no more chunks are returned than the header announces.
pub proof fn law_chunk_sequence(bytes: Seq<u8>, k: nat)
    requires
        bytes.len() <= isize::MAX,
        Header::spec_from_bytes(bytes) is Ok,
    ensures
        ({
            let (consumed, header) = Header::spec_from_bytes(bytes)->Ok_0;
            let start = ContentModel { header, bytes, pos: consumed, chunks_consumed: 0 };
            let (state, total, count) = start.spec_after_chunks(k);
            &&& consumed == 14
            &&& 14 <= state.pos <= bytes.len()
            &&& state.pos == 14 + total
            &&& count <= header.number_of_tracks
        }),
{
    header::law_header_valid(bytes);
    let (consumed, header) = Header::spec_from_bytes(bytes)->Ok_0;
    let start = ContentModel { header, bytes, pos: consumed, chunks_consumed: 0 };
    lemma_after_chunks(start, k);
}

impl<'a> Content<'a> {
    /// Starts reading a file: reads its header and stands after it.
    pub fn new(bytes: &'a [u8]) -> (res: Result<Self, header::ParseError>)
        requires
            bytes@.len() <= isize::MAX,
        ensures
            match (res, Header::spec_from_bytes(bytes@)) {
                (Ok(content), Ok((consumed, header))) => content@ == ContentModel {
                    header,
                    bytes: bytes@,
                    pos: consumed,
                    chunks_consumed: 0,
                },
                (Err(e), Err(f)) => e@ == f,
                _ => false,
            },
            res matches Ok(content) ==> content@.wf(),
    {
        let (consumed_header, header) = header::Header::from_bytes(bytes)?;

        Ok(Self { header, bytes, pos: consumed_header, chunks_consumed: 0 })
    }

    pub fn header(&self) -> (res: &Header)
        ensures
            *res == self@.header,
    {
        &self.header
    }

    pub fn pos(&self) -> (res: usize)
        ensures
            res == self@.pos,
    {
        self.pos
    }

    /// Reads the chunk after the current position, if the file has one more.
    pub fn next_chunk(&mut self) -> (res: Result<Option<(usize, Chunk<'_>)>, ParseError<'a>>)
        ensures
            (next_chunk_view(res), final(self)@) == old(self)@.spec_next_chunk(),
            old(self)@.wf(),
            final(self)@.wf(),
    {
        proof {
            use_type_invariant(&*self);
        }
        let mut pos = self.pos;
        let expected = self.header.number_of_tracks as usize;

        if pos == self.bytes.len() {
            if self.chunks_consumed < expected {
                return Err(ParseError::ChunksNotEnough { count: self.chunks_consumed, expected });
            }
            return Ok(None);
        }
        if self.chunks_consumed >= expected {
            return Err(ParseError::ChunksTooMany { expected });
        }

        let chunk_type = match self.bytes.get_fixed::<4>(pos) {
            Some(chunk_type) => chunk_type,
            None => {
                return Err(
                    ParseError::ChunkTypeIncomplete {
                        data: vstd::slice::slice_subrange(self.bytes, pos, self.bytes.len()),
                        pos,
                    },
                );
            },
        };

        pos += 4;

        let length = match self.bytes.get_fixed::<4>(pos) {
            Some(length_bytes) => be_u32(length_bytes),
            None => return Err(ParseError::ChunkLengthMissing { pos }),
        };

        let track_length = u32_as_usize(length);
        pos += 4;

        let available = self.bytes.len() - pos;
        if track_length > available {
            return Err(ParseError::ChunkDataNotEnoughBytes { available, length: track_length, pos });
        }
        let chunk_bytes = vstd::slice::slice_subrange(self.bytes, pos, pos + track_length);
        pos += track_length;

        let chunk = if bytes_eq(chunk_type.as_slice(), track::CHUNK_TYPE.as_slice()) {
            Chunk::Track(Track::new(chunk_bytes))
        } else {
            Chunk::Unknown(chunk_type, chunk_bytes)
        };

        let consumed = pos - self.pos;

        self.pos = pos;
        self.chunks_consumed += 1;

        Ok(Some((consumed, chunk)))
    }
}

impl ParseErrorModel {
    /// A description of the error, with the position where it happened.
    pub open spec fn spec_to_string(self) -> Seq<char> {
        match self {
            ParseErrorModel::ChunkDataNotEnoughBytes { available, length, pos } => "at: "@
                + spec_decimal(pos as nat) + ", chunk data not enough bytes: need "@ + spec_decimal(
                length as nat,
            ) + ", have "@ + spec_decimal(available as nat),
            ParseErrorModel::ChunkLengthMissing { pos } => "at: "@ + spec_decimal(pos as nat)
                + ", chunk length missing"@,
            ParseErrorModel::ChunkTypeIncomplete { data, pos } => "at: "@ + spec_decimal(
                pos as nat,
            ) + ", chunk type incomplete: "@ + spec_byte_list(data),
            ParseErrorModel::ChunksNotEnough { count, expected } => "not enough chunks: expected "@
                + spec_decimal(expected as nat) + ", got "@ + spec_decimal(count as nat),
            ParseErrorModel::ChunksTooMany { expected } => "too many chunks: expected "@
                + spec_decimal(expected as nat),
        }
    }
}

impl ParseError<'_> {
    /// A description of the error, with the position where it happened.
    pub fn to_string(&self) -> (res: String)
        ensures
            res@ == self@.spec_to_string(),
    {
        match self {
            ParseError::ChunkDataNotEnoughBytes { available, length, pos } => {
                let mut res = String::from_str("at: ");
                res.append(decimal(*pos as u64).as_str());
                res.append(", chunk data not enough bytes: need ");
                res.append(decimal(*length as u64).as_str());
                res.append(", have ");
                res.append(decimal(*available as u64).as_str());
                res
            },
            ParseError::ChunkLengthMissing { pos } => {
                let mut res = String::from_str("at: ");
                res.append(decimal(*pos as u64).as_str());
                res.append(", chunk length missing");
                res
            },
            ParseError::ChunkTypeIncomplete { data, pos } => {
                let mut res = String::from_str("at: ");
                res.append(decimal(*pos as u64).as_str());
                res.append(", chunk type incomplete: ");
                res.append(byte_list(data).as_str());
                res
            },
            ParseError::ChunksNotEnough { count, expected } => {
                let mut res = String::from_str("not enough chunks: expected ");
                res.append(decimal(*expected as u64).as_str());
                res.append(", got ");
                res.append(decimal(*count as u64).as_str());
                res
            },
            ParseError::ChunksTooMany { expected } => {
                let mut res = String::from_str("too many chunks: expected ");
                res.append(decimal(*expected as u64).as_str());
                res
            },
        }
    }
}

} // verus!
