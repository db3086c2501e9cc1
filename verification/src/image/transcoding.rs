//! The transcoding pipeline: a decoder and an encoder at work on one image,
//! joined by bounded queues of chunks.
//!
//! The codecs, the queues and the threads belong to the program. Here are the
//! decisions: what the workers are started with, what each does with what
//! it is handed, when the buffered output is sent on, and what the consumer
//! of the stream sees.

use vstd::prelude::*;
use vstd::string::StringExecFns;
use bytes::{Bytes, BytesMut};
use crate::iiif::service::{ImageParameters, ImageStream};
use crate::iiif::{Dimension, Format, Quality, Rotation};
use crate::image::info::ImageInfo;
use crate::image::resolve::{region_resolved, resolve_region, resolve_size, size_resolved,
    ParameterError};
use crate::image::transcoding::chunks::{buffered, chunk_bytes, chunk_to_vec};
use crate::image::AbsoluteRegion;

pub mod chunks;
pub mod decode;
pub mod encode;

verus! {

/// The chunks that each of the two queues of a pipeline holds at most.
pub const QUEUE_DEPTH: usize = 4;

/// The bytes of one pixel: red, green and blue.
pub const BYTES_PER_PIXEL: usize = 3;

/// The capacity with which the buffer of a writer is made; a longer write
/// makes it grow.
pub const WRITER_CAPACITY: usize = 65536;

/// The number of buffered bytes from which a writer sends them on.
pub const FLUSH_THRESHOLD: usize = 4096;

/// Why a transcoding failed.
#[derive(Clone, Debug, PartialEq, Eq)]
pub enum TranscodingError {
    /// A worker or a codec gave up, with the message it left.
    Generic(String),
    /// Reading or writing failed, or the consumer is gone.
    Io(String),
    /// A worker gave up without a message.
    Unknown,
}

impl TranscodingError {
    /// What the error says of itself.
    pub open spec fn message_text(self) -> Seq<char> {
        match self {
            TranscodingError::Generic(message) => message@,
            TranscodingError::Io(e) => "io error: "@ + e@,
            TranscodingError::Unknown => "unknown error"@,
        }
    }

    /// The error for a worker that panicked: it keeps the message of the
    /// panic, if the panic left a text.
    pub fn from_panic(message: Option<String>) -> (e: TranscodingError)
        ensures
            e == match message {
                Some(text) => TranscodingError::Generic(text),
                None => TranscodingError::Unknown,
            },
    {
        match message {
            Some(text) => TranscodingError::Generic(text),
            None => TranscodingError::Unknown,
        }
    }

    /// What the error says of itself.
    pub fn message(&self) -> (text: String)
        ensures
            text@ == self.message_text(),
    {
        match self {
            TranscodingError::Generic(message) => message.clone(),
            TranscodingError::Io(e) => String::from_str("io error: ").concat(e.as_str()),
            TranscodingError::Unknown => String::from_str("unknown error"),
        }
    }
}

/// The bytes of a chunk, where there is one.
pub open spec fn chunk_view(chunk: Option<Bytes>) -> Option<Seq<u8>> {
    match chunk {
        Some(c) => Some(chunk_bytes(c)),
        None => None,
    }
}

/// What a writer that holds `pending` does with a write of `data`: with 4096
/// bytes or more all of them leave as one chunk and nothing stays; with
/// fewer, no chunk leaves and all stay.
pub open spec fn written(pending: Seq<u8>, data: Seq<u8>) -> (Option<Seq<u8>>, Seq<u8>) {
    let held = pending + data;
    if held.len() >= FLUSH_THRESHOLD {
        (Some(held), Seq::<u8>::empty())
    } else {
        (None, held)
    }
}

/// All the bytes of `writes`, in order.
pub open spec fn all_written(writes: Seq<Seq<u8>>) -> Seq<u8>
    decreases writes.len(),
{
    if writes.len() == 0 {
        Seq::<u8>::empty()
    } else {
        all_written(writes.drop_last()) + writes.last()
    }
}

/// What a writer that holds `pending` has handed on after the writes
/// `writes`, chunk after chunk in order, and what it then holds.
pub open spec fn written_run(pending: Seq<u8>, writes: Seq<Seq<u8>>) -> (Seq<u8>, Seq<u8>)
    decreases writes.len(),
{
    if writes.len() == 0 {
        (Seq::<u8>::empty(), pending)
    } else {
        let (sent, held) = written_run(pending, writes.drop_last());
        let (chunk, rest) = written(held, writes.last());
        (
            match chunk {
                Some(c) => sent + c,
                None => sent,
            },
            rest,
        )
    }
}

/// After any writes, the chunks handed on and then what the writer holds are
/// what it held at first and then the bytes written, in order: none lost,
/// moved or repeated. A flush hands on what is held, so that after it the
/// chunks are all the bytes. Between writes the writer holds fewer than 4096
/// bytes.
pub proof fn lemma_written_run(pending: Seq<u8>, writes: Seq<Seq<u8>>)
    ensures
        written_run(pending, writes).0 + written_run(pending, writes).1 == pending + all_written(
            writes,
        ),
        pending.len() < FLUSH_THRESHOLD ==> written_run(pending, writes).1.len() < FLUSH_THRESHOLD,
    decreases writes.len(),
{
    if writes.len() == 0 {
        assert(Seq::<u8>::empty() + pending =~= pending + Seq::<u8>::empty());
    } else {
        lemma_written_run(pending, writes.drop_last());
        let (sent, held) = written_run(pending, writes.drop_last());
        let data = writes.last();
        let before = all_written(writes.drop_last());
        assert(sent + held == pending + before);
        assert(sent + (held + data) =~= (sent + held) + data);
        assert((pending + before) + data =~= pending + (before + data));
        assert(sent + (held + data) + Seq::<u8>::empty() =~= sent + (held + data));
    }
}

/// A writer that gathers what an encoder writes and hands it on in chunks:
/// as soon as it holds 4096 bytes or more, and when it is flushed.
pub struct SenderWriter {
    buffer: BytesMut,
}

impl SenderWriter {
    /// The bytes that were written and not yet handed on.
    pub closed spec fn pending(self) -> Seq<u8> {
        buffered(self.buffer)
    }

    /// True if the writer holds less than it sends on at: so it is between
    /// any two calls.
    pub open spec fn wf(self) -> bool {
        self.pending().len() < FLUSH_THRESHOLD
    }

    /// A writer that holds nothing.
    pub fn new() -> (writer: SenderWriter)
        ensures
            writer.pending().len() == 0,
            writer.wf(),
    {
        SenderWriter { buffer: BytesMut::with_capacity(WRITER_CAPACITY) }
    }

    /// The number of bytes that were written and not yet handed on.
    pub fn pending_len(&self) -> (n: usize)
        ensures
            n == self.pending().len(),
    {
        self.buffer.len()
    }

    /// The bytes that leave the writer with a chunk, or none without one.
    pub open spec fn handed_on(chunk: Option<Bytes>) -> Seq<u8> {
        match chunk {
            Some(c) => chunk_bytes(c),
            None => Seq::<u8>::empty(),
        }
    }

    /// Takes all of `data` and says how many bytes that is. If the writer
    /// then holds 4096 bytes or more, all of them leave as one chunk, for the
    /// caller to send; otherwise they stay. No byte is lost or moved: what
    /// has left and what is held are, in this order, what was held and what
    /// was written.
    pub fn write(&mut self, data: &[u8]) -> (r: (usize, Option<Bytes>))
        requires
            old(self).wf(),
            old(self).pending().len() + data@.len() <= isize::MAX,
        ensures
            final(self).wf(),
            r.0 == data@.len(),
            (chunk_view(r.1), final(self).pending()) == written(old(self).pending(), data@),
            SenderWriter::handed_on(r.1) + final(self).pending() == old(self).pending() + data@,
    {
        self.buffer.extend_from_slice(data);
        if self.buffer.len() >= FLUSH_THRESHOLD {
            let chunk: Bytes = self.take();
            assert(self.pending() =~= Seq::<u8>::empty());
            (data.len(), Some(chunk))
        } else {
            (data.len(), None)
        }
    }

    /// Hands on all that the writer holds as one chunk, which may be empty.
    pub fn flush(&mut self) -> (chunk: Bytes)
        ensures
            chunk_bytes(chunk) == old(self).pending(),
            final(self).pending().len() == 0,
            final(self).wf(),
    {
        self.take()
    }

    fn take(&mut self) -> (chunk: Bytes)
        ensures
            chunk_bytes(chunk) == old(self).pending(),
            final(self).pending().len() == 0,
    {
        let mut full: BytesMut = BytesMut::with_capacity(WRITER_CAPACITY);
        core::mem::swap(&mut self.buffer, &mut full);
        full.freeze()
    }
}

/// The bytes of a chunk.
pub fn chunk_contents(chunk: &Bytes) -> (bytes: Vec<u8>)
    ensures
        bytes@ == chunk_bytes(*chunk),
{
    chunk_to_vec(chunk)
}

/// An image and the parameters of a request for it: what a transcoding
/// starts from.
#[derive(Clone, Debug, PartialEq, Eq)]
pub struct TranscodingPipeline {
    pub info: ImageInfo,
    pub params: ImageParameters,
}

/// What the two workers of a pipeline are started with.
#[derive(Clone, Copy, Debug, PartialEq, Eq, Structural)]
pub struct TranscodingPlan {
    /// The rectangle of the image that is decoded.
    pub region: AbsoluteRegion,
    /// The width to which the rectangle is scaled, and which the encoder is set to.
    pub width: Dimension,
    /// The height to which the rectangle is scaled, and which the encoder is set to.
    pub height: Dimension,
    /// The rows of one chunk of decoded pixels.
    pub chunk_height: Dimension,
    /// The capacity of the decode buffer, in bytes: the whole output image.
    pub buffer_capacity: usize,
    /// The stream that comes out.
    pub stream: ImageStream,
}

/// True of the one rotation that the pipeline serves: none, without mirroring.
pub open spec fn is_identity(rotation: Rotation) -> bool {
    rotation.spec_degrees().units() == 0 && !rotation.spec_mirror()
}

/// True of the formats that the pipeline encodes: JPEG alone.
pub open spec fn is_encoded(format: Format) -> bool {
    format == Format::Jpg
}

/// The plan for a request with parameters `params` for the image that `info`
/// describes. The region is resolved against the image and the size against
/// the region. The pipeline decodes, scales and encodes, and does no more:
/// it turns and mirrors nothing, changes no colours, and writes JPEG. So a
/// request for a rotation other than `0`, a quality other than `default` or
/// a format other than `jpg` has no plan; each is refused with an error of
/// its own, in the order of the path. A plan that is made is for a stream of
/// the format asked for.
pub open spec fn planned(info: ImageInfo, params: ImageParameters, upscaling: bool) -> Result<
    TranscodingPlan,
    ParameterError,
> {
    let limits = crate::image::resolve::Limits {
        max_width: info.max_width,
        max_height: info.max_height,
        max_area: info.max_area,
    };
    match region_resolved(info.width, info.height, params.region) {
        Err(e) => Err(e),
        Ok(region) => match size_resolved(limits, region.width, region.height, params.size, upscaling) {
            Err(e) => Err(e),
            Ok((width, height)) => match decode::capacity_for(width, height) {
                None => Err(ParameterError::TooLarge),
                Some(buffer_capacity) => if !is_identity(params.rotation) {
                    Err(ParameterError::UnsupportedRotation)
                } else if params.quality != Quality::Default {
                    Err(ParameterError::UnsupportedQuality)
                } else if !is_encoded(params.format) {
                    Err(ParameterError::UnsupportedFormat)
                } else {
                    Ok(
                        TranscodingPlan {
                            region,
                            width,
                            height,
                            chunk_height: info.spec_chunk_height(),
                            buffer_capacity,
                            stream: ImageStream { media_type: params.format, width, height },
                        },
                    )
                },
            },
        },
    }
}

impl TranscodingPipeline {
    /// Resolves the parameters against the image. The plan that comes out is
    /// what the decode worker and the encode worker are started with;
    /// `upscaling` says whether the server gives leave to upscale.
    pub fn run(&self, upscaling: bool) -> (r: Result<TranscodingPlan, ParameterError>)
        ensures
            r == planned(self.info, self.params, upscaling),
            r matches Ok(plan) ==> {
                &&& plan.region.within(self.info.width, self.info.height)
                &&& plan.width > 0
                &&& plan.height > 0
                &&& plan.buffer_capacity == plan.width * plan.height * 3
                &&& plan.stream.media_type == self.params.format
                &&& plan.stream.media_type == Format::Jpg
                &&& plan.stream.width == plan.width
                &&& plan.stream.height == plan.height
            },
    {
        let region: AbsoluteRegion = resolve_region(
            self.info.width,
            self.info.height,
            &self.params.region,
        )?;
        let limits = self.info.limits();
        let (width, height) = resolve_size(
            &limits,
            region.width,
            region.height,
            &self.params.size,
            upscaling,
        )?;
        let buffer_capacity: usize = match decode::buffer_capacity(width, height) {
            None => {
                return Err(ParameterError::TooLarge);
            },
            Some(capacity) => capacity,
        };
        if !self.params.rotation.degrees().is_zero() || self.params.rotation.mirror() {
            return Err(ParameterError::UnsupportedRotation);
        }
        match self.params.quality {
            Quality::Default => {},
            _ => {
                return Err(ParameterError::UnsupportedQuality);
            },
        }
        match self.params.format {
            Format::Jpg => {},
            _ => {
                return Err(ParameterError::UnsupportedFormat);
            },
        }
        Ok(
            TranscodingPlan {
                region,
                width,
                height,
                chunk_height: self.info.chunk_height(),
                buffer_capacity,
                stream: ImageStream { media_type: self.params.format, width, height },
            },
        )
    }
}

/// A plan is for a stream of the format that the request asks for, and no
/// request for another format than the pipeline encodes has a plan: the
/// bytes of one format never go under the media type of another.
pub proof fn lemma_planned_format(info: ImageInfo, params: ImageParameters, upscaling: bool)
    ensures
        planned(info, params, upscaling) matches Ok(plan) ==> plan.stream.media_type
            == params.format && is_encoded(params.format) && is_identity(params.rotation)
            && params.quality == Quality::Default,
        !is_encoded(params.format) ==> planned(info, params, upscaling) is Err,
{
}

/// The bytes of chunks of the given sizes together.
pub open spec fn total_bytes(sizes: Seq<nat>) -> nat
    decreases sizes.len(),
{
    if sizes.len() == 0 {
        0
    } else {
        total_bytes(sizes.drop_last()) + sizes.last()
    }
}

/// Chunks of at most `largest` bytes each hold together at most their
/// number times `largest`.
pub proof fn lemma_total_bytes(sizes: Seq<nat>, largest: nat)
    requires
        forall|i: int| 0 <= i < sizes.len() ==> #[trigger] sizes[i] <= largest,
    ensures
        total_bytes(sizes) <= sizes.len() * largest,
    decreases sizes.len(),
{
    if sizes.len() > 0 {
        let shorter = sizes.drop_last();
        assert forall|i: int| 0 <= i < shorter.len() implies #[trigger] shorter[i] <= largest by {
            assert(shorter[i] == sizes[i]);
        }
        lemma_total_bytes(shorter, largest);
        assert(sizes.last() == sizes[sizes.len() - 1]);
        assert(shorter.len() * largest + largest == sizes.len() * largest) by (nonlinear_arith)
            requires
                shorter.len() + 1 == sizes.len(),
        ;
    } else {
        assert(sizes.len() * largest == 0) by (nonlinear_arith)
            requires
                sizes.len() == 0,
        ;
    }
}

/// What a pipeline holds at most. A queue of the depth of the pipeline's
/// holds no more chunks than that depth, and a worker that waits at a full
/// queue holds one more; if none of them has more than `largest` bytes, they
/// and a decode buffer of `buffer` bytes hold together no more than
/// `(QUEUE_DEPTH + 1) * largest + buffer` bytes.
pub proof fn lemma_live_bytes(queued: Seq<nat>, waiting: nat, largest: nat, buffer: nat)
    requires
        queued.len() <= QUEUE_DEPTH,
        forall|i: int| 0 <= i < queued.len() ==> #[trigger] queued[i] <= largest,
        waiting <= largest,
    ensures
        total_bytes(queued) + waiting + buffer <= (QUEUE_DEPTH + 1) * largest + buffer,
{
    lemma_total_bytes(queued, largest);
    assert(queued.len() * largest + largest <= (QUEUE_DEPTH + 1) * largest) by (nonlinear_arith)
        requires
            queued.len() <= QUEUE_DEPTH,
    ;
}

/// How a worker of a pipeline has ended.
#[derive(Clone, Debug, PartialEq, Eq)]
pub enum WorkerOutcome {
    /// Without an error.
    Completed,
    /// With an error.
    Failed(TranscodingError),
    /// In a panic, with the message it left if it left one.
    Panicked(String),
}

/// What a poll of the queue of encoded chunks gave.
#[derive(Clone, Copy, Debug, PartialEq, Eq, Structural)]
pub enum QueuePoll {
    /// A chunk.
    Chunk,
    /// Nothing more: the queue is closed and empty.
    Closed,
    /// Nothing yet.
    Pending,
}

/// What the consumer of a stream is given at a poll.
#[derive(Clone, Debug, PartialEq, Eq)]
pub enum StreamItem {
    /// The chunk that the queue gave.
    Chunk,
    /// An I/O error with this message.
    Error(String),
    /// The end of the stream.
    End,
    /// Nothing yet.
    Pending,
}

/// What the first half of a poll gives.
#[derive(Clone, Debug, PartialEq, Eq)]
pub struct WorkersPoll {
    /// What the consumer is given, if the poll ends here.
    pub item: Option<StreamItem>,
    /// Whether the pipeline is to be cancelled.
    pub cancel: bool,
}

/// The stream of encoded chunks that a pipeline gives out.
#[derive(Clone, Copy, Debug, PartialEq, Eq, Structural)]
pub struct TranscodedStream {
    /// Whether the stream has given an error: after that it is at its end.
    pub failed: bool,
}

impl WorkerOutcome {
    /// The message of the I/O error that the consumer sees for a worker that
    /// has ended like this; none for a worker that has ended well.
    pub open spec fn error_text(self) -> Option<Seq<char>> {
        match self {
            WorkerOutcome::Completed => None,
            WorkerOutcome::Failed(e) => Some(e.message_text()),
            WorkerOutcome::Panicked(message) => Some("task panicked: "@ + message@),
        }
    }
}

/// The message of the first worker in `finished` that has not ended well.
pub open spec fn first_error(finished: Seq<WorkerOutcome>) -> Option<Seq<char>>
    decreases finished.len(),
{
    if finished.len() == 0 {
        None
    } else if finished[0].error_text() is Some {
        finished[0].error_text()
    } else {
        first_error(finished.skip(1))
    }
}

impl TranscodedStream {
    /// A stream at its start.
    pub fn new() -> (stream: TranscodedStream)
        ensures
            !stream.failed,
    {
        TranscodedStream { failed: false }
    }

    /// The first half of a poll: looks at the workers that have ended since
    /// the last one. A stream that has failed is at its end. If a worker has
    /// not ended well, the stream fails: the consumer is given an I/O error
    /// with the message of the first such worker, and the pipeline is to be
    /// cancelled. Otherwise nothing is given yet, and the poll goes on with
    /// the queue.
    pub fn poll_workers(&mut self, finished: &Vec<WorkerOutcome>) -> (r: WorkersPoll)
        ensures
            old(self).failed ==> r.item == Some(StreamItem::End) && !r.cancel && final(self).failed,
            !old(self).failed ==> match first_error(finished@) {
                Some(text) => final(self).failed && r.cancel && (r.item matches Some(
                    StreamItem::Error(message),
                ) && message@ == text),
                None => !final(self).failed && !r.cancel && r.item is None,
            },
    {
        if self.failed {
            return WorkersPoll { item: Some(StreamItem::End), cancel: false };
        }
        let mut i: usize = 0;
        assert(finished@.skip(0) =~= finished@);
        while i < finished.len()
            invariant
                i <= finished@.len(),
                !self.failed,
                !old(self).failed,
                first_error(finished@) == first_error(finished@.skip(i as int)),
            decreases finished@.len() - i,
        {
            let ghost rest = finished@.skip(i as int);
            assert(rest[0] == finished@[i as int]);
            assert(rest.skip(1) =~= finished@.skip(i + 1));
            match &finished[i] {
                WorkerOutcome::Completed => {},
                WorkerOutcome::Failed(e) => {
                    self.failed = true;
                    return WorkersPoll { item: Some(StreamItem::Error(e.message())), cancel: true };
                },
                WorkerOutcome::Panicked(message) => {
                    self.failed = true;
                    return WorkersPoll {
                        item: Some(
                            StreamItem::Error(
                                String::from_str("task panicked: ").concat(message.as_str()),
                            ),
                        ),
                        cancel: true,
                    };
                },
            }
            i += 1;
        }
        WorkersPoll { item: None, cancel: false }
    }

    /// What the second half of a poll gives: a chunk if the queue gave one;
    /// the end if the queue is closed and no worker is left; nothing yet
    /// otherwise.
    pub open spec fn queue_item(queue: QueuePoll, workers_left: usize) -> StreamItem {
        match queue {
            QueuePoll::Chunk => StreamItem::Chunk,
            QueuePoll::Closed => if workers_left == 0 {
                StreamItem::End
            } else {
                StreamItem::Pending
            },
            QueuePoll::Pending => StreamItem::Pending,
        }
    }

    /// The second half of a poll, after the queue of encoded chunks was
    /// polled; `workers_left` is the number of workers that have not ended.
    pub fn poll_queue(&self, queue: QueuePoll, workers_left: usize) -> (item: StreamItem)
        ensures
            item == TranscodedStream::queue_item(queue, workers_left),
    {
        match queue {
            QueuePoll::Chunk => StreamItem::Chunk,
            QueuePoll::Closed => {
                if workers_left == 0 {
                    StreamItem::End
                } else {
                    StreamItem::Pending
                }
            },
            QueuePoll::Pending => StreamItem::Pending,
        }
    }
}

} // verus!
