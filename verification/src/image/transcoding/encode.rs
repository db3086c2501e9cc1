//! The encode worker: it hands the chunks that the decoder sent to the
//! encoder, row by row, and lets the encoder finish once every row of the
//! image has passed.

use vstd::prelude::*;
use bytes::Bytes;
use crate::iiif::Dimension;
use crate::image::transcoding::chunks::chunk_bytes;

verus! {

/// What is wrong with what the encode worker was handed.
#[derive(Clone, Copy, Debug, PartialEq, Eq, Structural)]
pub enum EncodeFault {
    /// A chunk does not end at the end of a row.
    PartialScanline,
    /// A chunk holds rows beyond the height of the image.
    TooManyScanlines,
    /// The queue was closed before the last row.
    TooFewScanlines,
}

/// What the encode worker is handed.
#[derive(Clone, Copy, Debug, PartialEq, Eq, Structural)]
pub enum EncodeEvent {
    /// The pipeline is cancelled.
    Cancelled,
    /// A chunk of `len` bytes has come.
    Chunk { len: usize },
    /// The queue is closed: the decode worker has ended.
    Closed,
}

/// What the encode worker does next.
#[derive(Clone, Copy, Debug, PartialEq, Eq, Structural)]
pub enum EncodeAction {
    /// End without an error, and without finishing the image.
    Stop,
    /// Write the chunk to the encoder: it holds `rows` whole rows.
    Write { rows: Dimension },
    /// Let the encoder finish the image, and flush what is buffered.
    Finish,
    /// End with an error.
    Fail(EncodeFault),
}

/// The encode worker: the size of the image, the rows written so far, and
/// whether it has ended.
#[derive(Clone, Copy, Debug, PartialEq, Eq, Structural)]
pub struct EncodeWorker {
    pub width: Dimension,
    pub height: Dimension,
    pub rows: Dimension,
    pub ended: bool,
}

/// The bytes of one row of `width` pixels.
pub open spec fn row_bytes(width: Dimension) -> nat {
    width as nat * 3
}

/// The worker and the action that follow an event. A worker that has ended
/// does nothing more.
pub open spec fn encode_step(worker: EncodeWorker, event: EncodeEvent) -> (
    EncodeWorker,
    EncodeAction,
) {
    let end = EncodeWorker { ended: true, ..worker };
    if worker.ended {
        (worker, EncodeAction::Stop)
    } else {
        match event {
            EncodeEvent::Cancelled => (end, EncodeAction::Stop),
            EncodeEvent::Chunk { len } => if len as nat % row_bytes(worker.width) != 0 {
                (end, EncodeAction::Fail(EncodeFault::PartialScanline))
            } else if worker.rows + len as nat / row_bytes(worker.width) > worker.height {
                (end, EncodeAction::Fail(EncodeFault::TooManyScanlines))
            } else {
                let rows = (len as nat / row_bytes(worker.width)) as Dimension;
                (
                    EncodeWorker { rows: (worker.rows + rows) as Dimension, ..worker },
                    EncodeAction::Write { rows },
                )
            },
            EncodeEvent::Closed => if worker.rows == worker.height {
                (end, EncodeAction::Finish)
            } else {
                (end, EncodeAction::Fail(EncodeFault::TooFewScanlines))
            },
        }
    }
}

/// The worker and its actions after a run of events.
pub open spec fn encode_run(worker: EncodeWorker, events: Seq<EncodeEvent>) -> (
    EncodeWorker,
    Seq<EncodeAction>,
)
    decreases events.len(),
{
    if events.len() == 0 {
        (worker, Seq::<EncodeAction>::empty())
    } else {
        let (before, actions) = encode_run(worker, events.drop_last());
        let (after, action) = encode_step(before, events.last());
        (after, actions.push(action))
    }
}

/// The rows that a run of actions has written to the encoder.
pub open spec fn rows_written(actions: Seq<EncodeAction>) -> nat
    decreases actions.len(),
{
    if actions.len() == 0 {
        0
    } else {
        rows_written(actions.drop_last()) + match actions.last() {
            EncodeAction::Write { rows } => rows as nat,
            _ => 0,
        }
    }
}

impl EncodeEvent {
    /// The event of a chunk that has come from the decoder.
    pub fn received(chunk: &Bytes) -> (event: EncodeEvent)
        ensures
            event == (EncodeEvent::Chunk { len: chunk_bytes(*chunk).len() as usize }),
    {
        EncodeEvent::Chunk { len: chunk.len() }
    }
}

impl EncodeWorker {
    /// True if the image has pixels and no more rows are written than it has.
    pub open spec fn wf(self) -> bool {
        &&& self.width > 0
        &&& self.height > 0
        &&& self.rows <= self.height
    }

    /// The worker for an image of `width` by `height` pixels before its
    /// first event.
    pub open spec fn fresh(width: Dimension, height: Dimension) -> EncodeWorker {
        EncodeWorker { width, height, rows: 0, ended: false }
    }

    /// The worker for an image of `width` by `height` pixels, if it has any.
    pub fn new(width: Dimension, height: Dimension) -> (r: Option<EncodeWorker>)
        ensures
            r is Some == (width > 0 && height > 0),
            r is Some ==> r->0 == EncodeWorker::fresh(width, height) && r->0.wf(),
    {
        if width > 0 && height > 0 {
            Some(EncodeWorker { width, height, rows: 0, ended: false })
        } else {
            None
        }
    }

    /// Takes an event and says what to do next.
    pub fn step(&mut self, event: EncodeEvent) -> (action: EncodeAction)
        requires
            old(self).wf(),
        ensures
            (*final(self), action) == encode_step(*old(self), event),
            final(self).wf(),
    {
        if self.ended {
            return EncodeAction::Stop;
        }
        match event {
            EncodeEvent::Cancelled => {
                self.ended = true;
                EncodeAction::Stop
            },
            EncodeEvent::Chunk { len } => {
                let row: u64 = self.width as u64 * 3;
                let len: u64 = len as u64;
                if len % row != 0 {
                    self.ended = true;
                    return EncodeAction::Fail(EncodeFault::PartialScanline);
                }
                let rows: u64 = len / row;
                if rows > (self.height - self.rows) as u64 {
                    self.ended = true;
                    return EncodeAction::Fail(EncodeFault::TooManyScanlines);
                }
                self.rows = self.rows + rows as u32;
                EncodeAction::Write { rows: rows as u32 }
            },
            EncodeEvent::Closed => {
                self.ended = true;
                if self.rows == self.height {
                    EncodeAction::Finish
                } else {
                    EncodeAction::Fail(EncodeFault::TooFewScanlines)
                }
            },
        }
    }
}

/// Whatever the worker is handed: it has written as many rows as its actions
/// say and never more than the image has; and where it lets the encoder
/// finish, it has written every row of the image, each as wide as the image.
pub proof fn lemma_encode_run(width: Dimension, height: Dimension, events: Seq<EncodeEvent>)
    requires
        width > 0,
        height > 0,
    ensures
        ({
            let (worker, actions) = encode_run(EncodeWorker::fresh(width, height), events);
            &&& worker.wf()
            &&& worker.width == width
            &&& worker.height == height
            &&& actions.len() == events.len()
            &&& rows_written(actions) == worker.rows
            &&& actions.contains(EncodeAction::Finish) ==> rows_written(actions) == height
            &&& forall|i: int|
                0 <= i < actions.len() ==> (#[trigger] actions[i] matches EncodeAction::Write {
                    rows,
                } ==> events[i] matches EncodeEvent::Chunk { len } && len == rows * row_bytes(
                    width,
                ))
            &&& (actions.contains(EncodeAction::Finish) || actions.contains(EncodeAction::Stop)
                || (exists|f: EncodeFault| actions.contains(EncodeAction::Fail(f))))
                ==> worker.ended
        }),
    decreases events.len(),
{
    let start = EncodeWorker::fresh(width, height);
    if events.len() == 0 {
    } else {
        let shorter = events.drop_last();
        lemma_encode_run(width, height, shorter);
        let (before, done) = encode_run(start, shorter);
        let (after, action) = encode_step(before, events.last());
        let actions = done.push(action);
        assert(actions.drop_last() =~= done);
        assert(actions.last() == action);
        if let EncodeAction::Write { rows } = action {
            if let EncodeEvent::Chunk { len } = events.last() {
                let row = row_bytes(width);
                assert(len as nat == (len as nat / row) * row) by (nonlinear_arith)
                    requires
                        row > 0,
                        len as nat % row == 0,
                ;
            }
        }
        assert forall|i: int| 0 <= i < actions.len() implies (#[trigger] actions[i]
            matches EncodeAction::Write { rows } ==> events[i] matches EncodeEvent::Chunk { len }
            && len == rows * row_bytes(width)) by {
            if i < done.len() {
                assert(actions[i] == done[i]);
                assert(events[i] == shorter[i]);
            }
        }
        if actions.contains(EncodeAction::Finish) {
            let i = choose|i: int| 0 <= i < actions.len() && actions[i] == EncodeAction::Finish;
            if i < done.len() {
                assert(done[i] == EncodeAction::Finish);
                assert(done.contains(EncodeAction::Finish));
            }
        }
        if actions.contains(EncodeAction::Stop) {
            let i = choose|i: int| 0 <= i < actions.len() && actions[i] == EncodeAction::Stop;
            if i < done.len() {
                assert(done[i] == EncodeAction::Stop);
                assert(done.contains(EncodeAction::Stop));
            }
        }
        if exists|f: EncodeFault| actions.contains(EncodeAction::Fail(f)) {
            let f = choose|f: EncodeFault| actions.contains(EncodeAction::Fail(f));
            let i = choose|i: int| 0 <= i < actions.len() && actions[i] == EncodeAction::Fail(f);
            if i < done.len() {
                assert(done[i] == EncodeAction::Fail(f));
                assert(done.contains(EncodeAction::Fail(f)));
            }
        }
    }
}

} // verus!
