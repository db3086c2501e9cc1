//! The decode worker: it asks the decoder for pixels and sends every
//! non-empty chunk of them on, until the decoder is done, the pipeline is
//! cancelled or the chunks have nowhere to go.

use vstd::prelude::*;
use bytes::{Bytes, BytesMut};
use crate::iiif::Dimension;
use crate::image::transcoding::chunks::{buffered, chunk_bytes};
use crate::image::transcoding::BYTES_PER_PIXEL;

verus! {

/// What the decode worker does next.
#[derive(Clone, Copy, Debug, PartialEq, Eq, Structural)]
pub enum DecodeAction {
    /// Ask the decoder to fill the buffer.
    Decode,
    /// Detach what the buffer holds and send it to the encoder.
    Send,
    /// Drop the buffer and end without an error.
    Stop,
}

/// What the decode worker is handed back.
#[derive(Clone, Copy, Debug, PartialEq, Eq, Structural)]
pub enum DecodeEvent {
    /// The decoder has returned: it has put `appended` bytes into the buffer,
    /// and `finished` says whether it reports the end of the image.
    Decoded { appended: usize, finished: bool },
    /// The send has returned; `delivered` is false if the encoder is gone.
    Sent { delivered: bool },
}

/// Where the decode worker stands.
#[derive(Clone, Copy, Debug, PartialEq, Eq, Structural)]
pub enum DecodeWorker {
    /// It waits for the decoder.
    Decoding,
    /// It waits for a send; `last` says that the chunk under way is the last.
    Sending { last: bool },
    /// It has ended.
    Stopped,
}

/// What the worker does after a chunk is dealt with: it ends if that was the
/// last one or the pipeline is cancelled, and decodes on otherwise.
pub open spec fn decode_on(last: bool, cancelled: bool) -> (DecodeWorker, DecodeAction) {
    if last || cancelled {
        (DecodeWorker::Stopped, DecodeAction::Stop)
    } else {
        (DecodeWorker::Decoding, DecodeAction::Decode)
    }
}

/// The state and the action that follow an event. `cancelled` says whether
/// the pipeline is cancelled when the event is looked at. An event that the
/// worker does not wait for ends it.
pub open spec fn decode_step(worker: DecodeWorker, event: DecodeEvent, cancelled: bool) -> (
    DecodeWorker,
    DecodeAction,
) {
    match (worker, event) {
        (DecodeWorker::Decoding, DecodeEvent::Decoded { appended, finished }) => if appended > 0 {
            (DecodeWorker::Sending { last: finished }, DecodeAction::Send)
        } else {
            decode_on(finished, cancelled)
        },
        (DecodeWorker::Sending { last }, DecodeEvent::Sent { delivered }) => if delivered {
            decode_on(last, cancelled)
        } else {
            (DecodeWorker::Stopped, DecodeAction::Stop)
        },
        _ => (DecodeWorker::Stopped, DecodeAction::Stop),
    }
}

impl DecodeWorker {
    /// The worker at its start, and its first action: it decodes, unless the
    /// pipeline is cancelled already.
    pub fn start(cancelled: bool) -> (r: (DecodeWorker, DecodeAction))
        ensures
            r == decode_on(false, cancelled),
    {
        if cancelled {
            (DecodeWorker::Stopped, DecodeAction::Stop)
        } else {
            (DecodeWorker::Decoding, DecodeAction::Decode)
        }
    }

    /// Takes an event and says what to do next.
    pub fn step(&mut self, event: DecodeEvent, cancelled: bool) -> (action: DecodeAction)
        ensures
            (*final(self), action) == decode_step(*old(self), event, cancelled),
    {
        let (next, action): (DecodeWorker, DecodeAction) = match (*self, event) {
            (DecodeWorker::Decoding, DecodeEvent::Decoded { appended, finished }) => {
                if appended > 0 {
                    (DecodeWorker::Sending { last: finished }, DecodeAction::Send)
                } else if finished || cancelled {
                    (DecodeWorker::Stopped, DecodeAction::Stop)
                } else {
                    (DecodeWorker::Decoding, DecodeAction::Decode)
                }
            },
            (DecodeWorker::Sending { last }, DecodeEvent::Sent { delivered }) => {
                if delivered && !last && !cancelled {
                    (DecodeWorker::Decoding, DecodeAction::Decode)
                } else {
                    (DecodeWorker::Stopped, DecodeAction::Stop)
                }
            },
            _ => (DecodeWorker::Stopped, DecodeAction::Stop),
        };
        *self = next;
        action
    }
}

/// A worker that has ended stays ended, whatever it is handed; and no chunk
/// that holds pixels is passed over: after a decoder's return with bytes the
/// worker sends.
pub proof fn lemma_decode_worker(worker: DecodeWorker, event: DecodeEvent, cancelled: bool)
    ensures
        worker == DecodeWorker::Stopped ==> decode_step(worker, event, cancelled) == (
            DecodeWorker::Stopped,
            DecodeAction::Stop,
        ),
        decode_step(worker, event, cancelled).1 == DecodeAction::Stop <==> decode_step(
            worker,
            event,
            cancelled,
        ).0 == DecodeWorker::Stopped,
        worker == DecodeWorker::Decoding && (event matches DecodeEvent::Decoded { appended, .. }
            && appended > 0) ==> decode_step(worker, event, cancelled).1 == DecodeAction::Send,
{
}

/// The capacity in bytes of the buffer for an image of `width` by `height`
/// pixels of three bytes each, if a buffer can be that large.
pub open spec fn capacity_for(width: Dimension, height: Dimension) -> Option<usize> {
    if width * height * 3 <= isize::MAX {
        Some((width * height * 3) as usize)
    } else {
        None
    }
}

/// The capacity of the decode buffer.
pub fn buffer_capacity(width: Dimension, height: Dimension) -> (r: Option<usize>)
    ensures
        r == capacity_for(width, height),
{
    assert(width as nat * height as nat * 3 <= 0xffff_ffff * 0xffff_ffff * 3) by (nonlinear_arith)
        requires
            width <= 0xffff_ffff,
            height <= 0xffff_ffff,
    ;
    let bytes: u128 = width as u128 * height as u128 * BYTES_PER_PIXEL as u128;
    if bytes <= isize::MAX as u128 {
        Some(bytes as usize)
    } else {
        None
    }
}

/// Detaches what the decode buffer holds as a chunk to send, and leaves a
/// fresh buffer of `capacity` bytes in its place.
pub fn detach(buffer: &mut BytesMut, capacity: usize) -> (chunk: Bytes)
    requires
        capacity <= isize::MAX,
    ensures
        chunk_bytes(chunk) == buffered(*old(buffer)),
        buffered(*final(buffer)).len() == 0,
{
    let mut full: BytesMut = BytesMut::with_capacity(capacity);
    core::mem::swap(buffer, &mut full);
    full.freeze()
}

/// What a decoder's report of the rectangle it has just decoded means for
/// the worker: the number of bytes appended, and whether the image is at its
/// end, which the decoder says with an empty rectangle.
pub open spec fn progress_of(width: Dimension, height: Dimension) -> Option<DecodeEvent> {
    match capacity_for(width, height) {
        Some(appended) => Some(
            DecodeEvent::Decoded { appended, finished: width == 0 || height == 0 },
        ),
        None => None,
    }
}

/// Reads a decoder's report of the rectangle it has just decoded.
pub fn progress(width: Dimension, height: Dimension) -> (r: Option<DecodeEvent>)
    ensures
        r == progress_of(width, height),
{
    match buffer_capacity(width, height) {
        Some(appended) => Some(
            DecodeEvent::Decoded { appended, finished: width == 0 || height == 0 },
        ),
        None => None,
    }
}

} // verus!
