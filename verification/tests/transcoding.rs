use laya::decimal::Decimal;
use laya::iiif::service::{ImageParameters, ImageStream};
use laya::iiif::{Format, NonZeroDimension, Quality, Region, Rotation, Scale, Size};
use laya::image::info::{CodestreamInfo, ImageInfo};
use laya::image::resolve::ParameterError;
use laya::image::transcoding::decode::{
    buffer_capacity, detach, progress, DecodeAction, DecodeEvent, DecodeWorker,
};
use laya::image::transcoding::encode::{EncodeAction, EncodeEvent, EncodeFault, EncodeWorker};
use laya::image::transcoding::{
    chunk_contents, QueuePoll, SenderWriter, StreamItem, TranscodedStream, TranscodingError,
    TranscodingPipeline, TranscodingPlan, WorkerOutcome, WorkersPoll,
};
use laya::image::AbsoluteRegion;

fn info() -> ImageInfo {
    ImageInfo::from_codestream(&CodestreamInfo {
        width: 1024,
        height: 768,
        tile_width: 1024,
        tile_height: 64,
        dwt_levels: 3,
    })
    .unwrap()
}

fn pipeline(region: Region, size: Size) -> TranscodingPipeline {
    TranscodingPipeline {
        info: info(),
        params: ImageParameters {
            region,
            size,
            rotation: Rotation::new(Decimal::whole(0)),
            quality: Quality::Default,
            format: Format::Jpg,
        },
    }
}

#[test]
fn the_whole_image_at_its_own_size() {
    assert_eq!(
        pipeline(Region::Full, Size::new(Scale::Max)).run(true),
        Ok(TranscodingPlan {
            region: AbsoluteRegion { x: 0, y: 0, width: 1024, height: 768 },
            width: 1024,
            height: 768,
            chunk_height: 64,
            buffer_capacity: 1024 * 768 * 3,
            stream: ImageStream { media_type: Format::Jpg, width: 1024, height: 768 },
        })
    );
}

#[test]
fn a_tile_scaled_to_half_its_width() {
    let region = Region::Absolute { x: 0, y: 0, width: 256, height: 256 };
    let size = Size::new(Scale::fixed_width(NonZeroDimension::new(128)));
    let plan = pipeline(region, size).run(true).unwrap();
    assert_eq!(plan.region, AbsoluteRegion { x: 0, y: 0, width: 256, height: 256 });
    assert_eq!((plan.width, plan.height), (128, 128));
    assert_eq!(plan.buffer_capacity, 128 * 128 * 3);
    assert_eq!(plan.stream, ImageStream { media_type: Format::Jpg, width: 128, height: 128 });
}

#[test]
fn parameters_that_the_image_cannot_meet() {
    let outside = Region::Absolute { x: 1000, y: 0, width: 256, height: 256 };
    assert_eq!(pipeline(outside, Size::new(Scale::Max)).run(true), Err(ParameterError::RegionOutOfBounds));
    let large = Size::upscaled(Scale::fixed_width(NonZeroDimension::new(2048)));
    assert_eq!(pipeline(Region::Full, large).run(true), Err(ParameterError::TooLarge));
    assert_eq!(pipeline(Region::Full, large).run(false), Err(ParameterError::UpscalingDisabled));
    let nothing = Size::new(Scale::Percentage(Decimal::whole(0)));
    assert_eq!(pipeline(Region::Full, nothing).run(true), Err(ParameterError::ZeroDimension));
}

#[test]
fn what_the_pipeline_does_not_do_has_no_plan() {
    let with = |rotation: Rotation, quality: Quality, format: Format| TranscodingPipeline {
        info: info(),
        params: ImageParameters {
            region: Region::Full,
            size: Size::new(Scale::Max),
            rotation,
            quality,
            format,
        },
    };
    let none = Rotation::new(Decimal::whole(0));
    assert!(with(none, Quality::Default, Format::Jpg).run(true).is_ok());
    for format in [Format::Tif, Format::Png, Format::Gif, Format::Jp2, Format::Pdf, Format::Webp] {
        assert_eq!(
            with(none, Quality::Default, format).run(true),
            Err(ParameterError::UnsupportedFormat)
        );
    }
    for quality in [Quality::Color, Quality::Gray, Quality::Bitonal] {
        assert_eq!(
            with(none, quality, Format::Jpg).run(true),
            Err(ParameterError::UnsupportedQuality)
        );
    }
    let turned = [
        Rotation::new(Decimal::whole(90)),
        Rotation::new(Decimal::from_billionths(1)),
        Rotation::mirrored(Decimal::whole(0)),
    ];
    for rotation in turned {
        assert_eq!(
            with(rotation, Quality::Default, Format::Jpg).run(true),
            Err(ParameterError::UnsupportedRotation)
        );
    }
    // the first fault in the order of the path is the one reported
    assert_eq!(
        with(turned[0], Quality::Gray, Format::Png).run(true),
        Err(ParameterError::UnsupportedRotation)
    );
    assert_eq!(
        with(none, Quality::Gray, Format::Png).run(true),
        Err(ParameterError::UnsupportedQuality)
    );
    let outside = TranscodingPipeline {
        info: info(),
        params: ImageParameters {
            region: Region::Absolute { x: 1000, y: 0, width: 256, height: 256 },
            size: Size::new(Scale::Max),
            rotation: none,
            quality: Quality::Default,
            format: Format::Png,
        },
    };
    assert_eq!(outside.run(true), Err(ParameterError::RegionOutOfBounds));
}

#[test]
fn the_plan_is_for_the_format_asked_for() {
    let plan = pipeline(Region::Full, Size::new(Scale::Max)).run(true).unwrap();
    assert_eq!(plan.stream.media_type, Format::Jpg);
    assert_eq!(plan.stream.media_type.mime(), "image/jpeg");
}

#[test]
fn the_buffer_holds_the_whole_output_image() {
    assert_eq!(buffer_capacity(1024, 768), Some(2_359_296));
    assert_eq!(buffer_capacity(0, 768), Some(0));
    assert_eq!(buffer_capacity(1, 1), Some(3));
    assert_eq!(buffer_capacity(4294967295, 4294967295), None);
}

#[test]
fn an_empty_rectangle_is_the_end_of_the_image() {
    assert_eq!(progress(1024, 16), Some(DecodeEvent::Decoded { appended: 49152, finished: false }));
    assert_eq!(progress(0, 16), Some(DecodeEvent::Decoded { appended: 0, finished: true }));
    assert_eq!(progress(1024, 0), Some(DecodeEvent::Decoded { appended: 0, finished: true }));
    assert_eq!(progress(4294967295, 4294967295), None);
}

#[test]
fn the_decode_worker_sends_every_chunk_with_pixels() {
    let (mut worker, first) = DecodeWorker::start(false);
    assert_eq!(first, DecodeAction::Decode);
    let decoded = |appended, finished| DecodeEvent::Decoded { appended, finished };
    assert_eq!(worker.step(decoded(49152, false), false), DecodeAction::Send);
    assert_eq!(worker, DecodeWorker::Sending { last: false });
    assert_eq!(worker.step(DecodeEvent::Sent { delivered: true }, false), DecodeAction::Decode);
    assert_eq!(worker.step(decoded(0, false), false), DecodeAction::Decode);
    assert_eq!(worker.step(decoded(3, true), false), DecodeAction::Send);
    assert_eq!(worker.step(DecodeEvent::Sent { delivered: true }, false), DecodeAction::Stop);
    assert_eq!(worker, DecodeWorker::Stopped);
    assert_eq!(worker.step(decoded(3, false), false), DecodeAction::Stop);
}

#[test]
fn the_decode_worker_stops_when_cancelled_or_alone() {
    assert_eq!(DecodeWorker::start(true), (DecodeWorker::Stopped, DecodeAction::Stop));
    let decoded = |appended, finished| DecodeEvent::Decoded { appended, finished };

    let mut worker = DecodeWorker::Decoding;
    assert_eq!(worker.step(decoded(0, true), false), DecodeAction::Stop);

    let mut worker = DecodeWorker::Decoding;
    assert_eq!(worker.step(decoded(0, false), true), DecodeAction::Stop);

    let mut worker = DecodeWorker::Decoding;
    assert_eq!(worker.step(decoded(6, false), true), DecodeAction::Send);
    assert_eq!(worker.step(DecodeEvent::Sent { delivered: true }, true), DecodeAction::Stop);

    let mut worker = DecodeWorker::Sending { last: false };
    assert_eq!(worker.step(DecodeEvent::Sent { delivered: false }, false), DecodeAction::Stop);
    assert_eq!(worker, DecodeWorker::Stopped);

    let mut worker = DecodeWorker::Decoding;
    assert_eq!(worker.step(DecodeEvent::Sent { delivered: true }, false), DecodeAction::Stop);
}

#[test]
fn the_encode_worker_finishes_after_the_last_row() {
    assert_eq!(EncodeWorker::new(0, 2), None);
    assert_eq!(EncodeWorker::new(2, 0), None);
    let mut worker = EncodeWorker::new(4, 3).unwrap();
    assert_eq!(worker.step(EncodeEvent::Chunk { len: 24 }), EncodeAction::Write { rows: 2 });
    assert_eq!(worker.step(EncodeEvent::Chunk { len: 0 }), EncodeAction::Write { rows: 0 });
    assert_eq!(worker.step(EncodeEvent::Chunk { len: 12 }), EncodeAction::Write { rows: 1 });
    assert_eq!(worker.rows, 3);
    assert_eq!(worker.step(EncodeEvent::Closed), EncodeAction::Finish);
    assert!(worker.ended);
    assert_eq!(worker.step(EncodeEvent::Chunk { len: 12 }), EncodeAction::Stop);
    assert_eq!(worker.step(EncodeEvent::Closed), EncodeAction::Stop);
}

#[test]
fn a_chunk_that_has_come_is_an_event_of_its_length() {
    let mut buffer = bytes::BytesMut::with_capacity(16);
    buffer.extend_from_slice(b"rgbrgbrgbrgb");
    let chunk = detach(&mut buffer, 16);
    assert_eq!(EncodeEvent::received(&chunk), EncodeEvent::Chunk { len: 12 });
    assert_eq!(EncodeEvent::received(&detach(&mut buffer, 16)), EncodeEvent::Chunk { len: 0 });
}

#[test]
fn the_encode_worker_fails_on_what_is_no_image() {
    let mut worker = EncodeWorker::new(4, 3).unwrap();
    assert_eq!(worker.step(EncodeEvent::Chunk { len: 13 }), EncodeAction::Fail(EncodeFault::PartialScanline));
    assert_eq!(worker.step(EncodeEvent::Chunk { len: 12 }), EncodeAction::Stop);

    let mut worker = EncodeWorker::new(4, 3).unwrap();
    assert_eq!(worker.step(EncodeEvent::Chunk { len: 48 }), EncodeAction::Fail(EncodeFault::TooManyScanlines));

    let mut worker = EncodeWorker::new(4, 3).unwrap();
    assert_eq!(worker.step(EncodeEvent::Chunk { len: 24 }), EncodeAction::Write { rows: 2 });
    assert_eq!(worker.step(EncodeEvent::Closed), EncodeAction::Fail(EncodeFault::TooFewScanlines));

    let mut worker = EncodeWorker::new(4, 3).unwrap();
    assert_eq!(worker.step(EncodeEvent::Chunk { len: 12 }), EncodeAction::Write { rows: 1 });
    assert_eq!(worker.step(EncodeEvent::Cancelled), EncodeAction::Stop);
    assert_eq!(worker.step(EncodeEvent::Closed), EncodeAction::Stop);
}

#[test]
fn the_writer_holds_back_less_than_four_kibibytes() {
    let mut writer = SenderWriter::new();
    assert_eq!(writer.pending_len(), 0);
    let (taken, chunk) = writer.write(&[7u8; 4095]);
    assert_eq!(taken, 4095);
    assert!(chunk.is_none());
    assert_eq!(writer.pending_len(), 4095);
    let (taken, chunk) = writer.write(&[9u8]);
    assert_eq!(taken, 1);
    let mut expected = vec![7u8; 4095];
    expected.push(9);
    assert_eq!(chunk_contents(&chunk.unwrap()), expected);
    assert_eq!(writer.pending_len(), 0);
}

#[test]
fn the_writer_takes_a_long_write_whole() {
    let mut writer = SenderWriter::new();
    let data: Vec<u8> = (0..62000u32).map(|i| (i % 251) as u8).collect();
    let (taken, chunk) = writer.write(&data);
    assert_eq!(taken, 62000);
    assert_eq!(chunk_contents(&chunk.unwrap()), data);
    assert_eq!(writer.pending_len(), 0);

    let (taken, chunk) = writer.write(b"abc");
    assert_eq!((taken, chunk.is_none()), (3, true));
    let data: Vec<u8> = (0..70000u32).map(|i| (i % 241) as u8).collect();
    let (taken, chunk) = writer.write(&data);
    assert_eq!(taken, 70000);
    let mut expected = b"abc".to_vec();
    expected.extend_from_slice(&data);
    assert_eq!(chunk_contents(&chunk.unwrap()), expected);
    assert_eq!(writer.pending_len(), 0);
}

#[test]
fn chunks_and_the_flushed_rest_are_the_bytes_written() {
    let writes: Vec<Vec<u8>> = [10usize, 4000, 85, 1, 0, 9000, 4095, 1, 62000, 7]
        .iter()
        .enumerate()
        .map(|(k, len)| (0..*len).map(|i| (i + 7 * k) as u8).collect())
        .collect();
    let mut writer = SenderWriter::new();
    let mut received: Vec<u8> = Vec::new();
    let mut chunks = 0;
    for data in &writes {
        let (taken, chunk) = writer.write(data);
        assert_eq!(taken, data.len());
        if let Some(chunk) = chunk {
            let bytes = chunk_contents(&chunk);
            assert!(bytes.len() >= 4096);
            received.extend_from_slice(&bytes);
            chunks += 1;
        }
        assert!(writer.pending_len() < 4096);
    }
    assert_eq!(chunks, 4);
    received.extend_from_slice(&chunk_contents(&writer.flush()));
    assert_eq!(writer.pending_len(), 0);
    assert_eq!(received, writes.concat());
}

#[test]
fn flushing_hands_on_what_is_held() {
    let mut writer = SenderWriter::new();
    let (_, chunk) = writer.write(b"hello");
    assert!(chunk.is_none());
    assert_eq!(chunk_contents(&writer.flush()), b"hello".to_vec());
    assert_eq!(writer.pending_len(), 0);
    assert_eq!(chunk_contents(&writer.flush()), Vec::<u8>::new());
    let (_, chunk) = writer.write(b"");
    assert!(chunk.is_none());
}

#[test]
fn detaching_leaves_an_empty_buffer() {
    let mut buffer = bytes::BytesMut::with_capacity(16);
    buffer.extend_from_slice(b"rgbrgb");
    let chunk = detach(&mut buffer, 16);
    assert_eq!(chunk_contents(&chunk), b"rgbrgb".to_vec());
    assert_eq!(buffer.len(), 0);
    assert!(buffer.capacity() >= 16);
    assert_eq!(chunk_contents(&detach(&mut buffer, 0)), Vec::<u8>::new());
}

#[test]
fn a_panic_keeps_its_message() {
    assert_eq!(
        TranscodingError::from_panic(Some("boom".to_string())),
        TranscodingError::Generic("boom".to_string())
    );
    assert_eq!(TranscodingError::from_panic(None), TranscodingError::Unknown);
}

#[test]
fn transcoding_errors_say_what_they_are() {
    assert_eq!(TranscodingError::Generic("codec gave up".to_string()).message(), "codec gave up");
    assert_eq!(TranscodingError::Io("broken pipe".to_string()).message(), "io error: broken pipe");
    assert_eq!(TranscodingError::Unknown.message(), "unknown error");
}

#[test]
fn the_stream_gives_chunks_until_queue_and_workers_are_done() {
    let mut stream = TranscodedStream::new();
    let go_on = WorkersPoll { item: None, cancel: false };
    assert_eq!(stream.poll_workers(&vec![]), go_on);
    assert_eq!(stream.poll_queue(QueuePoll::Chunk, 2), StreamItem::Chunk);
    assert_eq!(stream.poll_queue(QueuePoll::Pending, 2), StreamItem::Pending);
    assert_eq!(stream.poll_workers(&vec![WorkerOutcome::Completed]), go_on);
    assert_eq!(stream.poll_queue(QueuePoll::Closed, 1), StreamItem::Pending);
    assert_eq!(stream.poll_workers(&vec![WorkerOutcome::Completed]), go_on);
    assert_eq!(stream.poll_queue(QueuePoll::Chunk, 0), StreamItem::Chunk);
    assert_eq!(stream.poll_queue(QueuePoll::Closed, 0), StreamItem::End);
    assert!(!stream.failed);
}

#[test]
fn the_stream_gives_one_error_and_then_ends() {
    let mut stream = TranscodedStream::new();
    let finished = vec![
        WorkerOutcome::Completed,
        WorkerOutcome::Failed(TranscodingError::Io("broken pipe".to_string())),
        WorkerOutcome::Panicked("boom".to_string()),
    ];
    let failed = |message: &str| WorkersPoll {
        item: Some(StreamItem::Error(message.to_string())),
        cancel: true,
    };
    let ended = WorkersPoll { item: Some(StreamItem::End), cancel: false };
    assert_eq!(stream.poll_workers(&finished), failed("io error: broken pipe"));
    assert!(stream.failed);
    assert_eq!(stream.poll_workers(&finished), ended);
    assert_eq!(stream.poll_workers(&vec![]), ended);

    let mut stream = TranscodedStream::new();
    let finished = vec![WorkerOutcome::Panicked("boom".to_string())];
    assert_eq!(stream.poll_workers(&finished), failed("task panicked: boom"));
    assert_eq!(stream.poll_workers(&vec![WorkerOutcome::Completed]), ended);
}
