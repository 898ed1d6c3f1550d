use coolcooler::display_loop::{
    bytes_equal, failure_event, frame_interval_nanos, reconnect_step, FileTransferLoop,
    LoopFailure, ReconnectStep, StreamingAction, StreamingLoop,
};
use coolcooler::source::{
    decode_source, filename_for_path, still_frames, gif_frame_delay_ms, load_error_message, loaded_source_message,
    SourceFrame, SourceState, SourceSummary, STILL_FRAME_MS,
};
use coolcooler::types::{DisplayFrame, DisplayLoopEvent};

#[test]
fn streaming_takes_new_non_empty_jpegs() {
    let mut lp = StreamingLoop::new(8000, 0);
    assert_eq!(lp.next_action(false, 0), StreamingAction::Sleep);
    lp.take_frame(Some(&DisplayFrame::StreamingJpeg(Vec::new())));
    assert!(lp.current().is_empty());
    lp.take_frame(Some(&DisplayFrame::FileTransferPng(vec![1])));
    assert!(lp.current().is_empty());
    lp.take_frame(Some(&DisplayFrame::StreamingJpeg(vec![0xFF, 0xD8, 1])));
    assert_eq!(lp.current(), &vec![0xFF, 0xD8, 1]);
    lp.take_frame(None);
    assert_eq!(lp.current(), &vec![0xFF, 0xD8, 1]);
    assert_eq!(lp.next_action(false, 10), StreamingAction::SendFrame);
    assert_eq!(lp.next_action(true, 10), StreamingAction::Sleep);
    assert_eq!(lp.next_action(true, 8000), StreamingAction::SendKeepalive);
    lp.restart_keepalive_clock(8000);
    assert!(!lp.keepalive_due(15999));
    assert!(lp.keepalive_due(16000));
}

#[test]
fn reconnect_gives_up_only_on_stop() {
    assert_eq!(reconnect_step(false, None), ReconnectStep::WaitAndRetry);
    assert_eq!(reconnect_step(true, None), ReconnectStep::GiveUp);
    assert_eq!(reconnect_step(false, Some(false)), ReconnectStep::WaitAndRetry);
    assert_eq!(reconnect_step(true, Some(true)), ReconnectStep::Resume);
}

#[test]
fn file_transfer_sends_each_png_once() {
    let mut lp = FileTransferLoop::new();
    let frame = DisplayFrame::FileTransferPng(vec![0x89, b'P', b'N', b'G']);
    let png = lp.pending(Some(&frame)).unwrap();
    lp.written(png);
    assert!(lp.pending(Some(&frame)).is_none());
    assert!(lp.pending(Some(&DisplayFrame::FileTransferPng(Vec::new()))).is_none());
    assert!(lp.pending(Some(&DisplayFrame::StreamingJpeg(vec![1]))).is_none());
    assert!(lp.pending(None).is_none());
    assert_eq!(lp.pending(Some(&DisplayFrame::FileTransferPng(vec![2]))), Some(vec![2]));
}

#[test]
fn loop_timing() {
    assert_eq!(frame_interval_nanos(20), 50_000_000);
    assert_eq!(frame_interval_nanos(3), 333_333_333);
    assert!(bytes_equal(&vec![1, 2], &vec![1, 2]));
    assert!(!bytes_equal(&vec![1, 2], &vec![1]));
}

#[test]
fn failures_become_events() {
    assert_eq!(
        failure_event(LoopFailure::Connect, "not connected"),
        DisplayLoopEvent::Failed("connect failed: not connected".to_string())
    );
    assert_eq!(
        failure_event(LoopFailure::FrameTransfer, "pipe"),
        DisplayLoopEvent::Reconnecting("frame transfer failed: pipe".to_string())
    );
    assert_eq!(
        failure_event(LoopFailure::Keepalive, "pipe"),
        DisplayLoopEvent::Reconnecting("keepalive failed: pipe".to_string())
    );
    assert_eq!(
        failure_event(LoopFailure::WriteFrame, "disk"),
        DisplayLoopEvent::TransferFailed("failed to write liquidctl frame: disk".to_string())
    );
    assert_eq!(
        failure_event(LoopFailure::LiquidctlTransfer, "exit 1"),
        DisplayLoopEvent::TransferFailed("liquidctl transfer failed: exit 1".to_string())
    );
}

fn frame(tag: u8, duration_ms: u64) -> SourceFrame<u8> {
    SourceFrame { image: tag, width: 4, height: 4, duration_ms }
}

#[test]
fn clear_removes_source_path_frames_and_loading_together() {
    let mut source: SourceState<u8, String> = SourceState::new(0);
    source.begin_loading("/tmp/demo.png".to_string(), "demo.png".to_string(), 0);
    source.replace_with_loaded(
        vec![frame(1, 100)],
        "demo.png".to_string(),
        Some("/tmp/demo.png".to_string()),
        0,
    );

    source.clear(0);

    assert!(source.path().is_none());
    assert_eq!(source.frame_count(), 0);
    assert!(source.current_frame().is_none());
    assert!(!source.is_loading());
}

#[test]
fn loaded_source_keeps_summary_and_path_in_one_state_object() {
    let mut source: SourceState<u8, String> = SourceState::new(0);
    let summary = source.replace_with_loaded(
        vec![frame(1, 100)],
        "demo.png".to_string(),
        Some("/tmp/demo.png".to_string()),
        0,
    );

    assert_eq!(summary.filename, "demo.png");
    assert_eq!(summary.frame_count, 1);
    assert_eq!(source.path(), Some(&"/tmp/demo.png".to_string()));
    assert_eq!(source.current_size(), Some((4, 4)));
}

#[test]
fn animation_advances_when_the_frame_is_due() {
    let mut source: SourceState<u8, String> = SourceState::new(0);
    source.replace_with_loaded(vec![frame(1, 100), frame(2, 50)], "a.gif".to_string(), None, 1000);
    assert!(source.is_animated());
    assert!(!source.advance_frame_if_due(1099));
    assert!(source.advance_frame_if_due(1100));
    assert_eq!(source.current_frame().unwrap().image, 2);
    assert!(!source.advance_frame_if_due(1149));
    assert!(source.advance_frame_if_due(1150));
    assert_eq!(source.current_frame().unwrap().image, 1);
    let mut still: SourceState<u8, String> = SourceState::new(0);
    still.replace_with_loaded(vec![frame(1, STILL_FRAME_MS)], "s.png".to_string(), None, 0);
    assert!(!still.advance_frame_if_due(u64::MAX));
}

#[test]
fn gif_delays_and_file_names() {
    assert_eq!(gif_frame_delay_ms(100, 1), 100);
    assert_eq!(gif_frame_delay_ms(5, 1), 20);
    assert_eq!(gif_frame_delay_ms(7, 0), 100);
    assert_eq!(gif_frame_delay_ms(300, 10), 30);
    assert_eq!(filename_for_path("/tmp/demo.png"), "demo.png");
    assert_eq!(filename_for_path("/tmp/.."), "");
    assert_eq!(filename_for_path("/"), "");
}

#[test]
fn source_status_lines() {
    let still = SourceSummary { filename: "demo.png".to_string(), frame_count: 1 };
    assert_eq!(loaded_source_message(&still), "demo.png");
    let gif = SourceSummary { filename: "spin.gif".to_string(), frame_count: 24 };
    assert_eq!(loaded_source_message(&gif), "spin.gif (24 frames)");
    assert_eq!(load_error_message("bad gif"), "Error: bad gif");
}

#[test]
fn loading_flag_is_set_and_cleared_without_touching_the_source() {
    let mut source: SourceState<u8, String> = SourceState::new(0);
    source.replace_with_loaded(vec![frame(7, 100)], "a.png".to_string(), None, 0);
    source.set_loading(true);
    assert!(source.is_loading());
    assert_eq!(source.frame_count(), 1);
    assert_eq!(source.filename(), "a.png");
    source.set_loading(false);
    assert!(!source.is_loading());
    assert_eq!(source.current_frame().unwrap().image, 7);
}

fn gif_bytes(delays_ms: &[u32]) -> Vec<u8> {
    let mut out = Vec::new();
    {
        let mut encoder = image::codecs::gif::GifEncoder::new(&mut out);
        for (k, &ms) in delays_ms.iter().enumerate() {
            let buffer = image::RgbaImage::from_pixel(3, 2, image::Rgba([k as u8 * 40, 0, 0, 255]));
            let delay = image::Delay::from_numer_denom_ms(ms, 1);
            encoder.encode_frame(image::Frame::from_parts(buffer, 0, 0, delay)).unwrap();
        }
    }
    out
}

#[test]
fn gif_sources_decode_every_frame_with_its_delay() {
    let bytes = gif_bytes(&[50, 10, 200]);
    let frames = decode_source(&bytes, "/tmp/spin.GIF").unwrap();
    let delays: Vec<u64> = frames.iter().map(|f| f.duration_ms).collect();
    assert_eq!(delays, vec![50, 20, 200]);
    assert!(frames.iter().all(|f| (f.width, f.height) == (3, 2) && f.image.pixels().len() == 24));
}

#[test]
fn still_sources_decode_one_frame_and_bad_files_fail() {
    let img = image::RgbaImage::from_pixel(4, 5, image::Rgba([1, 2, 3, 255]));
    let mut png = std::io::Cursor::new(Vec::new());
    image::DynamicImage::ImageRgba8(img).write_to(&mut png, image::ImageFormat::Png).unwrap();
    let frames = decode_source(png.get_ref(), "/tmp/still.png").unwrap();
    assert_eq!(frames.len(), 1);
    assert_eq!((frames[0].width, frames[0].height, frames[0].duration_ms), (4, 5, STILL_FRAME_MS));
    assert_eq!(&frames[0].image.pixels()[..4], &[1, 2, 3, 255]);
    assert!(decode_source(&vec![1, 2, 3], "/tmp/broken.gif").is_err());
    assert!(decode_source(&vec![1, 2, 3], "/tmp/broken.png").is_err());
    assert!(decode_source(png.get_ref(), "/tmp/no_extension").is_err());
}

#[test]
fn unknown_extensions_and_missing_ones_are_reported_apart() {
    let png = vec![0x89, b'P', b'N', b'G'];
    let unknown = decode_source(&png, "/tmp/picture.xyz").err().unwrap();
    assert!(unknown.contains("was not recognized as an image format"));
    let none = decode_source(&png, "/tmp/picture").err().unwrap();
    assert_eq!(none, "The image format could not be determined");
}

#[test]
fn a_still_frame_holds_the_decoded_pixels() {
    let frames = still_frames(1, 2, vec![1, 2, 3, 4, 5, 6, 7, 8]);
    assert_eq!(frames.len(), 1);
    assert_eq!((frames[0].width, frames[0].height, frames[0].duration_ms), (1, 2, STILL_FRAME_MS));
    assert_eq!(frames[0].image.pixels(), &vec![1, 2, 3, 4, 5, 6, 7, 8]);
}
