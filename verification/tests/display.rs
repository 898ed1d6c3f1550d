use coolcooler::display::{
    status_message, DisplayController, DisplayNotice, DisplayState, DisplayStatus, WorkerStart,
};
use coolcooler::driver::{DisplayDriver, LiquidctlDriver};
use coolcooler::frame::{DisplayFrameEncoder, RgbaFrame};
use coolcooler::liquidctl::LiquidctlDeviceDef;
use coolcooler::types::{
    DeviceInfo, DisplayCapability, DisplayFrame, DisplayLoopEvent, Resolution, Rotation,
};

type Controller = DisplayController<(), String>;
type Driver = DisplayDriver<(), String>;

fn fake_def() -> LiquidctlDeviceDef {
    LiquidctlDeviceDef {
        name: "Fake cooler",
        vendor_id: 0x1234,
        product_id: 0x5678,
        resolution: Resolution::new(320, 240),
        rotation: Rotation::Deg0,
        set_screen_args: vec!["set", "lcd", "screen", "static", "{path}"],
    }
}

fn fake_driver() -> Driver {
    DisplayDriver::Liquidctl(LiquidctlDriver::new(fake_def(), String::from("/tmp/frame.png")))
}

fn fake_info() -> DeviceInfo {
    fake_driver().info().clone()
}

fn solid_rgba(width: u32, height: u32, rgba: [u8; 4]) -> RgbaFrame {
    let pixels: Vec<u8> = (0..width * height).flat_map(|_| rgba).collect();
    RgbaFrame::from_raw(width, height, pixels).unwrap()
}

fn controller_with_running_worker() -> Controller {
    let mut controller = Controller::new(DisplayStatus::Disconnected);
    let start = WorkerStart::Detected {
        driver: fake_driver(),
        frame: DisplayFrame::FileTransferPng(vec![1, 2, 3]),
    };
    assert!(controller.start(start, None).is_some());
    assert!(matches!(controller.state(), DisplayState::Running));
    controller
}

fn controller_with_stopping_worker() -> Controller {
    let mut controller = controller_with_running_worker();
    assert!(controller.stop());
    assert!(matches!(controller.state(), DisplayState::Stopping { queued_start: None }));
    controller
}

/// The frame the host renders and encodes for the controller's device.
fn render_for(controller: &Controller, rgba: [u8; 4]) -> Option<DisplayFrame> {
    let resolution = controller.resolution();
    assert_eq!(resolution, Resolution::new(320, 240));
    let info = controller.device_info()?.clone();
    let capability = controller.capability()?;
    let composited = solid_rgba(resolution.width, resolution.height, rgba);
    DisplayFrameEncoder::new(info, capability).prepare(&composited).ok()
}

fn check_disconnected_controller_has_no_device_info() {
    let controller = Controller::new(DisplayStatus::Disconnected);

    assert!(controller.device_info().is_none());
    assert_eq!(controller.capability(), None);
    assert_eq!(controller.resolution(), Resolution::new(240, 240));
}

#[test]
fn display_worker_disconnected_controller_has_no_device_info() {
    check_disconnected_controller_has_no_device_info();
}

#[test]
fn display_session_disconnected_controller_has_no_device_info() {
    check_disconnected_controller_has_no_device_info();
}

#[test]
fn finished_running_worker_is_reaped() {
    let mut controller = controller_with_running_worker();

    assert!(controller.join_finished(true).is_none());

    assert!(matches!(controller.state(), DisplayState::Idle));
}

#[test]
fn finished_running_session_is_reaped() {
    let mut controller = controller_with_running_worker();
    assert!(controller.join_finished(true).is_none());
    assert!(matches!(controller.state(), DisplayState::Idle));
    assert!(!controller.needs_lifecycle_poll());
}

#[test]
fn unfinished_running_worker_stays_running() {
    let mut controller = controller_with_running_worker();

    assert!(controller.join_finished(false).is_none());

    assert!(matches!(controller.state(), DisplayState::Running));
}

#[test]
fn unfinished_running_session_stays_running() {
    let mut controller = controller_with_running_worker();
    assert!(controller.join_finished(false).is_none());
    assert!(matches!(controller.state(), DisplayState::Running));
    assert!(controller.needs_lifecycle_poll());
}

#[test]
fn present_while_running_submits_frame_without_stopping_worker() {
    let mut controller = controller_with_running_worker();
    assert_eq!(controller.device_info().unwrap().name, fake_info().name);

    let prepared = render_for(&controller, [1, 2, 3, 255]);
    let (submitted, stop_request) = controller.present_to_worker(prepared);

    assert!(matches!(controller.state(), DisplayState::Running));
    assert!(!stop_request);
    let frame = submitted.expect("one frame is submitted");
    assert!(matches!(&frame, DisplayFrame::FileTransferPng(_)));
}

#[test]
fn present_while_stopping_queues_reopen_without_extra_stop_request() {
    let mut controller = controller_with_stopping_worker();

    let prepared = render_for(&controller, [4, 5, 6, 255]);
    let (submitted, stop_request) = controller.present_to_worker(prepared);

    assert!(!stop_request);
    assert!(submitted.is_none());
    let DisplayState::Stopping {
        queued_start: Some(WorkerStart::Reopen { frame, .. }),
    } = controller.state()
    else {
        panic!("stopping worker should keep a queued start");
    };
    assert!(matches!(frame, DisplayFrame::FileTransferPng(_)));
}

#[test]
fn stopping_worker_without_queued_start_goes_idle_after_join() {
    let mut controller = controller_with_stopping_worker();

    assert!(controller.join_finished(true).is_none());

    assert!(matches!(controller.state(), DisplayState::Idle));
}

#[test]
fn stopping_session_without_restart_goes_idle_after_join() {
    let mut controller = controller_with_stopping_worker();
    assert!(controller.join_finished(true).is_none());
    assert!(matches!(controller.state(), DisplayState::Idle));
}

#[test]
fn queued_reopen_restarts_on_the_same_device_after_join() {
    let mut controller = controller_with_stopping_worker();
    let prepared = render_for(&controller, [7, 8, 9, 255]);
    controller.present_to_worker(prepared);
    let start = controller.join_finished(true).expect("the queued reopen is due");
    assert!(matches!(controller.state(), DisplayState::Idle));
    let run = controller.start(start, Some(fake_driver()));
    assert!(run.is_some());
    assert!(matches!(controller.state(), DisplayState::Running));
}

#[test]
fn reopen_refuses_a_different_device() {
    let mut controller = controller_with_stopping_worker();
    let prepared = render_for(&controller, [7, 8, 9, 255]);
    controller.present_to_worker(prepared);
    let start = controller.join_finished(true).unwrap();
    let mut other = fake_def();
    other.name = "Other cooler";
    let other_driver: Driver =
        DisplayDriver::Liquidctl(LiquidctlDriver::new(other, String::from("/tmp/frame.png")));
    assert!(controller.start(start, Some(other_driver)).is_none());
    assert!(matches!(controller.state(), DisplayState::Idle));
    assert_eq!(controller.device_info().unwrap().name, "Other cooler");
}

#[test]
fn stop_cancels_a_queued_reopen() {
    let mut controller = controller_with_stopping_worker();
    let prepared = render_for(&controller, [1, 1, 1, 255]);
    controller.present_to_worker(prepared);
    assert!(!controller.stop());
    assert!(controller.join_finished(true).is_none());
    assert!(matches!(controller.state(), DisplayState::Idle));
}

#[test]
fn failed_encoding_stops_a_running_worker() {
    let mut controller = controller_with_running_worker();
    let (submitted, stop_request) = controller.present_to_worker(None);
    assert!(submitted.is_none());
    assert!(stop_request);
    assert!(matches!(controller.state(), DisplayState::Stopping { queued_start: None }));
}

#[test]
fn idle_presentation_starts_a_detected_device() {
    let mut controller = Controller::new(DisplayStatus::Disconnected);
    assert!(controller.present_when_idle(None, None).is_none());
    let start = controller
        .present_when_idle(Some(fake_driver()), Some(DisplayFrame::FileTransferPng(vec![9])))
        .expect("a worker start");
    assert_eq!(controller.capability(), Some(DisplayCapability::FileTransfer));
    assert!(controller.start(start, None).is_some());
    assert!(controller.frame_to_submit(Some(DisplayFrame::FileTransferPng(vec![1]))).is_some());
}

#[test]
fn notices_name_the_device_and_carry_messages() {
    let controller = controller_with_running_worker();
    let events = vec![
        DisplayLoopEvent::Started,
        DisplayLoopEvent::Reconnecting("usb".to_string()),
        DisplayLoopEvent::TransferFailed("io".to_string()),
        DisplayLoopEvent::Failed("gone".to_string()),
        DisplayLoopEvent::Stopped,
    ];
    let notices = controller.notices_for(&events);
    assert_eq!(
        notices,
        vec![
            DisplayNotice::Started("Fake cooler".to_string()),
            DisplayNotice::Reconnecting("usb".to_string()),
            DisplayNotice::TransferFailed("io".to_string()),
            DisplayNotice::Failed("gone".to_string()),
            DisplayNotice::Stopped,
        ]
    );
    let lines: Vec<Option<String>> = notices.iter().map(status_message).collect();
    assert_eq!(
        lines,
        vec![
            Some("Displaying on Fake cooler".to_string()),
            Some("Display reconnecting: usb".to_string()),
            Some("Display transfer failed: io".to_string()),
            Some("Display failed: gone".to_string()),
            None,
        ]
    );
    let idle = Controller::new(DisplayStatus::Disconnected);
    assert_eq!(
        idle.notice_for(&DisplayLoopEvent::Started),
        DisplayNotice::Started("display".to_string())
    );
}

#[test]
fn setting_the_status_keeps_the_worker_state() {
    let mut controller = controller_with_running_worker();
    controller.set_status(DisplayStatus::Disconnected);
    assert!(matches!(controller.state(), DisplayState::Running));
    assert!(controller.device_info().is_none());
    assert_eq!(controller.resolution(), Resolution::new(240, 240));
    controller.set_status(DisplayStatus::Connected {
        info: fake_info(),
        capability: DisplayCapability::FileTransfer,
    });
    assert_eq!(controller.resolution(), Resolution::new(320, 240));
    assert_eq!(controller.capability(), Some(DisplayCapability::FileTransfer));
}
