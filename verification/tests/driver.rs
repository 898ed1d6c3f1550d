use coolcooler::driver::{
    select_device, DetectedDevice, DisplayDriver, Fx360, LiquidctlDriver, FX360_PRODUCT_ID,
    FX360_VENDOR_ID,
};
use coolcooler::frame::{DisplayFrameEncoder, RgbaFrame};
use coolcooler::liquidctl::{device_registry, match_liquidctl_device};
use coolcooler::types::{DisplayCapability, DisplayFrame, Error, Rotation};

type Driver = DisplayDriver<(), String>;

fn liquidctl_driver(index: usize) -> Driver {
    let def = device_registry()[index].clone();
    DisplayDriver::Liquidctl(LiquidctlDriver::new(def, String::from("/tmp/frame.png")))
}

fn native_driver() -> Driver {
    DisplayDriver::Native(Fx360::new())
}

fn solid_rgba(width: u32, height: u32, rgba: [u8; 4]) -> RgbaFrame {
    let pixels: Vec<u8> = (0..width * height).flat_map(|_| rgba).collect();
    RgbaFrame::from_raw(width, height, pixels).unwrap()
}

// -- DisplayDriver enum tests --

#[test]
fn liquidctl_driver_returns_file_transfer_capability() {
    let driver = liquidctl_driver(0);
    assert_eq!(driver.capability(), DisplayCapability::FileTransfer);
}

#[test]
fn native_driver_returns_streaming_capability() {
    let driver = native_driver();
    assert_eq!(driver.capability(), DisplayCapability::Streaming);
}

#[test]
fn liquidctl_driver_info_matches_registry() {
    for (i, def) in device_registry().into_iter().enumerate() {
        let driver = liquidctl_driver(i);
        let info = driver.info();
        assert_eq!(info.name, def.name);
        assert_eq!(info.resolution, def.resolution);
        assert_eq!(info.rotation, def.rotation);
    }
}

#[test]
fn frame_encoder_prepares_typed_streaming_frame() {
    let driver = native_driver();
    let encoder = DisplayFrameEncoder::from_driver(&driver);
    let composited = solid_rgba(240, 240, [255, 0, 0, 255]);

    let frame = encoder.prepare(&composited).unwrap();

    let DisplayFrame::StreamingJpeg(bytes) = frame else {
        panic!("native encoder should produce JPEG streaming frames");
    };
    assert!(bytes.starts_with(&[0xFF, 0xD8]));
}

#[test]
fn frame_encoder_prepares_typed_file_transfer_frame() {
    let driver = liquidctl_driver(0);
    let encoder = DisplayFrameEncoder::from_driver(&driver);
    let composited = solid_rgba(320, 320, [0, 0, 255, 255]);

    let frame = encoder.prepare(&composited).unwrap();

    let DisplayFrame::FileTransferPng(bytes) = frame else {
        panic!("liquidctl encoder should produce PNG file-transfer frames");
    };
    assert!(bytes.starts_with(b"\x89PNG\r\n\x1A\n"));
}

#[test]
fn native_driver_info() {
    let driver = native_driver();
    let info = driver.info();
    assert_eq!(info.name, "ID-Cooling FX360");
    assert_eq!(info.resolution.width, 240);
    assert_eq!(info.resolution.height, 240);
}

#[test]
fn liquidctl_driver_is_always_connected() {
    let driver = liquidctl_driver(0);
    assert!(driver.is_connected());
}

#[test]
fn native_driver_not_connected_initially() {
    let driver = native_driver();
    assert!(!driver.is_connected());
}

// -- Detection matching tests --

#[test]
fn match_known_kraken_z_vid_pid() {
    let def = match_liquidctl_device(0x1E71, 0x3008);
    assert!(def.is_some());
    assert_eq!(def.unwrap().name, "NZXT Kraken Z");
}

#[test]
fn match_known_kraken_2023_vid_pid() {
    let def = match_liquidctl_device(0x1E71, 0x300E);
    assert!(def.is_some());
    assert_eq!(def.unwrap().name, "NZXT Kraken 2023");
}

#[test]
fn match_known_msi_vid_pid() {
    let def = match_liquidctl_device(0x0DB0, 0xB130);
    assert!(def.is_some());
    assert_eq!(def.unwrap().name, "MSI MPG CoreLiquid K360");
}

#[test]
fn no_match_for_unknown_vid_pid() {
    assert!(match_liquidctl_device(0xDEAD, 0xBEEF).is_none());
}

#[test]
fn no_match_for_correct_vid_wrong_pid() {
    // NZXT vendor ID but wrong product ID
    assert!(match_liquidctl_device(0x1E71, 0x0000).is_none());
}

#[test]
fn all_registry_entries_are_matchable() {
    for def in device_registry() {
        let matched = match_liquidctl_device(def.vendor_id, def.product_id);
        assert!(
            matched.is_some(),
            "registry entry '{}' should be matchable",
            def.name
        );
        assert_eq!(matched.unwrap().name, def.name);
    }
}

// -- DisplayCapability equality --

#[test]
fn capability_equality() {
    assert_eq!(DisplayCapability::Streaming, DisplayCapability::Streaming);
    assert_eq!(
        DisplayCapability::FileTransfer,
        DisplayCapability::FileTransfer
    );
    assert_ne!(
        DisplayCapability::Streaming,
        DisplayCapability::FileTransfer
    );
}

// -- Device selection and connection state --

#[test]
fn native_device_is_preferred_over_liquidctl() {
    let devices = vec![(0x1E71, 0x3008), (FX360_VENDOR_ID, FX360_PRODUCT_ID)];
    assert!(matches!(select_device(&devices), Some(DetectedDevice::Native)));
}

#[test]
fn first_known_liquidctl_device_is_selected() {
    let devices = vec![(0xDEAD, 0xBEEF), (0x0DB0, 0xB130), (0x1E71, 0x3008)];
    match select_device(&devices) {
        Some(DetectedDevice::Liquidctl(def)) => assert_eq!(def.name, "MSI MPG CoreLiquid K360"),
        _ => panic!("the MSI cooler should be selected"),
    }
    assert!(select_device(&vec![(0xDEAD, 0xBEEF)]).is_none());
    assert!(select_device(&Vec::new()).is_none());
}

#[test]
fn native_connection_follows_attach_and_disconnect() {
    let mut fx: Fx360<u32> = Fx360::new();
    assert!(matches!(fx.connected_device(), Err(Error::NotConnected)));
    fx.attach(7);
    assert!(fx.is_connected());
    assert_eq!(fx.connected_device().ok(), Some(&7));
    assert_eq!(fx.disconnect(), Some(7));
    assert!(!fx.is_connected());
    assert_eq!(fx.info().rotation, Rotation::Deg180);
    assert_eq!(fx.info().target_fps, 20);
    assert_eq!(fx.info().keepalive_interval_secs, 8);
}

#[test]
fn fx360_is_matched_by_its_ids() {
    assert!(Fx360::<()>::matches_device(0x2000, 0x3000));
    assert!(!Fx360::<()>::matches_device(0x2000, 0x3001));
}

#[test]
fn streaming_frame_of_an_empty_canvas_is_an_image_error() {
    let driver = native_driver();
    let encoder = DisplayFrameEncoder::from_driver(&driver);
    let empty = RgbaFrame::from_raw(0, 0, Vec::new()).unwrap();
    assert!(matches!(encoder.prepare(&empty), Err(Error::Image(_))));
}

#[test]
fn an_empty_canvas_is_refused_by_the_png_encoder() {
    let encoder = DisplayFrameEncoder::from_driver(&liquidctl_driver(0));
    let empty = RgbaFrame::from_raw(0, 10, Vec::new()).unwrap();
    assert!(matches!(encoder.prepare(&empty), Err(Error::Image(_))));
}
