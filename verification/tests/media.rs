use coolcooler::frame::{crop_and_resize, encode_resized, prepare, rotate, RgbFrame, RgbaFrame};
use coolcooler::tray::rgba_to_argb;
use coolcooler::types::{DeviceInfo, Error, Resolution, Rotation};
use coolcooler::widget_state::{CircleGauge, FilledCircle, HorizontalLine, VerticalLine};

fn numbered(width: u32, height: u32) -> RgbFrame {
    // pixel (x, y) = [x, y, 7]
    let mut pixels = Vec::new();
    for y in 0..height {
        for x in 0..width {
            pixels.extend_from_slice(&[x as u8, y as u8, 7]);
        }
    }
    RgbFrame::from_raw(width, height, pixels).unwrap()
}

fn px(frame: &RgbFrame, x: u32, y: u32) -> [u8; 3] {
    let i = ((y * frame.width() + x) * 3) as usize;
    let p = frame.pixels();
    [p[i], p[i + 1], p[i + 2]]
}

#[test]
fn raw_frames_need_exact_buffers() {
    assert!(RgbFrame::from_raw(2, 2, vec![0; 12]).is_some());
    assert!(RgbFrame::from_raw(2, 2, vec![0; 13]).is_none());
    assert!(RgbaFrame::from_raw(2, 2, vec![0; 15]).is_none());
    let solid = RgbFrame::from_pixel(3, 2, [9, 8, 7]);
    assert_eq!(solid.pixels(), &vec![9, 8, 7, 9, 8, 7, 9, 8, 7, 9, 8, 7, 9, 8, 7, 9, 8, 7]);
}

#[test]
fn rotations_turn_clockwise() {
    let img = numbered(3, 2);
    let r90 = rotate(&img, Rotation::Deg90);
    assert_eq!((r90.width(), r90.height()), (2, 3));
    // source (x, y) lands at (h - 1 - y, x)
    assert_eq!(px(&r90, 1, 0), [0, 0, 7]);
    assert_eq!(px(&r90, 0, 2), [2, 1, 7]);
    let r180 = rotate(&img, Rotation::Deg180);
    assert_eq!(px(&r180, 0, 0), [2, 1, 7]);
    let r270 = rotate(&img, Rotation::Deg270);
    assert_eq!((r270.width(), r270.height()), (2, 3));
    assert_eq!(px(&r270, 0, 2), [0, 0, 7]);
    let r0 = rotate(&img, Rotation::Deg0);
    assert_eq!(r0.pixels(), img.pixels());
}

#[test]
fn crop_is_centred_and_resize_hits_the_target() {
    let img = numbered(6, 4);
    let cropped = crop_and_resize(img, Some((4, 4)), Resolution::new(4, 4));
    assert_eq!((cropped.width(), cropped.height()), (4, 4));
    assert_eq!(px(&cropped, 0, 0), [1, 0, 7]);
    assert_eq!(px(&cropped, 3, 3), [4, 3, 7]);
    let resized = crop_and_resize(numbered(8, 8), None, Resolution::new(3, 5));
    assert_eq!((resized.width(), resized.height()), (3, 5));
    assert_eq!(resized.pixels().len(), 45);
}

#[test]
fn jpeg_encoding_refuses_empty_images() {
    let img = RgbFrame::from_pixel(16, 8, [200, 10, 10]);
    let jpeg = encode_resized(&img, Rotation::Deg90, 85).unwrap();
    assert_eq!(&jpeg[..2], &[0xFF, 0xD8]);
    let empty = RgbFrame::from_raw(0, 5, Vec::new()).unwrap();
    assert!(matches!(encode_resized(&empty, Rotation::Deg0, 85), Err(Error::Image(_))));
}

#[test]
fn prepare_fits_the_device_then_encodes() {
    let info = DeviceInfo {
        name: "Test".to_string(),
        resolution: Resolution::new(24, 24),
        rotation: Rotation::Deg180,
        target_fps: 20,
        keepalive_interval_secs: 8,
    };
    let jpeg = prepare(numbered(48, 24), Some((24, 24)), &info, 90).unwrap();
    assert!(jpeg.starts_with(&[0xFF, 0xD8]));
}

fn rgba_px(frame: &RgbaFrame, x: u32, y: u32) -> [u8; 4] {
    let i = ((y * frame.width() + x) * 4) as usize;
    let p = frame.pixels();
    [p[i], p[i + 1], p[i + 2], p[i + 3]]
}

#[test]
fn horizontal_line_covers_the_two_middle_rows() {
    let line = HorizontalLine { color: [1, 2, 3, 4] };
    let img = line.render(5, 4);
    for x in 0..5 {
        assert_eq!(rgba_px(&img, x, 0), [0, 0, 0, 0]);
        assert_eq!(rgba_px(&img, x, 1), [1, 2, 3, 4]);
        assert_eq!(rgba_px(&img, x, 2), [1, 2, 3, 4]);
        assert_eq!(rgba_px(&img, x, 3), [0, 0, 0, 0]);
    }
    let thin = line.render(3, 1);
    assert_eq!(thin.pixels(), &vec![1, 2, 3, 4, 1, 2, 3, 4, 1, 2, 3, 4]);
}

#[test]
fn vertical_line_covers_the_two_middle_columns() {
    let line = VerticalLine { color: [9, 9, 9, 9] };
    let img = line.render(4, 2);
    for y in 0..2 {
        assert_eq!(rgba_px(&img, 0, y), [0, 0, 0, 0]);
        assert_eq!(rgba_px(&img, 1, y), [9, 9, 9, 9]);
        assert_eq!(rgba_px(&img, 2, y), [9, 9, 9, 9]);
        assert_eq!(rgba_px(&img, 3, y), [0, 0, 0, 0]);
    }
    assert_eq!(line.render(0, 0).pixels().len(), 0);
}

#[test]
fn circles_are_drawn_inside_a_transparent_square() {
    let gauge = CircleGauge { color: [0, 180, 255, 220], thickness: 2 };
    let img = gauge.render(20, 20);
    assert_eq!(img.pixels().len(), 20 * 20 * 4);
    assert_eq!(rgba_px(&img, 0, 0), [0, 0, 0, 0]);
    assert_eq!(rgba_px(&img, 10, 1), [0, 180, 255, 220]);
    assert_eq!(rgba_px(&img, 10, 10), [0, 0, 0, 0]);
    let dot = FilledCircle { color: [5, 5, 5, 5] };
    let img = dot.render(20, 20);
    assert_eq!(rgba_px(&img, 10, 10), [5, 5, 5, 5]);
    assert_eq!(rgba_px(&img, 0, 0), [0, 0, 0, 0]);
    let tiny = dot.render(3, 3);
    assert!(tiny.pixels().iter().all(|&b| b == 0));
}

#[test]
fn tray_icon_bytes_are_argb() {
    let icon = RgbaFrame::from_raw(2, 1, vec![1, 2, 3, 4, 5, 6, 7, 8]).unwrap();
    assert_eq!(rgba_to_argb(&icon), vec![4, 1, 2, 3, 8, 5, 6, 7]);
}
