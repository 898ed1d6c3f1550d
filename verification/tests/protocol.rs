use coolcooler::protocol::{
    build_connect_packet, build_draw_header, build_frame_packets, hid_report, HEADER_SIZE,
    JPEG_FIRST_CHUNK, PACKET_SIZE, REPORT_ID,
};

#[test]
fn draw_header_magic_and_command() {
    let header = build_draw_header(1000);
    assert_eq!(&header[0..5], b"CRT\x00\x00");
    assert_eq!(&header[5..9], b"DRA\x00");
    assert_eq!(header[12], 0xB1);
}

#[test]
fn draw_header_size_field() {
    // jpeg_size=1000 → total=1032=0x000408
    let header = build_draw_header(1000);
    let size = u32::from_be_bytes([0, header[9], header[10], header[11]]);
    assert_eq!(size, 1032);
}

#[test]
fn draw_header_size_field_large() {
    // jpeg_size=50000 → total=50032=0x00C380
    let header = build_draw_header(50000);
    let size = u32::from_be_bytes([0, header[9], header[10], header[11]]);
    assert_eq!(size, 50032);
}

#[test]
fn connect_packet_layout() {
    let pkt = build_connect_packet();
    assert_eq!(pkt.len(), PACKET_SIZE);
    assert_eq!(&pkt[0..5], b"CRT\x00\x00");
    assert_eq!(&pkt[5..12], b"CONNECT");
    assert!(pkt[12..].iter().all(|&b| b == 0));
}

#[test]
fn frame_packets_small_jpeg() {
    // JPEG smaller than 992 bytes → single packet
    let jpeg = vec![0xFFu8; 500];
    let packets = build_frame_packets(&jpeg);
    assert_eq!(packets.len(), 1);
    assert_eq!(&packets[0][0..5], b"CRT\x00\x00");
    assert_eq!(packets[0][32], 0xFF);
    // Remaining bytes after JPEG data should be zero
    assert!(packets[0][32 + 500..].iter().all(|&b| b == 0));
}

#[test]
fn frame_packets_exact_first_chunk() {
    // JPEG exactly 992 bytes → single packet
    let jpeg = vec![0x42u8; JPEG_FIRST_CHUNK];
    let packets = build_frame_packets(&jpeg);
    assert_eq!(packets.len(), 1);
}

#[test]
fn frame_packets_one_byte_over() {
    // JPEG 993 bytes → first packet + 1 continuation
    let jpeg = vec![0x42u8; JPEG_FIRST_CHUNK + 1];
    let packets = build_frame_packets(&jpeg);
    assert_eq!(packets.len(), 2);
    assert_eq!(packets[1][0], 0x42);
    assert!(packets[1][1..].iter().all(|&b| b == 0));
}

#[test]
fn frame_packets_large_jpeg() {
    // 2500 bytes → first (992) + continuation (1024) + continuation (484)
    let jpeg: Vec<u8> = (0..2500).map(|i| (i % 256) as u8).collect();
    let packets = build_frame_packets(&jpeg);
    assert_eq!(packets.len(), 3);

    // Verify first packet header
    assert_eq!(&packets[0][0..5], b"CRT\x00\x00");

    // Verify JPEG data continuity
    assert_eq!(packets[0][32], 0); // first byte of JPEG (0 % 256)
    assert_eq!(packets[1][0], jpeg[992]); // continuation starts where first left off
    assert_eq!(packets[2][0], jpeg[992 + 1024]); // second continuation
}

#[test]
fn frame_packets_empty_jpeg() {
    let packets = build_frame_packets(&[]);
    assert_eq!(packets.len(), 1);
    // Header present, no JPEG data
    assert_eq!(&packets[0][0..5], b"CRT\x00\x00");
    let size = u32::from_be_bytes([0, packets[0][9], packets[0][10], packets[0][11]]);
    assert_eq!(size, HEADER_SIZE as u32);
}

#[test]
fn frame_packets_reassemble_to_header_and_jpeg() {
    let jpeg: Vec<u8> = (0..3000u32).map(|i| (i * 7 % 251) as u8).collect();
    let packets = build_frame_packets(&jpeg);
    let stream: Vec<u8> = packets.iter().flat_map(|p| p.iter().copied()).collect();
    let header = build_draw_header(jpeg.len());
    assert_eq!(&stream[..HEADER_SIZE], &header[..]);
    assert_eq!(&stream[HEADER_SIZE..HEADER_SIZE + jpeg.len()], &jpeg[..]);
    assert!(stream[HEADER_SIZE + jpeg.len()..].iter().all(|&b| b == 0));
    assert_eq!(stream.len(), packets.len() * PACKET_SIZE);
}

#[test]
fn draw_header_flag_and_zero_padding() {
    let header = build_draw_header(0);
    assert_eq!(header[12], 0xB1);
    assert!(header[13..].iter().all(|&b| b == 0));
    let size = u32::from_be_bytes([0, header[9], header[10], header[11]]);
    assert_eq!(size, 32);
}

#[test]
fn hid_report_prefixes_the_report_id() {
    let pkt = build_connect_packet();
    let report = hid_report(&pkt);
    assert_eq!(report.len(), PACKET_SIZE + 1);
    assert_eq!(report[0], REPORT_ID);
    assert_eq!(&report[1..], &pkt[..]);
    assert_eq!(&report[1..8], b"CRT\x00\x00CO");
}
