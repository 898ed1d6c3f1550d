//! The CRT/DRA wire protocol of the ID-Cooling LCD controllers.
//!
//! Every USB packet is exactly `PACKET_SIZE` bytes, zero-padded. A frame is a
//! 32-byte draw header followed by the JPEG bytes, cut into consecutive
//! packets; a keepalive is a single `CONNECT` packet.
use vstd::prelude::*;

verus! {

/// USB packet size. All packets are exactly this size, zero-padded.
pub const PACKET_SIZE: usize = 1024;

/// Header size for DRA (draw) commands.
pub const HEADER_SIZE: usize = 32;

/// JPEG data capacity in the first packet.
pub const JPEG_FIRST_CHUNK: usize = 992;

/// Constant flag byte at header offset 12 (always 0xB1 in captures).
pub const FLAG_BYTE: u8 = 0xB1;

/// HID report ID. The device uses a single report (ID 0), sent as the first
/// byte of every HID write.
pub const REPORT_ID: u8 = 0x00;

/// Protocol magic bytes `CRT\0\0`: every packet starts with them.
pub open spec fn magic() -> Seq<u8> {
    seq![0x43u8, 0x52u8, 0x54u8, 0x00u8, 0x00u8]
}

/// Draw command `DRA\0`.
pub open spec fn draw_command() -> Seq<u8> {
    seq![0x44u8, 0x52u8, 0x41u8, 0x00u8]
}

/// Keepalive command `CONNECT`.
pub open spec fn connect_command() -> Seq<u8> {
    seq![0x43u8, 0x4Fu8, 0x4Eu8, 0x4Eu8, 0x45u8, 0x43u8, 0x54u8]
}

/// The value carried by the 24-bit size field of a draw header: the frame
/// length (JPEG plus header), reduced to its low 24 bits.
pub open spec fn size_field_value(jpeg_size: nat) -> nat {
    ((jpeg_size + HEADER_SIZE) % 0x1000000) as nat
}

/// The 24-bit big-endian decoding of three bytes.
pub open spec fn be_u24(b0: u8, b1: u8, b2: u8) -> nat {
    (b0 as nat) * 0x10000 + (b1 as nat) * 0x100 + (b2 as nat)
}

/// Byte `i` of the draw header announcing a JPEG of `jpeg_size` bytes.
pub open spec fn draw_header_byte(jpeg_size: nat, i: int) -> u8 {
    let total = size_field_value(jpeg_size);
    if 0 <= i < 5 {
        magic()[i]
    } else if 5 <= i < 9 {
        draw_command()[i - 5]
    } else if i == 9 {
        (total / 0x10000) as u8
    } else if i == 10 {
        ((total / 0x100) % 0x100) as u8
    } else if i == 11 {
        (total % 0x100) as u8
    } else if i == 12 {
        FLAG_BYTE
    } else {
        0u8
    }
}

/// The 32-byte draw header for a JPEG of `jpeg_size` bytes.
pub open spec fn draw_header(jpeg_size: nat) -> Seq<u8> {
    Seq::new(HEADER_SIZE as nat, |i: int| draw_header_byte(jpeg_size, i))
}

/// Byte `i` of the keepalive packet.
pub open spec fn connect_packet_byte(i: int) -> u8 {
    if 0 <= i < 5 {
        magic()[i]
    } else if 5 <= i < 12 {
        connect_command()[i - 5]
    } else {
        0u8
    }
}

/// The keepalive packet.
pub open spec fn connect_packet() -> Seq<u8> {
    Seq::new(PACKET_SIZE as nat, |i: int| connect_packet_byte(i))
}

/// Number of packets a frame of `jpeg_size` JPEG bytes occupies: the first
/// one plus enough continuation packets for what does not fit in it.
pub open spec fn frame_packet_count(jpeg_size: nat) -> nat {
    if jpeg_size <= JPEG_FIRST_CHUNK {
        1
    } else {
        (1 + (jpeg_size - JPEG_FIRST_CHUNK + PACKET_SIZE - 1) / (PACKET_SIZE as int)) as nat
    }
}

/// Byte `i` of the frame stream: the draw header, then the JPEG bytes, then
/// zero padding.
pub open spec fn frame_stream_byte(jpeg: Seq<u8>, i: int) -> u8 {
    if i < HEADER_SIZE {
        draw_header_byte(jpeg.len(), i)
    } else if i - HEADER_SIZE < jpeg.len() {
        jpeg[i - HEADER_SIZE]
    } else {
        0u8
    }
}

/// The whole frame stream, as long as the packets that carry it.
pub open spec fn frame_stream(jpeg: Seq<u8>) -> Seq<u8> {
    Seq::new(
        frame_packet_count(jpeg.len()) * (PACKET_SIZE as nat),
        |i: int| frame_stream_byte(jpeg, i),
    )
}

/// Packet `k` of the frame: the `k`-th `PACKET_SIZE` slice of the stream.
pub open spec fn frame_packet(jpeg: Seq<u8>, k: int) -> Seq<u8> {
    Seq::new(PACKET_SIZE as nat, |j: int| frame_stream_byte(jpeg, k * (PACKET_SIZE as int) + j))
}

/// Concatenation of a sequence of packets.
pub open spec fn concat_packets(packets: Seq<Seq<u8>>) -> Seq<u8>
    decreases packets.len(),
{
    if packets.len() == 0 {
        Seq::empty()
    } else {
        concat_packets(packets.drop_last()) + packets.last()
    }
}

/// Build the 32-byte DRA header for an image frame.
///
/// The frame size field (bytes 9-11) is a big-endian uint24 encoding the low
/// 24 bits of `jpeg_size + HEADER_SIZE`.
pub fn build_draw_header(jpeg_size: usize) -> (header: [u8; HEADER_SIZE])
    requires
        jpeg_size + HEADER_SIZE <= usize::MAX,
    ensures
        header@ == draw_header(jpeg_size as nat),
{
    let total: usize = (jpeg_size + HEADER_SIZE) % 0x1000000;
    let mut header = [0u8; 32];
    header[0] = 0x43;
    header[1] = 0x52;
    header[2] = 0x54;
    header[5] = 0x44;
    header[6] = 0x52;
    header[7] = 0x41;
    header[9] = (total / 0x10000) as u8;
    header[10] = ((total / 0x100) % 0x100) as u8;
    header[11] = (total % 0x100) as u8;
    header[12] = FLAG_BYTE;
    assert(header@ =~= draw_header(jpeg_size as nat));
    header
}

/// Build a CONNECT keepalive packet (1024 bytes, zero-padded).
pub fn build_connect_packet() -> (packet: [u8; PACKET_SIZE])
    ensures
        packet@ == connect_packet(),
{
    let mut packet = [0u8; 1024];
    packet[0] = 0x43;
    packet[1] = 0x52;
    packet[2] = 0x54;
    packet[5] = 0x43;
    packet[6] = 0x4F;
    packet[7] = 0x4E;
    packet[8] = 0x4E;
    packet[9] = 0x45;
    packet[10] = 0x43;
    packet[11] = 0x54;
    assert(packet@ =~= connect_packet());
    packet
}

/// The HID report that carries `packet`: the report ID, then the packet.
pub open spec fn hid_report_bytes(packet: Seq<u8>) -> Seq<u8> {
    seq![REPORT_ID] + packet
}

/// The HID write buffer for a protocol packet: hidapi takes the report ID as
/// the first byte of every write and strips it before the USB transfer.
pub fn hid_report(packet: &[u8; PACKET_SIZE]) -> (report: [u8; 1025])
    ensures
        report@ == hid_report_bytes(packet@),
{
    let mut report = [0u8; 1025];
    report[0] = REPORT_ID;
    let mut j: usize = 0;
    while j < PACKET_SIZE
        invariant
            j <= PACKET_SIZE,
            report@.len() == 1025,
            report@[0] == REPORT_ID,
            forall|i: int| 0 <= i < j ==> report@[i + 1] == packet@[i],
        decreases PACKET_SIZE - j,
    {
        report[j + 1] = packet[j];
        j = j + 1;
    }
    assert(report@ =~= hid_report_bytes(packet@));
    report
}

/// Copy `len` JPEG bytes starting at `from` into a fresh zeroed packet at
/// position `at`.
fn packet_with_chunk(jpeg_data: &[u8], from: usize, at: usize, len: usize) -> (pkt: [u8;
    PACKET_SIZE])
    requires
        at + len <= PACKET_SIZE,
        from + len <= jpeg_data@.len(),
    ensures
        forall|j: int| 0 <= j < at ==> pkt@[j] == 0u8,
        forall|j: int| at <= j < at + len ==> pkt@[j] == jpeg_data@[from + j - at],
        forall|j: int| at + len <= j < PACKET_SIZE ==> pkt@[j] == 0u8,
{
    let mut pkt = [0u8; 1024];
    let mut j: usize = 0;
    while j < len
        invariant
            j <= len,
            at + len <= PACKET_SIZE,
            from + len <= jpeg_data@.len(),
            jpeg_data@.len() == jpeg_data.len(),
            forall|i: int| 0 <= i < at ==> pkt@[i] == 0u8,
            forall|i: int| at <= i < at + j ==> pkt@[i] == jpeg_data@[from + i - at],
            forall|i: int| at + j <= i < PACKET_SIZE ==> pkt@[i] == 0u8,
        decreases len - j,
    {
        pkt[at + j] = jpeg_data[from + j];
        j = j + 1;
    }
    pkt
}

/// Split JPEG data into protocol packets ready for USB transfer.
///
/// The first packet holds the 32-byte DRA header and up to 992 bytes of JPEG
/// data; each continuation packet holds up to 1024 further bytes; the final
/// packet is zero-padded.
pub fn build_frame_packets(jpeg_data: &[u8]) -> (packets: Vec<[u8; PACKET_SIZE]>)
    requires
        jpeg_data@.len() + PACKET_SIZE <= usize::MAX,
    ensures
        packets@.len() == frame_packet_count(jpeg_data@.len()),
        forall|k: int| 0 <= k < packets@.len() ==> #[trigger] packets@[k]@ == frame_packet(jpeg_data@, k),
{
    let n = jpeg_data.len();
    let header = build_draw_header(n);
    let ghost jpeg = jpeg_data@;
    let first_len: usize = if n < JPEG_FIRST_CHUNK { n } else { JPEG_FIRST_CHUNK };
    let mut first = packet_with_chunk(jpeg_data, 0, HEADER_SIZE, first_len);
    let mut i: usize = 0;
    while i < HEADER_SIZE
        invariant
            i <= HEADER_SIZE,
            header@ == draw_header(n as nat),
            first_len <= n,
            first_len <= JPEG_FIRST_CHUNK,
            n == jpeg_data@.len(),
            forall|j: int| 0 <= j < i ==> first@[j] == draw_header_byte(n as nat, j),
            forall|j: int| i <= j < HEADER_SIZE ==> first@[j] == 0u8,
            forall|j: int| HEADER_SIZE <= j < HEADER_SIZE + first_len ==> #[trigger] first@[j] == jpeg_data@[j - HEADER_SIZE],
            forall|j: int| HEADER_SIZE + first_len <= j < PACKET_SIZE ==> first@[j] == 0u8,
        decreases HEADER_SIZE - i,
    {
        let ghost before = first@;
        first[i] = header[i];
        assert(first@ == before.update(i as int, header@[i as int]));
        i = i + 1;
    }
    assert(first@ =~= frame_packet(jpeg, 0));
    let mut packets: Vec<[u8; PACKET_SIZE]> = Vec::new();
    packets.push(first);
    let mut offset: usize = JPEG_FIRST_CHUNK;
    while offset < n
        invariant
            n == jpeg_data@.len(),
            jpeg == jpeg_data@,
            n + PACKET_SIZE <= usize::MAX,
            packets@.len() >= 1,
            offset == JPEG_FIRST_CHUNK + (packets@.len() - 1) * PACKET_SIZE,
            packets@.len() >= 2 ==> JPEG_FIRST_CHUNK + (packets@.len() - 2) * PACKET_SIZE < n,
            forall|k: int| 0 <= k < packets@.len() ==> #[trigger] packets@[k]@ == frame_packet(jpeg, k),
        decreases n + PACKET_SIZE - offset,
    {
        let remaining = n - offset;
        let chunk_len: usize = if remaining < PACKET_SIZE { remaining } else { PACKET_SIZE };
        let pkt = packet_with_chunk(jpeg_data, offset, 0, chunk_len);
        let ghost k = packets@.len() as int;
        assert(pkt@ =~= frame_packet(jpeg, k));
        packets.push(pkt);
        offset = offset + PACKET_SIZE;
    }
    proof {
        let l = packets@.len() as int;
        if n > JPEG_FIRST_CHUNK {
            assert(l >= 2);
            assert((n - JPEG_FIRST_CHUNK + PACKET_SIZE - 1) / (PACKET_SIZE as int) == l - 1);
        }
    }
    packets
}

} // verus!

verus! {

/// The size field of a draw header decodes, as a 24-bit big-endian number,
/// to the frame length (JPEG bytes plus header) modulo 2^24; for frames
/// shorter than 2^24 bytes that is the frame length itself.
pub proof fn lemma_draw_header_size_field(jpeg_size: nat)
    ensures
        be_u24(
            draw_header(jpeg_size)[9],
            draw_header(jpeg_size)[10],
            draw_header(jpeg_size)[11],
        ) == size_field_value(jpeg_size),
        jpeg_size + HEADER_SIZE < 0x1000000 ==> size_field_value(jpeg_size) == jpeg_size
            + HEADER_SIZE,
{
    let t = size_field_value(jpeg_size);
    assert(t < 0x1000000);
    assert((t / 0x10000) * 0x10000 + ((t / 0x100) % 0x100) * 0x100 + t % 0x100 == t)
        by (nonlinear_arith)
        requires
            0 <= t < 0x1000000,
    ;
}

proof fn lemma_concat_prefix(jpeg: Seq<u8>, packets: Seq<Seq<u8>>, m: int)
    requires
        0 <= m <= packets.len(),
        forall|k: int| 0 <= k < packets.len() ==> #[trigger] packets[k] == frame_packet(jpeg, k),
    ensures
        concat_packets(packets.take(m)) =~= Seq::new(
            (m * PACKET_SIZE) as nat,
            |i: int| frame_stream_byte(jpeg, i),
        ),
    decreases m,
{
    if m > 0 {
        lemma_concat_prefix(jpeg, packets, m - 1);
        assert(packets.take(m).drop_last() =~= packets.take(m - 1));
        assert(packets.take(m).last() == packets[m - 1]);
    }
}

/// Concatenating the packets of a frame gives back the frame stream: the
/// draw header, then every JPEG byte in order, then zeros up to the end of
/// the last packet.
pub proof fn lemma_frame_packets_reassemble(jpeg: Seq<u8>, packets: Seq<Seq<u8>>)
    requires
        packets.len() == frame_packet_count(jpeg.len()),
        forall|k: int| 0 <= k < packets.len() ==> #[trigger] packets[k] == frame_packet(jpeg, k),
    ensures
        concat_packets(packets) == frame_stream(jpeg),
        frame_stream(jpeg).len() >= HEADER_SIZE + jpeg.len(),
        frame_stream(jpeg).len() < HEADER_SIZE + jpeg.len() + PACKET_SIZE,
        frame_stream(jpeg).take(HEADER_SIZE as int) == draw_header(jpeg.len()),
        frame_stream(jpeg).subrange(HEADER_SIZE as int, HEADER_SIZE + jpeg.len()) == jpeg,
        forall|i: int|
            HEADER_SIZE + jpeg.len() <= i < frame_stream(jpeg).len() ==> #[trigger] frame_stream(
                jpeg,
            )[i] == 0u8,
{
    let n = jpeg.len();
    let c = frame_packet_count(n);
    lemma_concat_prefix(jpeg, packets, packets.len() as int);
    assert(packets.take(packets.len() as int) =~= packets);
    if n > JPEG_FIRST_CHUNK {
        let x = n - JPEG_FIRST_CHUNK;
        assert(((x + 1023) / 1024) * 1024 >= x && ((x + 1023) / 1024) * 1024 < x + 1024)
            by (nonlinear_arith)
            requires
                x > 0,
        ;
    }
    assert(c * PACKET_SIZE >= HEADER_SIZE + n);
    assert(frame_stream(jpeg).take(HEADER_SIZE as int) =~= draw_header(jpeg.len()));
    assert(frame_stream(jpeg).subrange(HEADER_SIZE as int, HEADER_SIZE + jpeg.len()) =~= jpeg);
}

} // verus!
