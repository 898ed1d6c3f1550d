//! Pixel rendering of the line and circle widgets.
use vstd::prelude::*;

use crate::frame::{rgba_len, RgbaFrame};
use crate::widget_state::{CircleGauge, FilledCircle, HorizontalLine, VerticalLine};

verus! {

broadcast use Seq::lemma_flatten_push;

/// `n` pixels of colour `px`, as bytes.
pub open spec fn repeat_px(px: [u8; 4], n: nat) -> Seq<u8> {
    Seq::new(n * 4, |k: int| px@[k % 4])
}

/// The fully transparent pixel.
pub open spec fn clear_px() -> [u8; 4] {
    [0u8, 0u8, 0u8, 0u8]
}

/// Row `y` of a horizontal line `h` rows high lies on the line: the middle
/// row and, when there is one, the row above it.
pub open spec fn on_hline(h: u32, y: int) -> bool {
    let mid = h / 2;
    y == mid || (h > 1 && mid > 0 && y == mid - 1)
}

/// Column `x` of a vertical line `w` columns wide lies on the line: the
/// middle column and, when there is one, the column left of it.
pub open spec fn on_vline(w: u32, x: int) -> bool {
    let mid = w / 2;
    x == mid || (w > 1 && mid > 0 && x == mid - 1)
}

/// The pixels of a horizontal line widget of `w` x `h`: the rows on the
/// line in its colour, the others transparent.
pub open spec fn hline_pixels(w: u32, h: u32, color: [u8; 4]) -> Seq<u8> {
    Seq::new(
        h as nat,
        |y: int|
            if on_hline(h, y) {
                repeat_px(color, w as nat)
            } else {
                repeat_px(clear_px(), w as nat)
            },
    ).flatten()
}

/// One row of a vertical line widget `w` wide.
pub open spec fn vline_row(w: u32, color: [u8; 4]) -> Seq<u8> {
    Seq::new(
        (w * 4) as nat,
        |k: int|
            if on_vline(w, k / 4) {
                color@[k % 4]
            } else {
                0u8
            },
    )
}

/// The pixels of a vertical line widget of `w` x `h`: in every row, the
/// columns on the line in its colour, the others transparent.
pub open spec fn vline_pixels(w: u32, h: u32, color: [u8; 4]) -> Seq<u8> {
    Seq::new(h as nat, |y: int| vline_row(w, color)).flatten()
}

/// `n` pixels of one colour.
fn px_run(px: [u8; 4], n: u32) -> (row: Vec<u8>)
    requires
        n * 4 <= usize::MAX,
    ensures
        row@ == repeat_px(px, n as nat),
{
    let mut row: Vec<u8> = Vec::new();
    let mut x: u32 = 0;
    while x < n
        invariant
            x <= n,
            n * 4 <= usize::MAX,
            row@ =~= Seq::new((x * 4) as nat, |k: int| px@[k % 4]),
        decreases n - x,
    {
        row.push(px[0]);
        row.push(px[1]);
        row.push(px[2]);
        row.push(px[3]);
        x = x + 1;
    }
    row
}

/// Rows of `row_len` bytes each, stacked into an image buffer: the
/// flattened rows have `rows * row_len` bytes.
proof fn lemma_rows_len(rows: Seq<Seq<u8>>, row_len: nat)
    requires
        forall|y: int| 0 <= y < rows.len() ==> (#[trigger] rows[y]).len() == row_len,
    ensures
        rows.flatten().len() == rows.len() * row_len,
    decreases rows.len(),
{
    if rows.len() > 0 {
        lemma_rows_len(rows.drop_last(), row_len);
        assert(rows.drop_last().push(rows.last()) =~= rows);
        assert(rows.len() * row_len == (rows.len() - 1) * row_len + row_len) by (nonlinear_arith);
    }
}

/// Stack `h` rows built by `row_of` into an RGBA frame `w` wide.
fn frame_of_rows(w: u32, h: u32, rows: Vec<Vec<u8>>, all: Ghost<Seq<Seq<u8>>>) -> (f: RgbaFrame)
    requires
        rows@.len() == h,
        rgba_len(w, h) <= usize::MAX,
        forall|y: int| 0 <= y < h ==> (#[trigger] rows@[y])@ == all@[y],
        forall|y: int| 0 <= y < h ==> (#[trigger] all@[y]).len() == w * 4,
        all@.len() == h,
    ensures
        f.spec_width() == w,
        f.spec_height() == h,
        f.spec_pixels() == all@.flatten(),
{
    let mut pixels: Vec<u8> = Vec::new();
    let mut y: usize = 0;
    proof {
        lemma_rows_len(all@, (w * 4) as nat);
        assert(all@.take(0).flatten() =~= Seq::<u8>::empty());
        assert(w * h * 4 == h * (w * 4)) by (nonlinear_arith);
    }
    while y < rows.len()
        invariant
            y <= rows@.len(),
            rows@.len() == h,
            all@.len() == h,
            forall|k: int| 0 <= k < h ==> (#[trigger] rows@[k])@ == all@[k],
            forall|k: int| 0 <= k < h ==> (#[trigger] all@[k]).len() == w * 4,
            pixels@ == all@.take(y as int).flatten(),
            all@.flatten().len() == h * (w * 4),
            rgba_len(w, h) <= usize::MAX,
            h * (w * 4) <= usize::MAX,
        decreases rows@.len() - y,
    {
        proof {
            assert forall|k: int| 0 <= k < all@.take(y as int).len() implies (#[trigger] all@.take(
                y as int,
            )[k]).len() == w * 4 by {
                assert(all@.take(y as int)[k] == all@[k]);
            }
            lemma_rows_len(all@.take(y as int), (w * 4) as nat);
            assert(all@.take(y + 1) =~= all@.take(y as int).push(all@[y as int]));
            assert(pixels@.len() + w * 4 <= usize::MAX) by (nonlinear_arith)
                requires
                    pixels@.len() == y * (w * 4),
                    y < h,
                    h * (w * 4) <= usize::MAX,
            ;
        }
        let row = &rows[y];
        let mut i: usize = 0;
        let ghost start = pixels@;
        while i < row.len()
            invariant
                i <= row@.len(),
                row@.len() == w * 4,
                start.len() + w * 4 <= usize::MAX,
                pixels@ == start + row@.take(i as int),
            decreases row@.len() - i,
        {
            pixels.push(row[i]);
            i = i + 1;
            proof {
                assert(row@.take(i as int) =~= row@.take(i - 1).push(row@[i - 1]));
            }
        }
        proof {
            assert(row@.take(row@.len() as int) =~= row@);
        }
        y = y + 1;
    }
    proof {
        assert(all@.take(h as int) =~= all@);
        assert(rgba_len(w, h) == h * (w * 4)) by (nonlinear_arith);
    }
    match RgbaFrame::from_raw(w, h, pixels) {
        Some(f) => f,
        None => {
            proof {
                assert(false);
            }
            RgbaFrame::from_raw(0, 0, Vec::new()).unwrap()
        },
    }
}

impl HorizontalLine {
    /// Render the line at `width` x `height`: the middle row (and the row
    /// above it, when there is one) in the line's colour, the rest
    /// transparent.
    pub fn render(&self, width: u32, height: u32) -> (f: RgbaFrame)
        requires
            rgba_len(width, height) <= usize::MAX,
            height > 0 || width == 0,
        ensures
            f.spec_width() == width,
            f.spec_height() == height,
            f.spec_pixels() == hline_pixels(width, height, self.color),
    {
        let ghost all = Seq::new(
            height as nat,
            |y: int|
                if on_hline(height, y) {
                    repeat_px(self.color, width as nat)
                } else {
                    repeat_px(clear_px(), width as nat)
                },
        );
        proof {
            if width > 0 {
                assert(width * 4 <= width * height * 4) by (nonlinear_arith)
                    requires
                        height >= 1,
                ;
            }
        }
        let mid = height / 2;
        let mut rows: Vec<Vec<u8>> = Vec::new();
        let mut y: u32 = 0;
        while y < height
            invariant
                y <= height,
                mid == height / 2,
                width * 4 <= usize::MAX,
                rows@.len() == y,
                all.len() == height,
                all == Seq::new(
                    height as nat,
                    |y: int|
                        if on_hline(height, y) {
                            repeat_px(self.color, width as nat)
                        } else {
                            repeat_px(clear_px(), width as nat)
                        },
                ),
                forall|k: int| 0 <= k < y ==> (#[trigger] rows@[k])@ == all[k],
            decreases height - y,
        {
            let on_line = y == mid || (height > 1 && mid > 0 && y == mid - 1);
            let row = if on_line {
                px_run(self.color, width)
            } else {
                px_run([0u8, 0u8, 0u8, 0u8], width)
            };
            rows.push(row);
            y = y + 1;
        }
        frame_of_rows(width, height, rows, Ghost(all))
    }
}

impl VerticalLine {
    /// Render the line at `width` x `height`: the middle column (and the
    /// column left of it, when there is one) in the line's colour, the rest
    /// transparent.
    pub fn render(&self, width: u32, height: u32) -> (f: RgbaFrame)
        requires
            rgba_len(width, height) <= usize::MAX,
            width > 0 || height == 0,
        ensures
            f.spec_width() == width,
            f.spec_height() == height,
            f.spec_pixels() == vline_pixels(width, height, self.color),
    {
        let ghost all = Seq::new(height as nat, |y: int| vline_row(width, self.color));
        if height == 0 {
            let rows: Vec<Vec<u8>> = Vec::new();
            return frame_of_rows(width, height, rows, Ghost(all));
        }
        proof {
            assert(width * 4 <= width * height * 4) by (nonlinear_arith)
                requires
                    height >= 1,
            ;
        }
        let mid = width / 2;
        let mut row: Vec<u8> = Vec::new();
        let mut x: u32 = 0;
        while x < width
            invariant
                x <= width,
                mid == width / 2,
                width * 4 <= usize::MAX,
                row@ =~= vline_row(width, self.color).take(x * 4),
            decreases width - x,
        {
            let px = if x == mid || (width > 1 && mid > 0 && x == mid - 1) {
                self.color
            } else {
                [0u8, 0u8, 0u8, 0u8]
            };
            row.push(px[0]);
            row.push(px[1]);
            row.push(px[2]);
            row.push(px[3]);
            x = x + 1;
        }
        proof {
            assert(row@ =~= vline_row(width, self.color));
        }
        let mut rows: Vec<Vec<u8>> = Vec::new();
        let mut y: u32 = 0;
        while y < height
            invariant
                y <= height,
                rows@.len() == y,
                row@ == vline_row(width, self.color),
                all == Seq::new(height as nat, |y: int| vline_row(width, self.color)),
                forall|k: int| 0 <= k < y ==> (#[trigger] rows@[k])@ == all[k],
            decreases height - y,
        {
            rows.push(crate::display_loop::copy_bytes(&row));
            y = y + 1;
        }
        frame_of_rows(width, height, rows, Ghost(all))
    }
}

/// What `imageproc::drawing::draw_hollow_circle_mut` leaves of an RGBA
/// image after drawing a circle outline.
pub uninterp spec fn hollow_circle_drawn(
    width: u32,
    height: u32,
    rgba: Seq<u8>,
    cx: i32,
    cy: i32,
    radius: i32,
    color: [u8; 4],
) -> Seq<u8>;

/// What `imageproc::drawing::draw_filled_circle_mut` leaves of an RGBA
/// image after drawing a disc.
pub uninterp spec fn filled_circle_drawn(
    width: u32,
    height: u32,
    rgba: Seq<u8>,
    cx: i32,
    cy: i32,
    radius: i32,
    color: [u8; 4],
) -> Seq<u8>;

/// The reach of the circle drawing within which its integer arithmetic
/// cannot overflow.
pub open spec fn circle_args_ok(cx: i32, cy: i32, radius: i32) -> bool {
    &&& -0x4000_0000 <= cx <= 0x4000_0000
    &&& -0x4000_0000 <= cy <= 0x4000_0000
    &&& 0 < radius <= 0x3000_0000
}

/// `imageproc::drawing::draw_hollow_circle_mut` on an RGBA image.
///
/// Trusted: the source's midpoint algorithm only writes pixels inside the
/// image, so the buffer keeps its length; the pixels it leaves are a
/// function of the arguments, named `hollow_circle_drawn`.
#[verifier::external_body]
fn draw_hollow_circle(
    width: u32,
    height: u32,
    rgba: Vec<u8>,
    cx: i32,
    cy: i32,
    radius: i32,
    color: [u8; 4],
) -> (out: Vec<u8>)
    requires
        rgba@.len() == rgba_len(width, height),
        circle_args_ok(cx, cy, radius),
    ensures
        out@ == hollow_circle_drawn(width, height, rgba@, cx, cy, radius, color),
        out@.len() == rgba@.len(),
{
    let mut img = image::RgbaImage::from_raw(width, height, rgba).expect("exact buffer");
    imageproc::drawing::draw_hollow_circle_mut(&mut img, (cx, cy), radius, image::Rgba(color));
    img.into_raw()
}

/// `imageproc::drawing::draw_filled_circle_mut` on an RGBA image.
///
/// Trusted: the source draws clipped line segments, so the buffer keeps its
/// length; the pixels it leaves are a function of the arguments, named
/// `filled_circle_drawn`.
#[verifier::external_body]
fn draw_filled_circle(
    width: u32,
    height: u32,
    rgba: Vec<u8>,
    cx: i32,
    cy: i32,
    radius: i32,
    color: [u8; 4],
) -> (out: Vec<u8>)
    requires
        rgba@.len() == rgba_len(width, height),
        circle_args_ok(cx, cy, radius),
    ensures
        out@ == filled_circle_drawn(width, height, rgba@, cx, cy, radius, color),
        out@.len() == rgba@.len(),
{
    let mut img = image::RgbaImage::from_raw(width, height, rgba).expect("exact buffer");
    imageproc::drawing::draw_filled_circle_mut(&mut img, (cx, cy), radius, image::Rgba(color));
    img.into_raw()
}

/// Rust's `/ 2` on an `i32`: halving rounded toward zero.
pub open spec fn half_toward_zero(v: i32) -> i32 {
    if v >= 0 {
        (v / 2) as i32
    } else {
        (-((-v) / 2)) as i32
    }
}

/// The centre of a circle widget of `width` x `height`: half of each side
/// taken as an `i32`.
pub open spec fn circle_centre(width: u32, height: u32) -> (i32, i32) {
    (half_toward_zero(width as i32), half_toward_zero(height as i32))
}

/// The radius of a circle widget: half the shorter side, less one.
pub open spec fn circle_radius(width: u32, height: u32) -> int {
    (if width <= height {
        width
    } else {
        height
    }) / 2 - 1
}

/// A transparent image of `width` x `height`.
pub open spec fn transparent(width: u32, height: u32) -> Seq<u8> {
    repeat_px(clear_px(), (width * height) as nat)
}

/// The rings of a gauge: `t` concentric outlines inward from `radius`,
/// those whose radius is still positive.
pub open spec fn gauge_rings(
    width: u32,
    height: u32,
    base: Seq<u8>,
    color: [u8; 4],
    radius: int,
    t: int,
) -> Seq<u8>
    decreases t,
{
    if t <= 0 {
        base
    } else {
        let prev = gauge_rings(width, height, base, color, radius, t - 1);
        let r = radius - (t - 1);
        if r > 0 {
            hollow_circle_drawn(
                width,
                height,
                prev,
                circle_centre(width, height).0,
                circle_centre(width, height).1,
                r as i32,
                color,
            )
        } else {
            prev
        }
    }
}

/// The pixels of a circle gauge of `width` x `height`: transparent, with
/// `thickness` rings (the count taken as an `i32`) drawn when the radius
/// is positive.
pub open spec fn gauge_pixels(width: u32, height: u32, color: [u8; 4], thickness: u32) -> Seq<u8> {
    let base = transparent(width, height);
    if circle_radius(width, height) <= 0 {
        base
    } else {
        gauge_rings(width, height, base, color, circle_radius(width, height), (thickness as i32) as int)
    }
}

/// The pixels of a filled circle of `width` x `height`: transparent, with
/// the disc drawn when the radius is positive.
pub open spec fn disc_pixels(width: u32, height: u32, color: [u8; 4]) -> Seq<u8> {
    let base = transparent(width, height);
    if circle_radius(width, height) <= 0 {
        base
    } else {
        filled_circle_drawn(
            width,
            height,
            base,
            circle_centre(width, height).0,
            circle_centre(width, height).1,
            circle_radius(width, height) as i32,
            color,
        )
    }
}

/// The centre and radius of a circle widget, as the widget computes them.
fn circle_geometry(width: u32, height: u32) -> (g: (i32, i32, i32))
    requires
        rgba_len(width, height) <= isize::MAX,
    ensures
        (g.0, g.1) == circle_centre(width, height),
        g.2 == circle_radius(width, height),
        g.2 > 0 ==> circle_args_ok(g.0, g.1, g.2),
{
    let w = #[verifier::truncate] (width as i32);
    let h = #[verifier::truncate] (height as i32);
    let cx = w / 2;
    let cy = h / 2;
    let m = if width <= height {
        width
    } else {
        height
    };
    proof {
        assert(m * m <= width * height) by (nonlinear_arith)
            requires
                m <= width,
                m <= height,
        ;
        if m > 0x6000_0000 {
            assert(m * m > 0x6000_0000 * 0x6000_0000) by (nonlinear_arith)
                requires
                    m > 0x6000_0000,
            ;
        }
        assert(m <= 0x6000_0000);
    }
    let radius = (m as i32) / 2 - 1;
    (cx, cy, radius)
}

/// A transparent frame.
fn transparent_frame(width: u32, height: u32) -> (f: RgbaFrame)
    requires
        rgba_len(width, height) <= usize::MAX,
    ensures
        f.spec_width() == width,
        f.spec_height() == height,
        f.spec_pixels() == transparent(width, height),
{
    let f = RgbaFrame::from_pixel(width, height, [0u8, 0u8, 0u8, 0u8]);
    assert(f.spec_pixels() =~= transparent(width, height));
    f
}

impl CircleGauge {
    /// Render the gauge at `width` x `height`: `thickness` concentric
    /// outlines inward from half the shorter side less one, centred, on a
    /// transparent image.
    pub fn render(&self, width: u32, height: u32) -> (f: RgbaFrame)
        requires
            rgba_len(width, height) <= isize::MAX,
        ensures
            f.spec_width() == width,
            f.spec_height() == height,
            f.spec_pixels() == gauge_pixels(width, height, self.color, self.thickness),
    {
        let img = transparent_frame(width, height);
        let (cx, cy, radius) = circle_geometry(width, height);
        if radius <= 0 {
            return img;
        }
        let mut pixels = img.into_raw();
        let thickness = #[verifier::truncate] (self.thickness as i32);
        let ghost base = transparent(width, height);
        let mut t: i32 = 0;
        while t < thickness
            invariant
                0 <= t,
                thickness >= 0 ==> t <= thickness,
                thickness < 0 ==> t == 0,
                radius > 0,
                circle_args_ok(cx, cy, radius),
                (cx, cy) == circle_centre(width, height),
                radius == circle_radius(width, height),
                pixels@.len() == rgba_len(width, height),
                pixels@ == gauge_rings(width, height, base, self.color, radius as int, t as int),
            decreases thickness - t,
        {
            let r = radius - t;
            if r > 0 {
                pixels = draw_hollow_circle(width, height, pixels, cx, cy, r, self.color);
            }
            t = t + 1;
        }
        proof {
            assert(thickness < 0 ==> t == 0);
            assert(thickness >= 0 ==> t == thickness);
            assert(gauge_rings(width, height, base, self.color, radius as int, thickness as int) == pixels@);
        }
        match RgbaFrame::from_raw(width, height, pixels) {
            Some(f) => f,
            None => {
                proof {
                    assert(false);
                }
                transparent_frame(0, 0)
            },
        }
    }
}

impl FilledCircle {
    /// Render the dot at `width` x `height`: a disc of half the shorter side
    /// less one, centred, on a transparent image.
    pub fn render(&self, width: u32, height: u32) -> (f: RgbaFrame)
        requires
            rgba_len(width, height) <= isize::MAX,
        ensures
            f.spec_width() == width,
            f.spec_height() == height,
            f.spec_pixels() == disc_pixels(width, height, self.color),
    {
        let img = transparent_frame(width, height);
        let (cx, cy, radius) = circle_geometry(width, height);
        if radius <= 0 {
            return img;
        }
        let pixels = draw_filled_circle(width, height, img.into_raw(), cx, cy, radius, self.color);
        match RgbaFrame::from_raw(width, height, pixels) {
            Some(f) => f,
            None => {
                proof {
                    assert(false);
                }
                transparent_frame(0, 0)
            },
        }
    }
}

} // verus!
