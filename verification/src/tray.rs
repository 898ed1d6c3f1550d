//! The tray icon: the events it sends and the byte order of its pixels.
use vstd::prelude::*;

use crate::frame::RgbaFrame;

verus! {

/// Messages sent from the tray icon to the app.
#[derive(Debug, Clone, Copy, PartialEq, Eq, Structural)]
pub enum TrayEvent {
    ShowWindow,
}

/// The tray icon's pixel bytes: each RGBA pixel as ARGB, the order of the
/// desktop's icon protocol.
pub open spec fn argb_of(rgba: Seq<u8>) -> Seq<u8> {
    Seq::new(
        rgba.len(),
        |k: int|
            if k % 4 == 0 {
                rgba[k + 3]
            } else {
                rgba[k - 1]
            },
    )
}

/// Reorder an RGBA image's bytes to ARGB for the tray icon.
pub fn rgba_to_argb(icon: &RgbaFrame) -> (argb: Vec<u8>)
    ensures
        argb@ == argb_of(icon.spec_pixels()),
{
    let px = icon.pixels();
    let n = px.len();
    assert(n % 4 == 0) by (nonlinear_arith)
        requires
            n == icon.spec_width() * icon.spec_height() * 4,
    ;
    let mut out: Vec<u8> = Vec::new();
    let mut i: usize = 0;
    while i < n
        invariant
            i <= n,
            n == px@.len(),
            n % 4 == 0,
            i % 4 == 0,
            out@ =~= argb_of(px@).take(i as int),
        decreases n - i,
    {
        out.push(px[i + 3]);
        out.push(px[i]);
        out.push(px[i + 1]);
        out.push(px[i + 2]);
        i = i + 4;
    }
    assert(argb_of(px@).take(n as int) =~= argb_of(px@));
    out
}

} // verus!
