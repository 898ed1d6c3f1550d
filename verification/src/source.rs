//! The background source of the canvas: the loaded image or GIF frames, the
//! file they came from, and the animation position.
//!
//! Frames are generic: the host keeps its decoded image in `I` and hands
//! over its dimensions and display duration. Time is the host's monotonic
//! clock in milliseconds.
use vstd::prelude::*;

use crate::frame::RgbaFrame;
use crate::names::{chars_equal, lowercase, to_lowercase};
use crate::text::{concat2, concat3, decimal, decimal_exec, str_chars, string_from_chars};

verus! {

/// The display duration of a still image: it never advances.
pub const STILL_FRAME_MS: u64 = 0xffff_ffff_ffff_ffff;

/// The shortest delay a GIF frame is shown for, in milliseconds.
pub const MIN_GIF_FRAME_MS: u64 = 20;

/// The delay used for a GIF frame whose delay has a zero denominator.
pub const DEFAULT_GIF_FRAME_MS: u64 = 100;

/// The last component of a path, as `std::path::Path::file_name` finds it
/// (`None` for a path ending in `..` or for a root).
pub uninterp spec fn path_file_name(path: Seq<char>) -> Option<Seq<char>>;

/// `Path::file_name` on a path given as a string.
///
/// Trusted: the result is a function of the path's characters, named
/// `path_file_name`; a component of a UTF-8 path converts back to a string
/// without loss.
#[verifier::external_body]
fn file_name_of(path: &str) -> (name: Option<String>)
    ensures
        match name {
            Some(n) => path_file_name(path@) == Some(n@),
            None => path_file_name(path@) is None,
        },
{
    match std::path::Path::new(path).file_name() {
        Some(n) => Some(n.to_string_lossy().into_owned()),
        None => None,
    }
}

/// The file name shown for a source path: its last component, or nothing.
pub fn filename_for_path(path: &str) -> (name: String)
    ensures
        name@ == match path_file_name(path@) {
            Some(n) => n,
            None => Seq::empty(),
        },
{
    match file_name_of(path) {
        Some(n) => n,
        None => String::new(),
    }
}

/// The time since `since_ms` at `now_ms`, never negative.
pub open spec fn elapsed_ms(now_ms: u64, since_ms: u64) -> u64 {
    if now_ms >= since_ms {
        (now_ms - since_ms) as u64
    } else {
        0
    }
}

/// One frame of the source.
pub struct SourceFrame<I> {
    pub image: I,
    pub width: u32,
    pub height: u32,
    pub duration_ms: u64,
}

/// What a finished load reports.
pub struct SourceSummary {
    pub filename: String,
    pub frame_count: usize,
}

/// The display time of a GIF frame whose delay is `numer / denom`
/// milliseconds: 100 ms for a zero denominator, and never under 20 ms.
pub open spec fn gif_delay_ms(numer: u32, denom: u32) -> u64 {
    let ms = if denom == 0 {
        100
    } else {
        numer / denom
    };
    if ms < 20 {
        20
    } else {
        ms as u64
    }
}

/// The display time of a GIF frame, from its delay ratio in milliseconds.
pub fn gif_frame_delay_ms(numer: u32, denom: u32) -> (ms: u64)
    ensures
        ms == gif_delay_ms(numer, denom),
{
    let ms: u32 = if denom == 0 {
        100
    } else {
        numer / denom
    };
    if ms < 20 {
        MIN_GIF_FRAME_MS
    } else {
        ms as u64
    }
}

/// The background source: where it came from, its frames, whether a load
/// is under way, and the frame shown with the time it was first shown.
pub struct SourceState<I, P> {
    path: Option<P>,
    frames: Vec<SourceFrame<I>>,
    filename: String,
    loading: bool,
    current_frame: usize,
    last_advance_ms: u64,
}

impl<I, P> SourceState<I, P> {
    #[verifier::type_invariant]
    spec fn wf(self) -> bool {
        &&& self.frames@.len() == 0 ==> self.current_frame == 0
        &&& self.frames@.len() > 0 ==> self.current_frame < self.frames@.len()
    }

    pub closed spec fn spec_path(&self) -> Option<P> {
        self.path
    }

    pub closed spec fn spec_frames(&self) -> Seq<SourceFrame<I>> {
        self.frames@
    }

    pub closed spec fn spec_filename(&self) -> Seq<char> {
        self.filename@
    }

    pub closed spec fn spec_loading(&self) -> bool {
        self.loading
    }

    pub closed spec fn spec_current(&self) -> int {
        self.current_frame as int
    }

    pub closed spec fn spec_last_advance_ms(&self) -> u64 {
        self.last_advance_ms
    }

    /// The state holds nothing: no path, no frames, no name, not loading,
    /// at the first frame since `now_ms`.
    pub open spec fn is_empty_at(&self, now_ms: u64) -> bool {
        &&& self.spec_path() is None
        &&& self.spec_frames().len() == 0
        &&& self.spec_filename().len() == 0
        &&& !self.spec_loading()
        &&& self.spec_current() == 0
        &&& self.spec_last_advance_ms() == now_ms
    }

    /// An empty source.
    pub fn new(now_ms: u64) -> (s: Self)
        ensures
            s.is_empty_at(now_ms),
    {
        SourceState {
            path: None,
            frames: Vec::new(),
            filename: String::new(),
            loading: false,
            current_frame: 0,
            last_advance_ms: now_ms,
        }
    }

    pub fn path(&self) -> (p: Option<&P>)
        ensures
            p == match self.spec_path() {
                Some(x) => Some(&x),
                None => None,
            },
    {
        match &self.path {
            Some(p) => Some(p),
            None => None,
        }
    }

    pub fn filename(&self) -> (f: &str)
        ensures
            f@ == self.spec_filename(),
    {
        self.filename.as_str()
    }

    pub fn is_loading(&self) -> (b: bool)
        ensures
            b == self.spec_loading(),
    {
        self.loading
    }

    pub fn set_loading(&mut self, loading: bool)
        ensures
            final(self).spec_loading() == loading,
            final(self).spec_path() == old(self).spec_path(),
            final(self).spec_frames() == old(self).spec_frames(),
            final(self).spec_filename() == old(self).spec_filename(),
            final(self).spec_current() == old(self).spec_current(),
            final(self).spec_last_advance_ms() == old(self).spec_last_advance_ms(),
    {
        proof {
            use_type_invariant(&*self);
        }
        self.loading = loading;
    }

    pub fn frame_count(&self) -> (n: usize)
        ensures
            n == self.spec_frames().len(),
    {
        self.frames.len()
    }

    /// The source is animated: it has more than one frame.
    pub fn is_animated(&self) -> (b: bool)
        ensures
            b == (self.spec_frames().len() > 1),
    {
        self.frames.len() > 1
    }

    /// The frame shown, if there is one.
    pub fn current_frame(&self) -> (f: Option<&SourceFrame<I>>)
        ensures
            match f {
                Some(x) => 0 <= self.spec_current() < self.spec_frames().len() && *x
                    == self.spec_frames()[self.spec_current()],
                None => self.spec_frames().len() == 0,
            },
    {
        proof {
            use_type_invariant(self);
        }
        if self.current_frame < self.frames.len() {
            Some(&self.frames[self.current_frame])
        } else {
            None
        }
    }

    /// The dimensions of the frame shown, if there is one.
    pub fn current_size(&self) -> (s: Option<(u32, u32)>)
        ensures
            match s {
                Some((w, h)) => 0 <= self.spec_current() < self.spec_frames().len() && w
                    == self.spec_frames()[self.spec_current()].width && h
                    == self.spec_frames()[self.spec_current()].height,
                None => self.spec_frames().len() == 0,
            },
    {
        match self.current_frame() {
            Some(f) => Some((f.width, f.height)),
            None => None,
        }
    }

    /// A load of `path` (whose file name is `filename`) began at `now_ms`:
    /// the old frames are dropped and the state is loading.
    pub fn begin_loading(&mut self, path: P, filename: String, now_ms: u64)
        ensures
            final(self).spec_path() == Some(path),
            final(self).spec_frames().len() == 0,
            final(self).spec_filename() == filename@,
            final(self).spec_loading(),
            final(self).spec_current() == 0,
            final(self).spec_last_advance_ms() == now_ms,
    {
        *self = SourceState {
            path: Some(path),
            frames: Vec::new(),
            filename,
            loading: true,
            current_frame: 0,
            last_advance_ms: now_ms,
        };
    }

    /// The loaded frames replace the source at `now_ms`; the summary names
    /// the file and counts the frames.
    pub fn replace_with_loaded(
        &mut self,
        frames: Vec<SourceFrame<I>>,
        filename: String,
        path: Option<P>,
        now_ms: u64,
    ) -> (summary: SourceSummary)
        ensures
            summary.filename@ == filename@,
            summary.frame_count == frames@.len(),
            final(self).spec_path() == path,
            final(self).spec_frames() == frames@,
            final(self).spec_filename() == filename@,
            !final(self).spec_loading(),
            final(self).spec_current() == 0,
            final(self).spec_last_advance_ms() == now_ms,
    {
        let frame_count = frames.len();
        let name = filename.clone();
        *self = SourceState {
            path,
            frames,
            filename,
            loading: false,
            current_frame: 0,
            last_advance_ms: now_ms,
        };
        SourceSummary { filename: name, frame_count }
    }

    /// Drop the source at `now_ms`: path, frames and name go together.
    pub fn clear(&mut self, now_ms: u64)
        ensures
            final(self).is_empty_at(now_ms),
    {
        *self = SourceState::new(now_ms);
    }

    /// Move an animation to its next frame when the frame shown has been
    /// shown for its duration at `now_ms` (wrapping to the first after the
    /// last). Tells whether it moved.
    pub fn advance_frame_if_due(&mut self, now_ms: u64) -> (moved: bool)
        ensures
            final(self).spec_path() == old(self).spec_path(),
            final(self).spec_frames() == old(self).spec_frames(),
            final(self).spec_filename() == old(self).spec_filename(),
            final(self).spec_loading() == old(self).spec_loading(),
            moved == (old(self).spec_frames().len() > 1 && elapsed_ms(
                now_ms,
                old(self).spec_last_advance_ms(),
            ) >= old(self).spec_frames()[old(self).spec_current()].duration_ms),
            moved ==> final(self).spec_current() == (old(self).spec_current() + 1) % (old(
                self,
            ).spec_frames().len() as int) && final(self).spec_last_advance_ms() == now_ms,
            !moved ==> final(self).spec_current() == old(self).spec_current()
                && final(self).spec_last_advance_ms() == old(self).spec_last_advance_ms(),
    {
        proof {
            use_type_invariant(&*self);
        }
        if self.frames.len() <= 1 {
            return false;
        }
        let dur = self.frames[self.current_frame].duration_ms;
        let elapsed = if now_ms >= self.last_advance_ms {
            now_ms - self.last_advance_ms
        } else {
            0
        };
        if elapsed < dur {
            return false;
        }
        self.current_frame = (self.current_frame + 1) % self.frames.len();
        self.last_advance_ms = now_ms;
        true
    }
}

/// The status line after a source loaded: its file name, with the frame
/// count when it is animated.
pub open spec fn loaded_source_line(filename: Seq<char>, frame_count: nat) -> Seq<char> {
    if frame_count > 1 {
        filename + " ("@ + decimal(frame_count) + " frames)"@
    } else {
        filename
    }
}

/// The status message for a loaded source.
pub fn loaded_source_message(summary: &SourceSummary) -> (m: String)
    ensures
        m@ == loaded_source_line(summary.filename@, summary.frame_count as nat),
{
    if summary.frame_count > 1 {
        let count = string_from_chars(&decimal_exec(summary.frame_count as u64));
        let head = concat2(summary.filename.as_str(), " (");
        concat3(head.as_str(), count.as_str(), " frames)")
    } else {
        summary.filename.clone()
    }
}

/// The status message for a source that failed to load.
pub fn load_error_message(error: &str) -> (m: String)
    ensures
        m@ == "Error: "@ + error@,
{
    concat2("Error: ", error)
}

/// The extension of a path, as `std::path::Path::extension` finds it
/// (`None` when the file name has no dot after its first character).
pub uninterp spec fn path_extension(path: Seq<char>) -> Option<Seq<char>>;

/// `Path::extension` on a path given as a string.
///
/// Trusted: the result is a function of the path's characters, named
/// `path_extension`; an extension of a UTF-8 path converts back to a string
/// without loss.
#[verifier::external_body]
fn extension_of(path: &str) -> (ext: Option<String>)
    ensures
        match ext {
            Some(e) => path_extension(path@) == Some(e@),
            None => path_extension(path@) is None,
        },
{
    match std::path::Path::new(path).extension() {
        Some(e) => Some(e.to_string_lossy().into_owned()),
        None => None,
    }
}

/// A decoded GIF frame: width, height, RGBA pixels and its delay as a
/// ratio of milliseconds (numerator, denominator).
pub type GifFrameView = (u32, u32, Seq<u8>, u32, u32);

/// The frames `image`'s `GifDecoder` makes of a GIF file, composited to
/// the full canvas, or `None` when it refuses the file.
pub uninterp spec fn gif_frames(bytes: Seq<u8>) -> Option<Seq<GifFrameView>>;

/// `GifDecoder::new`, `into_frames` and `collect_frames` on a GIF file's
/// bytes.
///
/// Trusted: the GIF decoding (integer LZW and compositing) is a function of
/// the bytes alone, named `gif_frames`; every frame is an `RgbaImage`, whose
/// buffer holds four bytes per pixel. The text of the error is the
/// decoder's own and is left unsaid.
#[verifier::external_body]
fn decode_gif(bytes: &Vec<u8>) -> (r: Result<Vec<(u32, u32, Vec<u8>, u32, u32)>, String>)
    ensures
        match r {
            Ok(fs) => {
                &&& gif_frames(bytes@) == Some(
                    fs@.map_values(|f: (u32, u32, Vec<u8>, u32, u32)| (f.0, f.1, f.2@, f.3, f.4)),
                )
                &&& forall|i: int|
                    0 <= i < fs@.len() ==> (#[trigger] fs@[i]).2@.len() == fs@[i].0 * fs@[i].1 * 4
            },
            Err(_) => gif_frames(bytes@) is None,
        },
{
    let frames = match image::codecs::gif::GifDecoder::new(std::io::Cursor::new(bytes.as_slice())) {
        Ok(d) => image::AnimationDecoder::into_frames(d).collect_frames(),
        Err(e) => Err(e),
    };
    match frames {
        Ok(fs) => Ok(fs.into_iter().map(|f| {
            let (n, d) = f.delay().numer_denom_ms();
            let b = f.into_buffer();
            (b.width(), b.height(), b.into_raw(), n, d)
        }).collect()),
        Err(e) => Err(e.to_string()),
    }
}

/// The width and height of the image that `image` decodes from a file's
/// bytes in the format a (non-empty) extension names, or `None` when it
/// refuses the file.
pub uninterp spec fn still_size(bytes: Seq<u8>, extension: Seq<char>) -> Option<(u32, u32)>;

/// `ImageReader::decode` and `to_rgba8` of an image file's bytes, in the
/// format its non-empty extension names (`image::open` picks it so).
///
/// Trusted: whether the file decodes, and the size of the image, are a
/// function of the bytes and the extension, named `still_size`; an
/// extension `ImageFormat::from_extension` does not know is refused with the
/// error `image::open` gives for it; a decoded image is an `RgbaImage`,
/// whose buffer holds four bytes per pixel. Which pixels come out is left
/// unsaid: the JPEG decoder picks its SIMD code by the CPU it runs on. The
/// text of the error is the decoder's own and is left unsaid.
#[verifier::external_body]
fn decode_with_extension(bytes: &Vec<u8>, extension: &str) -> (r: Result<(u32, u32, Vec<u8>), String>)
    ensures
        r is Ok <==> still_size(bytes@, extension@) is Some,
        r matches Ok((w, h, px)) ==> still_size(bytes@, extension@) == Some((w, h)) && px@.len()
            == w * h * 4,
{
    let cursor = std::io::Cursor::new(bytes.as_slice());
    let decoded = match image::ImageFormat::from_extension(extension) {
        Some(format) => image::ImageReader::with_format(cursor, format).decode(),
        None => Err(image::ImageError::Unsupported(
            image::error::ImageFormatHint::PathExtension(extension.into()).into(),
        )),
    };
    match decoded {
        Ok(img) => {
            let rgba = img.to_rgba8();
            Ok((rgba.width(), rgba.height(), rgba.into_raw()))
        },
        Err(e) => Err(e.to_string()),
    }
}

/// `ImageReader::decode` of an image file's bytes with no format, as
/// `image::open` does for a path without an extension.
///
/// Trusted: the reader requires a format before it reads anything, so it
/// always fails; the text of the error is the reader's own.
#[verifier::external_body]
fn decode_without_format(bytes: &Vec<u8>) -> (r: Result<(u32, u32, Vec<u8>), String>)
    ensures
        r is Err,
{
    match image::ImageReader::new(std::io::Cursor::new(bytes.as_slice())).decode() {
        Ok(img) => {
            let rgba = img.to_rgba8();
            Ok((rgba.width(), rgba.height(), rgba.into_raw()))
        },
        Err(e) => Err(e.to_string()),
    }
}

/// The source frames of a decoded still image: exactly one frame of these
/// pixels, shown for good.
pub fn still_frames(width: u32, height: u32, pixels: Vec<u8>) -> (frames: Vec<
    SourceFrame<RgbaFrame>,
>)
    requires
        pixels@.len() == width * height * 4,
    ensures
        frames@.len() == 1,
        frames@[0].width == width,
        frames@[0].height == height,
        frames@[0].duration_ms == STILL_FRAME_MS,
        frames@[0].image.spec_width() == width,
        frames@[0].image.spec_height() == height,
        frames@[0].image.spec_pixels() == pixels@,
{
    let image = RgbaFrame::from_raw(width, height, pixels).unwrap();
    vec![SourceFrame { image, width, height, duration_ms: STILL_FRAME_MS }]
}

/// The size of the still image a source file decodes to: `None` when its
/// path has no extension (the format is then unknown) or the decoder
/// refuses it.
pub open spec fn still_source_size(bytes: Seq<u8>, path: Seq<char>) -> Option<(u32, u32)> {
    if source_extension(path).len() == 0 {
        None
    } else {
        still_size(bytes, source_extension(path))
    }
}

/// The extension of a source path, empty when it has none.
pub open spec fn source_extension(path: Seq<char>) -> Seq<char> {
    match path_extension(path) {
        Some(e) => e,
        None => Seq::empty(),
    }
}

/// A source path names a GIF: its extension is `gif` in any case.
pub open spec fn is_gif_path(path: Seq<char>) -> bool {
    lowercase(source_extension(path)) == "gif"@
}

/// `f` is the decoded GIF frame `g`, shown for its delay.
pub open spec fn frame_of_gif(f: SourceFrame<RgbaFrame>, g: GifFrameView) -> bool {
    &&& f.width == g.0
    &&& f.height == g.1
    &&& f.image.spec_width() == g.0
    &&& f.image.spec_height() == g.1
    &&& f.image.spec_pixels() == g.2
    &&& f.duration_ms == gif_delay_ms(g.3, g.4)
}

/// Decode a source file read from `path`: a `.gif` (in any case) gives its
/// frames, each shown for its delay; any other file gives one still frame
/// in the format its extension names (see `still_frames`).
pub fn decode_source(bytes: &Vec<u8>, path: &str) -> (r: Result<Vec<SourceFrame<RgbaFrame>>, String>)
    ensures
        is_gif_path(path@) ==> match gif_frames(bytes@) {
            None => r is Err,
            Some(fs) => if fs.len() == 0 {
                r matches Err(m) && m@ == "GIF has no frames"@
            } else {
                r matches Ok(frames) && frames@.len() == fs.len() && forall|i: int|
                    0 <= i < fs.len() ==> frame_of_gif(#[trigger] frames@[i], fs[i])
            },
        },
        !is_gif_path(path@) ==> (r is Ok <==> still_source_size(bytes@, path@) is Some),
        !is_gif_path(path@) ==> (r matches Ok(frames) ==> {
            &&& frames@.len() == 1
            &&& still_source_size(bytes@, path@) == Some((frames@[0].width, frames@[0].height))
            &&& frames@[0].duration_ms == STILL_FRAME_MS
            &&& frames@[0].width == frames@[0].image.spec_width()
            &&& frames@[0].height == frames@[0].image.spec_height()
        }),
{
    let ext = match extension_of(path) {
        Some(e) => e,
        None => String::new(),
    };
    let lower = str_chars(to_lowercase(ext.as_str()).as_str());
    let gif = str_chars("gif");
    if !chars_equal(&lower, &gif) {
        let decoded = if ext.as_str().is_empty() {
            decode_without_format(bytes)
        } else {
            decode_with_extension(bytes, ext.as_str())
        };
        return match decoded {
            Err(e) => Err(e),
            Ok((w, h, px)) => Ok(still_frames(w, h, px)),
        };
    }
    let raw = match decode_gif(bytes) {
        Err(e) => {
            return Err(e);
        },
        Ok(raw) => raw,
    };
    if raw.len() == 0 {
        return Err("GIF has no frames".to_owned());
    }
    let ghost fs = raw@.map_values(|f: (u32, u32, Vec<u8>, u32, u32)| (f.0, f.1, f.2@, f.3, f.4));
    let mut frames: Vec<SourceFrame<RgbaFrame>> = Vec::new();
    let mut rest = raw;
    let ghost mut taken: int = 0;
    while rest.len() > 0
        invariant
            0 <= taken <= fs.len(),
            fs.len() == frames@.len() + rest@.len(),
            frames@.len() == taken,
            forall|j: int| 0 <= j < rest@.len() ==> fs[taken + j] == ((#[trigger] rest@[j]).0,
                rest@[j].1, rest@[j].2@, rest@[j].3, rest@[j].4),
            forall|j: int|
                0 <= j < rest@.len() ==> (#[trigger] rest@[j]).2@.len() == rest@[j].0 * rest@[j].1
                    * 4,
            forall|i: int| 0 <= i < taken ==> frame_of_gif(#[trigger] frames@[i], fs[i]),
        decreases rest@.len(),
    {
        let ghost before = rest@;
        let (w, h, px, n, d) = rest.remove(0);
        proof {
            assert(before[0] == (w, h, px, n, d));
            assert forall|j: int| 0 <= j < rest@.len() implies fs[taken + 1 + j] == ((#[trigger] rest@[j]).0,
                rest@[j].1, rest@[j].2@, rest@[j].3, rest@[j].4) && rest@[j].2@.len() == rest@[j].0 * rest@[j].1 * 4 by {
                assert(rest@[j] == before[j + 1]);
            }
        }
        let image = match RgbaFrame::from_raw(w, h, px) {
            Some(image) => image,
            None => {
                return Err(String::new());
            },
        };
        frames.push(SourceFrame { image, width: w, height: h, duration_ms: gif_frame_delay_ms(n, d) });
        proof {
            taken = taken + 1;
        }
    }
    Ok(frames)
}

} // verus!
