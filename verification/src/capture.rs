//! Screen capture: from the buffers of a video stream to RGBA frames.
//!
//! A stream first tells its video format and then hands out buffers.  A slot
//! holds what is known of one stream until a frame has been taken from it.

use vstd::arithmetic::div_mod::lemma_fundamental_div_mod_converse;
use vstd::arithmetic::mul::{lemma_mul_inequality, lemma_mul_is_distributive_add_other_way};
use vstd::prelude::*;
use vstd::string::*;

use crate::number::{decimal, show_u64};

verus! {

// ---------------------------------------------------------------------------
// Pixel formats
// ---------------------------------------------------------------------------

/// The layout of one pixel in a buffer.
#[derive(Clone, Copy, Debug, PartialEq, Eq, Structural)]
pub enum PixelFormat {
    Bgrx,
    Rgbx,
    Bgra,
    Rgba,
    Bgr,
    Rgb,
    /// Any layout that cannot be decoded.
    Other,
}

/// The number of bytes of one pixel; zero for a layout that cannot be decoded.
pub open spec fn pixel_bytes(f: PixelFormat) -> int {
    match f {
        PixelFormat::Bgrx | PixelFormat::Rgbx | PixelFormat::Bgra | PixelFormat::Rgba => 4,
        PixelFormat::Bgr | PixelFormat::Rgb => 3,
        PixelFormat::Other => 0,
    }
}

/// Whether the blue byte of a pixel comes before the red one.
pub open spec fn blue_first(f: PixelFormat) -> bool {
    f is Bgrx || f is Bgra || f is Bgr
}

/// The number of bytes of one pixel; zero for a layout that cannot be decoded.
pub fn bytes_per_pixel(f: PixelFormat) -> (n: usize)
    ensures
        n == pixel_bytes(f),
{
    match f {
        PixelFormat::Bgrx | PixelFormat::Rgbx | PixelFormat::Bgra | PixelFormat::Rgba => 4,
        PixelFormat::Bgr | PixelFormat::Rgb => 3,
        PixelFormat::Other => 0,
    }
}

/// The formats that a capture asks a stream for, the preferred one first.
pub open spec fn offered() -> Seq<PixelFormat> {
    seq![
        PixelFormat::Bgrx,
        PixelFormat::Rgbx,
        PixelFormat::Rgba,
        PixelFormat::Bgra,
        PixelFormat::Rgb,
        PixelFormat::Bgr,
    ]
}

/// Law: a capture asks for the layouts that can be decoded, for each of them once
/// and for no other, and first for blue, green, red and a byte that does not count.
pub proof fn decodable_formats_are_offered(f: PixelFormat)
    ensures
        offered().contains(f) <==> f !is Other,
        offered().no_duplicates(),
        offered()[0] is Bgrx,
{
    let all = offered();
    assert(all[0] is Bgrx && all[1] is Rgbx && all[2] is Rgba && all[3] is Bgra && all[4] is Rgb
        && all[5] is Bgr);
}

/// Gives the formats that a capture asks a stream for, the preferred one first.
pub fn offered_formats() -> (r: Vec<PixelFormat>)
    ensures
        r@ == offered(),
        r@ == seq![
            PixelFormat::Bgrx,
            PixelFormat::Rgbx,
            PixelFormat::Rgba,
            PixelFormat::Bgra,
            PixelFormat::Rgb,
            PixelFormat::Bgr,
        ],
        forall|i: int| 0 <= i < r@.len() ==> pixel_bytes(#[trigger] r@[i]) > 0,
{
    let r: Vec<PixelFormat> = vec![
        PixelFormat::Bgrx,
        PixelFormat::Rgbx,
        PixelFormat::Rgba,
        PixelFormat::Bgra,
        PixelFormat::Rgb,
        PixelFormat::Bgr,
    ];
    r
}

// ---------------------------------------------------------------------------
// Conversion
// ---------------------------------------------------------------------------

/// Whether a buffer of `len` bytes holds `h` rows of `w` pixels, the rows
/// `stride` bytes apart, and the frame made of them can be held in memory.
pub open spec fn frame_fits(len: int, w: int, h: int, stride: int, f: PixelFormat) -> bool {
    &&& w * h * 4 <= isize::MAX
    &&& h > 0 ==> (h - 1) * stride + w * pixel_bytes(f) <= len
    &&& w > 0 && h > 0 ==> pixel_bytes(f) > 0
}

/// One byte of the frame that is read off a buffer: pixels row by row, each
/// pixel as red, green, blue and an opaque alpha.
pub open spec fn rgba_byte(src: Seq<u8>, w: int, stride: int, f: PixelFormat, i: int) -> u8 {
    let pixel = i / 4;
    let channel = i % 4;
    let start = (pixel / w) * stride + (pixel % w) * pixel_bytes(f);
    if channel == 3 {
        0xff
    } else if blue_first(f) {
        src[start + 2 - channel]
    } else {
        src[start + channel]
    }
}

/// The frame that is read off a buffer.
pub open spec fn rgba_frame(
    src: Seq<u8>,
    w: int,
    h: int,
    stride: int,
    f: PixelFormat,
) -> Seq<u8> {
    Seq::new((w * h * 4) as nat, |i: int| rgba_byte(src, w, stride, f, i))
}

proof fn four_bytes_of_a_pixel(w: int, x: int, y: int, c: int)
    requires
        0 <= x < w,
        0 <= y,
        0 <= c < 4,
    ensures
        ((y * w + x) * 4 + c) / 4 == y * w + x,
        ((y * w + x) * 4 + c) % 4 == c,
        (y * w + x) / w == y,
        (y * w + x) % w == x,
{
    lemma_fundamental_div_mod_converse(y * w + x, w, y, x);
}

proof fn pixel_in_range(len: int, w: int, h: int, stride: int, bpp: int, x: int, y: int)
    requires
        0 <= x < w,
        0 <= y < h,
        0 <= stride,
        3 <= bpp <= 4,
        (h - 1) * stride + w * bpp <= len,
    ensures
        0 <= y * stride,
        0 <= x * bpp,
        y * stride + x * bpp + bpp <= len,
{
    lemma_mul_inequality(y, h - 1, stride);
    lemma_mul_inequality(0, y, stride);
    lemma_mul_inequality(x + 1, w, bpp);
    lemma_mul_is_distributive_add_other_way(bpp, x, 1);
}

/// Reads a frame off a buffer.
pub fn convert_to_rgba(src: &[u8], w: usize, h: usize, stride: usize, f: PixelFormat) -> (out: Vec<
    u8,
>)
    requires
        frame_fits(src@.len() as int, w as int, h as int, stride as int, f),
    ensures
        out@ == rgba_frame(src@, w as int, h as int, stride as int, f),
{
    let bpp: usize = bytes_per_pixel(f);
    let swap: bool = match f {
        PixelFormat::Bgrx | PixelFormat::Bgra | PixelFormat::Bgr => true,
        _ => false,
    };
    let mut out: Vec<u8> = Vec::new();
    assert(0 * w * 4 == 0) by (nonlinear_arith);
    for y in 0..h
        invariant
            frame_fits(src@.len() as int, w as int, h as int, stride as int, f),
            bpp == pixel_bytes(f),
            swap == blue_first(f),
            out@.len() == y * w * 4,
            forall|i: int|
                0 <= i < out@.len() ==> #[trigger] out@[i] == rgba_byte(
                    src@,
                    w as int,
                    stride as int,
                    f,
                    i,
                ),
    {
        for x in 0..w
            invariant
                y < h,
                frame_fits(src@.len() as int, w as int, h as int, stride as int, f),
                bpp == pixel_bytes(f),
                swap == blue_first(f),
                out@.len() == (y * w + x) * 4,
                forall|i: int|
                    0 <= i < out@.len() ==> #[trigger] out@[i] == rgba_byte(
                        src@,
                        w as int,
                        stride as int,
                        f,
                        i,
                    ),
        {
            proof {
                pixel_in_range(
                    src@.len() as int,
                    w as int,
                    h as int,
                    stride as int,
                    bpp as int,
                    x as int,
                    y as int,
                );
                four_bytes_of_a_pixel(w as int, x as int, y as int, 0);
                four_bytes_of_a_pixel(w as int, x as int, y as int, 1);
                four_bytes_of_a_pixel(w as int, x as int, y as int, 2);
                four_bytes_of_a_pixel(w as int, x as int, y as int, 3);
            }
            assert(src@.len() == src.len());
            let start: usize = y * stride + x * bpp;
            if swap {
                out.push(src[start + 2]);
                out.push(src[start + 1]);
                out.push(src[start]);
            } else {
                out.push(src[start]);
                out.push(src[start + 1]);
                out.push(src[start + 2]);
            }
            out.push(0xff);
        }
        assert((y + 1) * w * 4 == (y * w + w) * 4) by (nonlinear_arith);
    }
    assert(h * w * 4 == w * h * 4) by (nonlinear_arith);
    assert(out@ =~= rgba_frame(src@, w as int, h as int, stride as int, f));
    out
}

/// Law: a pixel has four bytes where it has a fourth byte in its layout, and three
/// where it has red, green and blue alone.
pub proof fn layouts_have_sizes(f: PixelFormat)
    ensures
        pixel_bytes(f) == (match f {
            PixelFormat::Bgrx | PixelFormat::Bgra | PixelFormat::Rgbx | PixelFormat::Rgba => 4int,
            PixelFormat::Bgr | PixelFormat::Rgb => 3,
            PixelFormat::Other => 0,
        }),
{
}

/// Law: a frame has four bytes for each of its pixels.  Those of the pixel in a
/// column and a row are its red, its green and its blue as the layout of the
/// buffer has them, and then an opaque alpha.
pub proof fn pixels_keep_their_colours(
    src: Seq<u8>,
    w: int,
    h: int,
    stride: int,
    f: PixelFormat,
    x: int,
    y: int,
)
    requires
        0 <= x < w,
        0 <= y < h,
    ensures
        ({
            let frame = rgba_frame(src, w, h, stride, f);
            let at = 4 * (y * w + x);
            let four = y * stride + 4 * x;
            let three = y * stride + 3 * x;
            &&& frame.len() == 4 * w * h
            &&& 0 <= at && at + 3 < frame.len()
            &&& frame[at + 3] == 255
            &&& (f is Bgrx || f is Bgra) ==> frame[at] == src[four + 2] && frame[at + 1]
                == src[four + 1] && frame[at + 2] == src[four]
            &&& f is Bgr ==> frame[at] == src[three + 2] && frame[at + 1] == src[three + 1]
                && frame[at + 2] == src[three]
            &&& (f is Rgbx || f is Rgba) ==> frame[at] == src[four] && frame[at + 1] == src[four
                + 1] && frame[at + 2] == src[four + 2]
            &&& f is Rgb ==> frame[at] == src[three] && frame[at + 1] == src[three + 1]
                && frame[at + 2] == src[three + 2]
        }),
{
    let p = y * w + x;
    assert(0 <= p < w * h) by (nonlinear_arith)
        requires
            0 <= x < w,
            0 <= y < h,
            p == y * w + x,
    ;
    assert(4 * w * h == w * h * 4) by (nonlinear_arith);
    lemma_fundamental_div_mod_converse(p, w, y, x);
    assert(p / w == y && p % w == x);
    assert(4 * p / 4 == p && 4 * p % 4 == 0);
    assert((4 * p + 1) / 4 == p && (4 * p + 1) % 4 == 1);
    assert((4 * p + 2) / 4 == p && (4 * p + 2) % 4 == 2);
    assert((4 * p + 3) / 4 == p && (4 * p + 3) % 4 == 3);
}

/// Law: a frame has four bytes for each pixel, whatever layout it is read off.
pub proof fn frames_have_four_bytes_for_each_pixel(
    src: Seq<u8>,
    w: int,
    h: int,
    stride: int,
    f: PixelFormat,
)
    requires
        0 <= w,
        0 <= h,
    ensures
        rgba_frame(src, w, h, stride, f).len() == 4 * (w * h),
{
    assert(0 <= w * h) by (nonlinear_arith)
        requires
            0 <= w,
            0 <= h,
    ;
}

/// Law: a frame fits just where it can be held in memory and all bytes of all its
/// pixels, the last one of the last row included, lie within the buffer.
pub proof fn frames_fit_with_their_last_pixel(
    len: int,
    w: int,
    h: int,
    stride: int,
    f: PixelFormat,
    x: int,
    y: int,
)
    requires
        0 <= x < w,
        0 <= y < h,
        0 <= stride,
    ensures
        ({
            let bytes: int = if f is Bgr || f is Rgb {
                3
            } else {
                4
            };
            let last = (h - 1) * stride + (w - 1) * bytes;
            &&& frame_fits(len, w, h, stride, f) <==> f !is Other && 4 * (w * h) <= isize::MAX
                && last + bytes <= len
            &&& frame_fits(len, w, h, stride, f) ==> 0 <= y * stride + x * bytes && y * stride + x
                * bytes + bytes <= len
        }),
{
    let bytes: int = if f is Bgr || f is Rgb {
        3
    } else {
        4
    };
    assert((w - 1) * bytes + bytes == w * bytes) by (nonlinear_arith);
    if frame_fits(len, w, h, stride, f) {
        pixel_in_range(len, w, h, stride, bytes, x, y);
    }
}

/// Law: every pixel of a converted frame is opaque.
pub proof fn frames_are_opaque(src: Seq<u8>, w: int, h: int, stride: int, f: PixelFormat, p: int)
    requires
        0 <= p < w * h,
    ensures
        rgba_frame(src, w, h, stride, f)[p * 4 + 3] == 0xff,
{
}

/// Law: a layout with blue first gives the frame that the layout with red
/// first gives of the buffer with its red and blue bytes exchanged.
pub proof fn blue_first_is_red_first_exchanged(
    a: Seq<u8>,
    b: Seq<u8>,
    w: int,
    h: int,
    stride: int,
)
    requires
        0 <= w,
        0 <= h,
        0 <= stride,
        frame_fits(a.len() as int, w, h, stride, PixelFormat::Bgr),
        frame_fits(b.len() as int, w, h, stride, PixelFormat::Rgb),
        forall|x: int, y: int, c: int|
            0 <= x < w && 0 <= y < h && 0 <= c < 3 ==> a[y * stride + x * 3 + 2 - c]
                == #[trigger] b[y * stride + x * 3 + c],
    ensures
        rgba_frame(a, w, h, stride, PixelFormat::Bgr) == rgba_frame(
            b,
            w,
            h,
            stride,
            PixelFormat::Rgb,
        ),
{
    assert forall|i: int| 0 <= i < w * h * 4 implies rgba_byte(a, w, stride, PixelFormat::Bgr, i)
        == rgba_byte(b, w, stride, PixelFormat::Rgb, i) by {
        let pixel = i / 4;
        let c = i % 4;
        assert(0 <= pixel / w < h && 0 <= pixel % w < w) by (nonlinear_arith)
            requires
                0 <= pixel < w * h,
                0 <= w,
                0 <= h,
        ;
        if c < 3 {
            assert(a[(pixel / w) * stride + (pixel % w) * 3 + 2 - c] == b[(pixel / w) * stride + (
            pixel % w) * 3 + c]);
        }
    }
    assert(rgba_frame(a, w, h, stride, PixelFormat::Bgr) =~= rgba_frame(
        b,
        w,
        h,
        stride,
        PixelFormat::Rgb,
    ));
}

// ---------------------------------------------------------------------------
// Slots
// ---------------------------------------------------------------------------

/// The video format of a stream.
#[derive(Clone, Copy, Debug, PartialEq, Eq, Structural)]
pub struct VideoInfo {
    pub format: PixelFormat,
    pub width: u32,
    pub height: u32,
}

/// What a stream says when one of its parameters changes.
#[derive(Clone, Copy, Debug, PartialEq, Eq, Structural)]
pub struct ParamChange {
    /// Whether the parameter is the format.
    pub is_format: bool,
    /// Whether the media type is video, where the parameter tells one.
    pub video: bool,
    /// Whether the media subtype is raw, where the parameter tells one.
    pub raw: bool,
    /// The video format, where the parameter holds a complete one.
    pub info: Option<VideoInfo>,
}

/// One frame.
#[derive(Debug)]
pub struct Frame {
    pub width: u32,
    pub height: u32,
    pub rgba: Vec<u8>,
}

/// What is known of one stream.
#[derive(Debug)]
pub struct Slot {
    pub format: Option<VideoInfo>,
    pub frame: Option<Frame>,
}

/// A frame and its size, as values.
pub struct FrameView {
    pub width: u32,
    pub height: u32,
    pub rgba: Seq<u8>,
}

impl View for Frame {
    type V = FrameView;

    open spec fn view(&self) -> FrameView {
        FrameView { width: self.width, height: self.height, rgba: self.rgba@ }
    }
}

impl Slot {
    /// Whether a buffer yields a frame: the format is known and can be decoded,
    /// and the buffer holds pixels and not only metadata.
    pub open spec fn takes(self, size: usize, data: Option<&[u8]>) -> bool {
        &&& self.format is Some
        &&& pixel_bytes(self.format->0.format) > 0
        &&& size != 0
        &&& data is Some
    }

    /// Whether the frame that a buffer yields, if it yields one, lies within
    /// the buffer.
    pub open spec fn frame_lies_within(
        self,
        size: usize,
        stride: usize,
        data: Option<&[u8]>,
    ) -> bool {
        self.takes(size, data) ==> frame_fits(
            data->0@.len() as int,
            self.format->0.width as int,
            self.format->0.height as int,
            stride as int,
            self.format->0.format,
        )
    }

    /// The frame that a buffer yields.
    pub open spec fn frame_of(self, stride: usize, data: Seq<u8>) -> FrameView {
        let info = self.format->0;
        FrameView {
            width: info.width,
            height: info.height,
            rgba: rgba_frame(
                data,
                info.width as int,
                info.height as int,
                stride as int,
                info.format,
            ),
        }
    }

    /// The format that is known after a parameter has changed.
    pub open spec fn format_after(self, change: ParamChange) -> Option<VideoInfo> {
        if change.is_format && change.video && change.raw && change.info is Some {
            change.info
        } else {
            self.format
        }
    }

    /// A slot of which nothing is known.
    pub fn new() -> (r: Slot)
        ensures
            r.format is None,
            r.frame is None,
    {
        Slot { format: None, frame: None }
    }

    /// Notes a change of parameter.  Only a complete raw video format counts.
    pub fn on_param(&mut self, change: ParamChange)
        ensures
            final(self).frame == old(self).frame,
            final(self).format == old(self).format_after(change),
            final(self).format == (if change.is_format && change.video && change.raw
                && change.info is Some {
                change.info
            } else {
                old(self).format
            }),
    {
        if change.is_format && change.video && change.raw && change.info.is_some() {
            self.format = change.info;
        }
    }

    /// Tests whether the frame that a buffer yields lies within it.
    pub fn fits(&self, size: usize, stride: usize, data: Option<&[u8]>) -> (r: bool)
        ensures
            r == self.frame_lies_within(size, stride, data),
    {
        match (self.format, data) {
            (Some(info), Some(bytes)) => {
                let bpp: usize = bytes_per_pixel(info.format);
                if bpp == 0 || size == 0 {
                    return true;
                }
                let w: u128 = info.width as u128;
                let h: u128 = info.height as u128;
                let s: u128 = stride as u128;
                let n: u128 = bpp as u128;
                assert(w * h <= 0xffff_ffff * 0xffff_ffff) by (nonlinear_arith)
                    requires
                        w <= 0xffff_ffff,
                        h <= 0xffff_ffff,
                ;
                if w * h * 4 > isize::MAX as u128 {
                    return false;
                }
                if h == 0 {
                    return true;
                }
                assert(0 <= (h - 1) * s <= 0xffff_ffff * 0xffff_ffff_ffff_ffff) by (nonlinear_arith)
                    requires
                        1 <= h <= 0xffff_ffff,
                        s <= 0xffff_ffff_ffff_ffff,
                ;
                assert(0 <= w * n <= 0xffff_ffff * 4) by (nonlinear_arith)
                    requires
                        w <= 0xffff_ffff,
                        n <= 4,
                ;
                (h - 1) * s + w * n <= bytes.len() as u128
            },
            _ => true,
        }
    }

    /// Takes a frame from a buffer, if the buffer yields one, and says whether
    /// it did.  A frame that was taken before is replaced.
    pub fn offer(&mut self, size: usize, stride: usize, data: Option<&[u8]>) -> (taken: bool)
        requires
            old(self).frame_lies_within(size, stride, data),
        ensures
            taken == old(self).takes(size, data),
            final(self).format == old(self).format,
            !taken ==> final(self).frame == old(self).frame,
            taken ==> final(self).frame is Some && final(self).frame->0@ == old(self).frame_of(
                stride,
                data->0@,
            ),
    {
        match (self.format, data) {
            (Some(info), Some(bytes)) => {
                if bytes_per_pixel(info.format) == 0 || size == 0 {
                    return false;
                }
                let rgba: Vec<u8> = convert_to_rgba(
                    bytes,
                    info.width as usize,
                    info.height as usize,
                    stride,
                    info.format,
                );
                self.frame = Some(Frame { width: info.width, height: info.height, rgba });
                true
            },
            _ => false,
        }
    }
}

/// Law: the format of a stream is the last complete raw video format that it told.
/// A parameter that is another, media that are not video, video that is not raw,
/// and a format that is not complete, leave it as it is.
pub proof fn only_raw_video_formats_count(slot: Slot, change: ParamChange)
    ensures
        !change.is_format ==> slot.format_after(change) == slot.format,
        !change.video ==> slot.format_after(change) == slot.format,
        !change.raw ==> slot.format_after(change) == slot.format,
        change.info is None ==> slot.format_after(change) == slot.format,
        change.is_format && change.video && change.raw && change.info is Some
            ==> slot.format_after(change) == change.info,
{
}

/// Law: a buffer with pixels yields a frame as soon as the format is known, if it
/// can be decoded; one that holds only metadata does not.  The frame has the size
/// that the format tells, and every pixel of it that of the buffer.
pub proof fn buffers_yield_their_frames(slot: Slot, size: usize, stride: usize, data: Seq<u8>)
    ensures
        forall|d: &[u8]| slot.takes(size, Some(d)) <==> (slot.format matches Some(info)
            && info.format !is Other && size > 0),
        !slot.takes(size, None),
        slot.format matches Some(info) ==> {
            let frame = slot.frame_of(stride, data);
            &&& frame.width == info.width
            &&& frame.height == info.height
            &&& frame.rgba == rgba_frame(
                data,
                info.width as int,
                info.height as int,
                stride as int,
                info.format,
            )
        },
{
}

/// Law: a buffer that yields no frame is always in order; one that yields a frame
/// must hold it with the size and the layout of the format.
pub proof fn frames_lie_within_their_buffers(slot: Slot, size: usize, stride: usize, data: &[u8])
    ensures
        slot.frame_lies_within(size, stride, None),
        slot.format is None ==> slot.frame_lies_within(size, stride, Some(data)),
        size == 0 ==> slot.frame_lies_within(size, stride, Some(data)),
        slot.format matches Some(info) ==> size > 0 && info.format !is Other ==> (
        slot.frame_lies_within(size, stride, Some(data)) <==> frame_fits(
            data@.len() as int,
            info.width as int,
            info.height as int,
            stride as int,
            info.format,
        )),
        slot.format matches Some(info) ==> info.format is Other ==> slot.frame_lies_within(
            size,
            stride,
            Some(data),
        ),
{
}

/// Law: a frame is taken as it is.
pub proof fn frames_are_taken_as_they_are(frame: Frame)
    ensures
        frame@.width == frame.width,
        frame@.height == frame.height,
        frame@.rgba == frame.rgba@,
{
}

// ---------------------------------------------------------------------------
// Captures of several streams
// ---------------------------------------------------------------------------

/// A capture of one frame from each of several streams.
#[derive(Debug)]
pub struct Capture {
    pub slots: Vec<Slot>,
}

impl Capture {
    /// Whether a frame has been taken from every stream.
    pub open spec fn complete(self) -> bool {
        forall|i: int| 0 <= i < self.slots@.len() ==> (#[trigger] self.slots@[i]).frame is Some
    }

    /// The frames that have been taken, as values.
    pub open spec fn frames(self) -> Seq<Option<FrameView>> {
        Seq::new(
            self.slots@.len(),
            |i: int|
                match self.slots@[i].frame {
                    Some(frame) => Some(frame@),
                    None => None,
                },
        )
    }

    /// Whether a buffer of one stream yields a frame that the stream still owes.
    pub open spec fn accepts(self, idx: int, size: usize, data: Option<&[u8]>) -> bool {
        self.slots@[idx].frame is None && self.slots@[idx].takes(size, data)
    }

    /// The frames after a buffer of one stream was offered.
    pub open spec fn frames_after(
        self,
        idx: int,
        size: usize,
        stride: usize,
        data: Option<&[u8]>,
    ) -> Seq<Option<FrameView>> {
        if self.accepts(idx, size, data) {
            self.frames().update(idx, Some(self.slots@[idx].frame_of(stride, data->0@)))
        } else {
            self.frames()
        }
    }

    /// A capture of `n` streams of which nothing is known.
    pub fn new(n: usize) -> (r: Capture)
        ensures
            r.slots@.len() == n,
            forall|i: int|
                0 <= i < n ==> (#[trigger] r.slots@[i]).format is None && r.slots@[i].frame is None,
    {
        let mut slots: Vec<Slot> = Vec::new();
        for k in 0..n
            invariant
                slots@.len() == k,
                forall|i: int|
                    0 <= i < k ==> (#[trigger] slots@[i]).format is None && slots@[i].frame is None,
        {
            slots.push(Slot::new());
        }
        Capture { slots }
    }

    /// Whether a frame has been taken from every stream.
    pub fn is_complete(&self) -> (r: bool)
        ensures
            r == self.complete(),
    {
        for k in 0..self.slots.len()
            invariant
                forall|i: int| 0 <= i < k ==> (#[trigger] self.slots@[i]).frame is Some,
        {
            if self.slots[k].frame.is_none() {
                return false;
            }
        }
        true
    }

    /// Whether a stream still owes its frame.
    pub fn wants(&self, idx: usize) -> (r: bool)
        requires
            idx < self.slots@.len(),
        ensures
            r == (self.slots@[idx as int].frame is None),
    {
        self.slots[idx].frame.is_none()
    }

    /// Notes a change of parameter of one stream.
    pub fn on_param(&mut self, idx: usize, change: ParamChange)
        requires
            idx < old(self).slots@.len(),
        ensures
            final(self).slots@.len() == old(self).slots@.len(),
            forall|i: int|
                0 <= i < old(self).slots@.len() && i != idx ==> #[trigger] final(self).slots@[i]
                    == old(self).slots@[i],
            final(self).slots@[idx as int].frame == old(self).slots@[idx as int].frame,
            final(self).slots@[idx as int].format == (if change.is_format && change.video
                && change.raw && change.info is Some {
                change.info
            } else {
                old(self).slots@[idx as int].format
            }),
    {
        self.slots[idx].on_param(change);
    }

    /// Takes a frame from a buffer of one stream, if that stream still owes one
    /// and the buffer yields one.  Says whether the capture is over: whether
    /// the frame just taken was the last one missing.
    pub fn offer(&mut self, idx: usize, size: usize, stride: usize, data: Option<&[u8]>) -> (over:
        bool)
        requires
            idx < old(self).slots@.len(),
            old(self).slots@[idx as int].frame is None ==> old(self).slots@[idx as int].frame_lies_within(size, stride, data),
        ensures
            final(self).slots@.len() == old(self).slots@.len(),
            forall|i: int|
                0 <= i < old(self).slots@.len() && i != idx ==> #[trigger] final(self).slots@[i]
                    == old(self).slots@[i],
            final(self).slots@[idx as int].format == old(self).slots@[idx as int].format,
            ({
                let slot = old(self).slots@[idx as int];
                let taken = slot.frame is None && slot.takes(size, data);
                &&& taken ==> final(self).slots@[idx as int].frame is Some && final(self).slots@[idx as int].frame->0@ == slot.frame_of(stride, data->0@)
                &&& !taken ==> final(self).slots@ == old(self).slots@
                &&& over == (taken && final(self).complete())
            }),
            final(self).frames() == old(self).frames_after(idx as int, size, stride, data),
            over ==> old(self).accepts(idx as int, size, data),
    {
        let ghost before = *self;
        if self.slots[idx].frame.is_some() {
            return false;
        }
        let taken: bool = self.slots[idx].offer(size, stride, data);
        if !taken {
            assert(self.slots@ =~= before.slots@);
            assert(self.frames() =~= before.frames());
            return false;
        }
        assert(self.frames() =~= before.frames_after(idx as int, size, stride, data));
        self.is_complete()
    }
}

/// Law: a capture takes one frame of each stream, the first that a buffer yields, and
/// leaves the other streams alone.
pub proof fn captures_take_the_first_frame_of_each_stream(
    capture: Capture,
    idx: int,
    size: usize,
    stride: usize,
    data: Option<&[u8]>,
    j: int,
)
    requires
        0 <= idx < capture.slots@.len(),
        0 <= j < capture.slots@.len(),
    ensures
        ({
            let before = capture.frames();
            let after = capture.frames_after(idx, size, stride, data);
            let slot = capture.slots@[idx];
            &&& after.len() == capture.slots@.len()
            &&& before[j] is Some ==> after[j] == before[j]
            &&& j != idx ==> after[j] == before[j]
            &&& before[idx] is None && slot.takes(size, data) ==> after[idx] == Some(
                slot.frame_of(stride, data->0@),
            )
            &&& !slot.takes(size, data) ==> after[idx] == before[idx]
            &&& capture.accepts(idx, size, data) <==> before[idx] is None && after[idx] is Some
            &&& before[j] is Some <==> capture.slots@[j].frame is Some
            &&& capture.slots@[j].frame matches Some(frame) ==> before[j] == Some(frame@)
        }),
{
}

/// Law: a capture is over when every stream has given its frame, and not before.
pub proof fn captures_wait_for_every_stream(capture: Capture)
    ensures
        !capture.complete() <==> exists|k: int|
            0 <= k < capture.slots@.len() && (#[trigger] capture.slots@[k]).frame is None,
{
}

// ---------------------------------------------------------------------------
// Frames to be saved
// ---------------------------------------------------------------------------

/// Whether an image of the given size finds all its bytes in a buffer.
pub open spec fn image_holds(width: u32, height: u32, len: int) -> bool {
    4 * width <= usize::MAX && 4 * width * height <= len
}

/// Trusted: `image::RgbaImage::from_raw`, and `into_raw` to have the bytes
/// back.  An image is made if and only if the buffer is large enough, and it
/// holds the buffer as it was given.
#[verifier::external_body]
fn raw_image(width: u32, height: u32, data: Vec<u8>) -> (r: Option<Vec<u8>>)
    ensures
        r is Some <==> image_holds(width, height, data@.len() as int),
        r is Some ==> r->0@ == data@,
{
    image::RgbaImage::from_raw(width, height, data).map(|img| img.into_raw())
}

/// What is said of a capture of one stream that came to no frame.
pub open spec fn no_frame() -> Seq<char> {
    "no frame captured"@
}

/// The frame of a capture of one stream.
pub fn single_frame(slot: Slot) -> (r: Result<Frame, String>)
    ensures
        match r {
            Ok(frame) => slot.frame == Some(frame),
            Err(e) => slot.frame is None && e@ == no_frame(),
        },
{
    match slot.frame {
        Some(frame) => Ok(frame),
        None => Err("no frame captured".to_owned()),
    }
}

/// What is said of a stream that came to no frame.
pub open spec fn no_stream_frame(idx: int) -> Seq<char> {
    "stream "@ + decimal(idx) + ": no frame captured before quit"@
}

/// The frame of one stream of a capture of several.
pub fn stream_frame(slot: Slot, idx: usize) -> (r: Result<Frame, String>)
    ensures
        match r {
            Ok(frame) => slot.frame == Some(frame),
            Err(e) => slot.frame is None && e@ == no_stream_frame(idx as int),
        },
{
    match slot.frame {
        Some(frame) => Ok(frame),
        None => {
            let mut e: String = "stream ".to_owned();
            e.append(show_u64(idx as u64).as_str());
            e.append(": no frame captured before quit");
            Err(e)
        },
    }
}

/// What is said of a frame whose buffer is too short for its size.
pub open spec fn short_frame(width: u32, height: u32) -> Seq<char> {
    "frame buffer length doesn't match "@ + decimal(width as int) + "x"@ + decimal(height as int)
}

/// Tests that the frame of a capture of one stream makes an image.
pub fn single_image(frame: Frame) -> (r: Result<Frame, String>)
    ensures
        match r {
            Ok(out) => out@ == frame@ && image_holds(
                frame.width,
                frame.height,
                frame.rgba@.len() as int,
            ),
            Err(e) => e@ == short_frame(frame.width, frame.height) && !image_holds(
                frame.width,
                frame.height,
                frame.rgba@.len() as int,
            ),
        },
{
    let Frame { width, height, rgba } = frame;
    match raw_image(width, height, rgba) {
        Some(rgba) => Ok(Frame { width, height, rgba }),
        None => {
            let mut e: String = "frame buffer length doesn't match ".to_owned();
            e.append(show_u64(width as u64).as_str());
            e.append("x");
            e.append(show_u64(height as u64).as_str());
            Err(e)
        },
    }
}

/// What is said of a stream whose frame is too short for its size.
pub open spec fn short_stream_frame(idx: int) -> Seq<char> {
    "stream "@ + decimal(idx) + ": bad frame buffer size"@
}

/// Tests that the frame of one stream of a capture of several makes an image.
pub fn stream_image(frame: Frame, idx: usize) -> (r: Result<Frame, String>)
    ensures
        match r {
            Ok(out) => out@ == frame@ && image_holds(
                frame.width,
                frame.height,
                frame.rgba@.len() as int,
            ),
            Err(e) => e@ == short_stream_frame(idx as int) && !image_holds(
                frame.width,
                frame.height,
                frame.rgba@.len() as int,
            ),
        },
{
    let Frame { width, height, rgba } = frame;
    match raw_image(width, height, rgba) {
        Some(rgba) => Ok(Frame { width, height, rgba }),
        None => {
            let mut e: String = "stream ".to_owned();
            e.append(show_u64(idx as u64).as_str());
            e.append(": bad frame buffer size");
            Err(e)
        },
    }
}

/// Law: a frame that was read off a buffer always makes an image.
pub proof fn converted_frames_make_images(
    src: Seq<u8>,
    width: u32,
    height: u32,
    stride: int,
    f: PixelFormat,
)
    requires
        frame_fits(src.len() as int, width as int, height as int, stride, f),
        height > 0 || 4 * width <= usize::MAX,
    ensures
        image_holds(
            width,
            height,
            rgba_frame(src, width as int, height as int, stride, f).len() as int,
        ),
{
    assert(4 * width * height == width * height * 4) by (nonlinear_arith);
    assert(height > 0 ==> 4 * width <= width * height * 4) by (nonlinear_arith);
    assert(0 <= width * height * 4) by (nonlinear_arith);
}

/// Law: an image is made of a buffer just where it has four bytes for each pixel, at
/// least.
pub proof fn images_have_four_bytes_for_each_pixel(width: u32, height: u32, len: int)
    requires
        4 * width <= usize::MAX,
    ensures
        image_holds(width, height, len) <==> 4 * (width * height) <= len,
{
    assert(4 * width * height == 4 * (width * height)) by (nonlinear_arith);
}

/// Law: a frame that is missing, or too short for its size, is told with the number
/// of its stream, or with its size if there is only one.
pub proof fn bad_frames_are_told(idx: int, width: u32, height: u32)
    ensures
        no_frame() == "no frame captured"@,
        no_stream_frame(idx) == "stream "@ + decimal(idx) + ": no frame captured before quit"@,
        short_frame(width, height) == "frame buffer length doesn't match "@ + decimal(width as int)
            + "x"@ + decimal(height as int),
        short_stream_frame(idx) == "stream "@ + decimal(idx) + ": bad frame buffer size"@,
{
}

} // verus!
