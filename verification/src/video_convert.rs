//! Picture conversion: every frame is shown through a planar 4:2:0 texture,
//! so planes are packed without row padding and chroma is subsampled.

use crate::frame::{PixelFormat, VideoFrame, VideoPlane};
use vstd::prelude::*;

verus! {

/// Texture formats that a window offers.
#[derive(Clone, Copy, Debug, PartialEq, Eq, Structural)]
pub enum TextureFormat {
    /// Planar Y, U, V with 4:2:0 chroma.
    Iyuv,
    Rgb24,
    Rgba32,
}

/// A picture as packed 4:2:0 planes. Rows of `y` are as long as the picture
/// is wide, rows of `u` and `v` half of that, rounded down.
#[derive(Debug)]
pub struct Yuv420 {
    pub y: Vec<u8>,
    pub u: Vec<u8>,
    pub v: Vec<u8>,
}

/// The grey that stands for a missing plane.
pub const GREY: u8 = 128;

/// How many of `rows` rows lie wholly within `len` bytes, where a row starts
/// every `step` bytes and needs `need` bytes.
pub open spec fn whole_rows(len: nat, step: nat, need: nat, rows: nat) -> nat {
    if need > len {
        0
    } else if step == 0 || rows <= (len - need) as nat / step {
        rows
    } else {
        (len - need) as nat / step + 1
    }
}

/// The first `rows` rows of `data`, a row starting every `step` bytes, with
/// `w` bytes taken from each, every `skip`-th one.
pub open spec fn picked(data: Seq<u8>, step: nat, w: nat, skip: nat, rows: nat) -> Seq<u8> {
    Seq::new(rows * w, |k: int| data[(k / w as int) * step + (k % w as int) * skip])
}

/// A plane without row padding; rows that the data does not hold in full are
/// left out.
pub open spec fn tight(data: Seq<u8>, stride: nat, w: nat, h: nat) -> Seq<u8> {
    picked(data, stride, w, 1, whole_rows(data.len(), stride, w, h))
}

/// Every second row of a plane.
pub open spec fn half_rows(data: Seq<u8>, stride: nat, w: nat, h: nat) -> Seq<u8> {
    picked(data, 2 * stride, w, 1, whole_rows(data.len(), 2 * stride, w, h / 2))
}

/// Every second sample of every second row of a plane; a row counts only if
/// the data holds it at full width.
pub open spec fn half_both(data: Seq<u8>, stride: nat, w: nat, h: nat) -> Seq<u8> {
    picked(data, 2 * stride, w / 2, 2, whole_rows(data.len(), 2 * stride, w, h / 2))
}

/// Copies rows out of a plane.
fn pick_rows(src: &[u8], step: usize, need: usize, w: usize, skip: usize, rows: usize) -> (out: Vec<
    u8,
>)
    requires
        1 <= skip <= 2,
        w > 0,
        (w - 1) * skip < need,
    ensures
        out@ == picked(
            src@,
            step as nat,
            w as nat,
            skip as nat,
            whole_rows(src@.len(), step as nat, need as nat, rows as nat),
        ),
{
    let mut out: Vec<u8> = Vec::new();
    let ghost n = whole_rows(src@.len(), step as nat, need as nat, rows as nat);
    let ghost whole = picked(src@, step as nat, w as nat, skip as nat, n);
    if need > src.len() {
        assert(whole =~= out@);
        return out;
    }
    let spare: usize = src.len() - need;
    let mut row: usize = 0;
    let mut off: usize = 0;
    let mut more: bool = rows > 0;
    proof {
        assert(0 * w == 0);
        assert(0 * step == 0);
    }
    while more
        invariant
            need <= src@.len(),
            src@.len() == src.len(),
            spare == src@.len() - need,
            1 <= skip <= 2,
            w > 0,
            (w - 1) * skip < need,
            n == whole_rows(src@.len(), step as nat, need as nat, rows as nat),
            whole == picked(src@, step as nat, w as nat, skip as nat, n),
            row <= rows,
            row <= n,
            more ==> row < n,
            !more ==> row == n,
            more ==> off == row * step,
            more ==> off <= spare,
            out@.len() == row * w,
            out@ =~= whole.take(out@.len() as int),
        decreases rows - row,
    {
        proof {
            assert(whole.len() == n * w);
            assert((row + 1) * w <= n * w) by (nonlinear_arith)
                requires
                    row + 1 <= n,
            ;
            assert((row + 1) * w == row * w + w) by (nonlinear_arith);
        }
        let mut col: usize = 0;
        while col < w
            invariant
                col <= w,
                src@.len() == src.len(),
                off + need <= src@.len(),
                off == row * step,
                1 <= skip <= 2,
                w > 0,
                (w - 1) * skip < need,
                whole == picked(src@, step as nat, w as nat, skip as nat, n),
                row * w + w <= whole.len(),
                out@.len() == row * w + col,
                out@ =~= whole.take(out@.len() as int),
            decreases w - col,
        {
            assert(col * skip <= (w - 1) * skip) by (nonlinear_arith)
                requires
                    col <= w - 1,
                    skip >= 1,
            ;
            let b = src[off + col * skip];
            proof {
                let k = row * w + col;
                vstd::arithmetic::div_mod::lemma_fundamental_div_mod_converse(
                    k,
                    w as int,
                    row as int,
                    col as int,
                );
                assert(whole[k] == b);
            }
            out.push(b);
            col = col + 1;
        }
        row = row + 1;
        proof {
            assert(row * step == (row - 1) * step + step) by (nonlinear_arith);
            lemma_row_count(spare as nat, step as nat, row as nat, rows as nat);
        }
        if row < rows && step <= spare - off {
            off = off + step;
        } else {
            more = false;
        }
    }
    assert(whole.take(whole.len() as int) =~= whole);
    out
}

/// Row `row` starts within `spare` bytes exactly where it is one of the
/// counted rows.
proof fn lemma_row_count(spare: nat, step: nat, row: nat, rows: nat)
    requires
        1 <= row <= rows,
    ensures
        step > 0 ==> (row <= spare / step <==> row * step <= spare),
{
    if step > 0 {
        vstd::arithmetic::div_mod::lemma_fundamental_div_mod(spare as int, step as int);
        let q = spare as int / step as int;
        let r = spare as int % step as int;
        assert(row <= q <==> row * step <= spare) by (nonlinear_arith)
            requires
                spare == step * q + r,
                0 <= r < step,
        ;
    }
}

/// Packs a plane: `h` rows of `w` bytes, without the padding between them.
/// Copying stops at the first row that the source does not hold in full.
pub fn plane_tight(src: &[u8], stride: usize, w: usize, h: usize) -> (out: Vec<u8>)
    ensures
        out@ == tight(src@, stride as nat, w as nat, h as nat),
{
    if w == 0 {
        let out: Vec<u8> = Vec::new();
        assert(out@ =~= tight(src@, stride as nat, w as nat, h as nat));
        return out;
    }
    pick_rows(src, stride, w, w, 1, h)
}

/// Twice a stride. A product past the range of `usize` is cut off there,
/// which no row can reach.
fn double_stride(stride: usize) -> (step: usize)
    ensures
        step == (if 2 * stride <= usize::MAX {
            2 * stride
        } else {
            usize::MAX as int
        }),
{
    if stride <= usize::MAX / 2 {
        2 * stride
    } else {
        usize::MAX
    }
}

/// Where a second row is out of reach, the distance to it does not matter.
proof fn lemma_step_out_of_reach(
    data: Seq<u8>,
    step: nat,
    other: nat,
    need: nat,
    w: nat,
    skip: nat,
    rows: nat,
)
    requires
        w > 0,
        step == other || (data.len() - need < step && data.len() - need < other),
    ensures
        picked(data, step, w, skip, whole_rows(data.len(), step, need, rows)) == picked(
            data,
            other,
            w,
            skip,
            whole_rows(data.len(), other, need, rows),
        ),
{
    if step != other {
        let n = whole_rows(data.len(), step, need, rows);
        if need <= data.len() {
            let spare = (data.len() - need) as nat;
            vstd::arithmetic::div_mod::lemma_basic_div(spare as int, step as int);
            vstd::arithmetic::div_mod::lemma_basic_div(spare as int, other as int);
        }
        assert(n <= 1);
        assert(n == whole_rows(data.len(), other, need, rows));
        let a = picked(data, step, w, skip, n);
        let b = picked(data, other, w, skip, n);
        assert forall|k: int| 0 <= k < a.len() implies a[k] == b[k] by {
            assert(n * w <= w) by (nonlinear_arith)
                requires
                    n <= 1,
            ;
            vstd::arithmetic::div_mod::lemma_basic_div(k, w as int);
            assert((k / w as int) * step == 0 && (k / w as int) * other == 0);
        }
        assert(a =~= b);
    }
}

/// Takes every second row of a chroma plane that is already at half width.
pub fn downsample_vertical(plane: &VideoPlane, out_w: usize, in_h: usize) -> (out: Vec<u8>)
    ensures
        out@ == half_rows(plane.data@, plane.stride as nat, out_w as nat, in_h as nat),
{
    if out_w == 0 {
        let out: Vec<u8> = Vec::new();
        assert(out@ =~= half_rows(plane.data@, plane.stride as nat, out_w as nat, in_h as nat));
        return out;
    }
    let step = double_stride(plane.stride);
    proof {
        assert(plane.data@.len() == plane.data.len());
        lemma_step_out_of_reach(
            plane.data@,
            step as nat,
            2 * plane.stride as nat,
            out_w as nat,
            out_w as nat,
            1,
            (in_h / 2) as nat,
        );
    }
    pick_rows(plane.data.as_slice(), step, out_w, out_w, 1, in_h / 2)
}

/// Takes every second sample of every second row of a full-size chroma
/// plane.
pub fn downsample_2x2(plane: &VideoPlane, in_w: usize, in_h: usize) -> (out: Vec<u8>)
    ensures
        out@ == half_both(plane.data@, plane.stride as nat, in_w as nat, in_h as nat),
{
    if in_w / 2 == 0 {
        let out: Vec<u8> = Vec::new();
        assert(out@ =~= half_both(plane.data@, plane.stride as nat, in_w as nat, in_h as nat));
        return out;
    }
    let step = double_stride(plane.stride);
    proof {
        assert(plane.data@.len() == plane.data.len());
        lemma_step_out_of_reach(
            plane.data@,
            step as nat,
            2 * plane.stride as nat,
            in_w as nat,
            (in_w / 2) as nat,
            2,
            (in_h / 2) as nat,
        );
    }
    pick_rows(plane.data.as_slice(), step, in_w, in_w / 2, 2, in_h / 2)
}

/// Maps a pixel format to the texture format it is shown through: every
/// picture becomes 4:2:0 planes, which only a planar texture takes.
pub fn sdl_pixel_format(format: PixelFormat) -> (texture: TextureFormat)
    ensures
        texture == TextureFormat::Iyuv,
{
    match format {
        PixelFormat::Yuv420P => TextureFormat::Iyuv,
        // Converted.
        PixelFormat::Yuv422P | PixelFormat::Yuv444P | PixelFormat::Rgb24 | PixelFormat::Rgba
        | PixelFormat::Gray8 => TextureFormat::Iyuv,
    }
}

/// A plane of one value.
pub open spec fn flat(len: nat) -> Seq<u8> {
    Seq::new(len, |i: int| GREY)
}

impl VideoFrame {
    /// The bytes of one plane, packed.
    pub open spec fn tight_plane(&self, plane: int, w: nat, h: nat) -> Seq<u8> {
        tight(self.planes@[plane].data@, self.planes@[plane].stride as nat, w, h)
    }

    /// Whether the frame has the planes its format calls for, and the grey
    /// planes that stand for missing ones fit in memory.
    pub open spec fn convertible(&self) -> bool {
        match self.format {
            PixelFormat::Yuv420P | PixelFormat::Yuv422P
            | PixelFormat::Yuv444P => self.planes@.len() >= 3,
            PixelFormat::Gray8 => self.planes@.len() >= 1 && (self.width / 2) * (self.height / 2)
                <= isize::MAX,
            PixelFormat::Rgb24 | PixelFormat::Rgba => self.width * self.height <= isize::MAX,
        }
    }

    /// The luma plane: grey for the packed colour formats.
    pub open spec fn luma(&self) -> Seq<u8> {
        match self.format {
            PixelFormat::Rgb24 | PixelFormat::Rgba => flat((self.width * self.height) as nat),
            _ => self.tight_plane(0, self.width as nat, self.height as nat),
        }
    }

    /// A chroma plane at half size in both directions: grey where the format
    /// has none or is packed.
    pub open spec fn chroma(&self, plane: int) -> Seq<u8> {
        let w = self.width as nat;
        let h = self.height as nat;
        match self.format {
            PixelFormat::Yuv420P => self.tight_plane(plane, w / 2, h / 2),
            PixelFormat::Yuv422P => half_rows(
                self.planes@[plane].data@,
                self.planes@[plane].stride as nat,
                w / 2,
                h,
            ),
            PixelFormat::Yuv444P => half_both(
                self.planes@[plane].data@,
                self.planes@[plane].stride as nat,
                w,
                h,
            ),
            _ => flat((w / 2) * (h / 2)),
        }
    }
}

/// Makes a grey plane.
fn grey_plane(len: usize) -> (out: Vec<u8>)
    ensures
        out@ == flat(len as nat),
{
    let out: Vec<u8> = vec![GREY; len];
    assert(out@ =~= flat(len as nat));
    out
}

/// Whether the frame can be converted, which is what [`to_yuv420p`] asks
/// for.
pub fn can_convert(frame: &VideoFrame) -> (ok: bool)
    ensures
        ok == frame.convertible(),
{
    match frame.format {
        PixelFormat::Yuv420P | PixelFormat::Yuv422P | PixelFormat::Yuv444P => frame.planes.len()
            >= 3,
        PixelFormat::Gray8 => {
            proof {
                lemma_area(frame.width / 2, frame.height / 2);
            }
            frame.planes.len() >= 1 && (frame.width / 2) as u64 * (frame.height / 2) as u64
                <= isize::MAX as u64
        },
        PixelFormat::Rgb24 | PixelFormat::Rgba => {
            proof {
                lemma_area(frame.width, frame.height);
            }
            frame.width as u64 * frame.height as u64 <= isize::MAX as u64
        },
    }
}

proof fn lemma_area(w: u32, h: u32)
    ensures
        0 <= w * h <= u64::MAX,
        (w / 2) * (h / 2) <= w * h,
{
    assert(0 <= w * h <= 0xffff_ffff * 0xffff_ffff) by (nonlinear_arith)
        requires
            0 <= w <= 0xffff_ffff,
            0 <= h <= 0xffff_ffff,
    ;
    assert((w / 2) * (h / 2) <= w * h) by (nonlinear_arith)
        requires
            0 <= w / 2 <= w,
            0 <= h / 2 <= h,
    ;
}

/// Converts a frame to packed 4:2:0 planes. Chroma of 4:2:2 and 4:4:4 is
/// subsampled; grey pictures get grey chroma; packed colour formats become a
/// flat grey picture.
pub fn to_yuv420p(frame: &VideoFrame) -> (picture: Yuv420)
    requires
        frame.convertible(),
    ensures
        picture.y@ == frame.luma(),
        picture.u@ == frame.chroma(1),
        picture.v@ == frame.chroma(2),
{
    let w = frame.width as usize;
    let h = frame.height as usize;
    match frame.format {
        PixelFormat::Yuv420P => {
            let p0 = &frame.planes[0];
            let p1 = &frame.planes[1];
            let p2 = &frame.planes[2];
            Yuv420 {
                y: plane_tight(p0.data.as_slice(), p0.stride, w, h),
                u: plane_tight(p1.data.as_slice(), p1.stride, w / 2, h / 2),
                v: plane_tight(p2.data.as_slice(), p2.stride, w / 2, h / 2),
            }
        },
        PixelFormat::Yuv422P => {
            let p0 = &frame.planes[0];
            Yuv420 {
                y: plane_tight(p0.data.as_slice(), p0.stride, w, h),
                u: downsample_vertical(&frame.planes[1], w / 2, h),
                v: downsample_vertical(&frame.planes[2], w / 2, h),
            }
        },
        PixelFormat::Yuv444P => {
            let p0 = &frame.planes[0];
            Yuv420 {
                y: plane_tight(p0.data.as_slice(), p0.stride, w, h),
                u: downsample_2x2(&frame.planes[1], w, h),
                v: downsample_2x2(&frame.planes[2], w, h),
            }
        },
        PixelFormat::Gray8 => {
            let p0 = &frame.planes[0];
            let len: usize = (w / 2) * (h / 2);
            Yuv420 {
                y: plane_tight(p0.data.as_slice(), p0.stride, w, h),
                u: grey_plane(len),
                v: grey_plane(len),
            }
        },
        PixelFormat::Rgb24 | PixelFormat::Rgba => {
            proof {
                lemma_area(frame.width, frame.height);
            }
            let len: usize = (w / 2) * (h / 2);
            Yuv420 { y: grey_plane(w * h), u: grey_plane(len), v: grey_plane(len) }
        },
    }
}

/// Whether `data` holds `rows` rows in full.
pub open spec fn holds_rows(len: nat, step: nat, need: nat, rows: nat) -> bool {
    rows > 0 ==> (rows - 1) * step + need <= len
}

proof fn lemma_all_rows_are_whole(len: nat, step: nat, need: nat, rows: nat)
    requires
        holds_rows(len, step, need, rows),
    ensures
        rows > 0 ==> whole_rows(len, step, need, rows) == rows,
{
    if rows > 0 {
        assert(0 <= (rows - 1) * step) by (nonlinear_arith)
            requires
                rows >= 1,
        ;
        if step > 0 {
            let spare = (len - need) as nat;
            if rows > 1 {
                lemma_row_count(spare, step, (rows - 1) as nat, rows);
            }
        }
    }
}

proof fn lemma_picked_at(data: Seq<u8>, step: nat, w: nat, skip: nat, rows: nat, x: int, y: int)
    requires
        0 <= x < w,
        0 <= y < rows,
    ensures
        0 <= y * w + x < rows * w,
        picked(data, step, w, skip, rows)[y * w + x] == data[y * step + x * skip],
{
    let k = y * w + x;
    assert(0 <= k < rows * w) by (nonlinear_arith)
        requires
            k == y * w + x,
            0 <= x < w,
            0 <= y,
            y + 1 <= rows,
    ;
    vstd::arithmetic::div_mod::lemma_fundamental_div_mod_converse(k, w as int, y, x);
}

/// A plane that is all there is packed whole: every pixel keeps its place.
pub proof fn law_whole_plane_is_packed(data: Seq<u8>, stride: nat, w: nat, h: nat, x: int, y: int)
    requires
        holds_rows(data.len(), stride, w, h),
        0 <= x < w,
        0 <= y < h,
    ensures
        tight(data, stride, w, h).len() == w * h,
        tight(data, stride, w, h)[y * w + x] == data[y * stride + x],
{
    lemma_all_rows_are_whole(data.len(), stride, w, h);
    lemma_picked_at(data, stride, w, 1, h, x, y);
    assert(h * w == w * h) by (nonlinear_arith);
}

/// A plane of at most `h` rows without padding is packed already.
proof fn lemma_packed_stays(plane: Seq<u8>, w: nat, rows: nat, h: nat)
    requires
        plane.len() == rows * w,
        rows <= h,
    ensures
        tight(plane, w, w, h) == plane,
{
    let again = tight(plane, w, w, h);
    if w == 0 {
        assert(rows * w == 0 && h * w == 0);
        assert(again =~= plane);
    } else if rows == 0 {
        assert(0 * w == 0);
        assert(again =~= plane);
    } else {
        let spare = (rows * w - w) as nat;
        assert(rows * w >= w) by (nonlinear_arith)
            requires
                rows >= 1,
        ;
        assert(spare == (rows - 1) * w + 0) by (nonlinear_arith)
            requires
                spare == rows * w - w,
        ;
        vstd::arithmetic::div_mod::lemma_fundamental_div_mod_converse(
            spare as int,
            w as int,
            rows - 1,
            0,
        );
        assert(whole_rows(plane.len(), w, w, h) == rows);
        assert forall|k: int| 0 <= k < plane.len() implies again[k] == plane[k] by {
            vstd::arithmetic::div_mod::lemma_fundamental_div_mod(k, w as int);
            assert((k / w as int) * w + (k % w as int) * 1 == k) by (nonlinear_arith)
                requires
                    k == w * (k / w as int) + k % w as int,
            ;
        }
        assert(again =~= plane);
    }
}

/// Packing a packed plane changes nothing.
pub proof fn law_packing_twice_is_packing_once(data: Seq<u8>, stride: nat, w: nat, h: nat)
    ensures
        tight(tight(data, stride, w, h), w, w, h) == tight(data, stride, w, h),
{
    let rows = whole_rows(data.len(), stride, w, h);
    lemma_packed_stays(tight(data, stride, w, h), w, rows, h);
}

/// Whether `picture` is the frame as [`to_yuv420p`] leaves it, taken as a
/// 4:2:0 frame of its own.
pub open spec fn is_converted(picture: &VideoFrame, frame: &VideoFrame) -> bool {
    &&& picture.format == PixelFormat::Yuv420P
    &&& picture.width == frame.width
    &&& picture.height == frame.height
    &&& picture.planes@.len() == 3
    &&& picture.planes@[0].stride == frame.width
    &&& picture.planes@[0].data@ == frame.luma()
    &&& forall|plane: int|
        1 <= plane <= 2 ==> {
            &&& (#[trigger] picture.planes@[plane]).stride == frame.width / 2
            &&& picture.planes@[plane].data@ == frame.chroma(plane)
        }
}

/// Converting a converted picture changes nothing.
pub proof fn law_converting_twice_is_converting_once(picture: &VideoFrame, frame: &VideoFrame)
    requires
        is_converted(picture, frame),
    ensures
        picture.convertible(),
        picture.luma() == frame.luma(),
        picture.chroma(1) == frame.chroma(1),
        picture.chroma(2) == frame.chroma(2),
{
    let w = frame.width as nat;
    let h = frame.height as nat;
    let p0 = frame.planes@[0];
    match frame.format {
        PixelFormat::Rgb24 | PixelFormat::Rgba => {
            assert(w * h == h * w && 0 <= w * h) by (nonlinear_arith);
            lemma_packed_stays(frame.luma(), w, h, h);
        },
        _ => {
            let rows = whole_rows(p0.data@.len(), p0.stride as nat, w, h);
            lemma_packed_stays(frame.luma(), w, rows, h);
        },
    }
    lemma_chroma_stays(frame, 1);
    lemma_chroma_stays(frame, 2);
    assert(picture.planes@[1].stride == frame.width / 2);
    assert(picture.planes@[2].stride == frame.width / 2);
}

proof fn lemma_chroma_stays(frame: &VideoFrame, plane: int)
    ensures
        tight(
            frame.chroma(plane),
            (frame.width / 2) as nat,
            (frame.width / 2) as nat,
            (frame.height / 2) as nat,
        ) == frame.chroma(plane),
{
    let w = frame.width as nat;
    let h = frame.height as nat;
    let len = frame.planes@[plane].data@.len();
    let stride = frame.planes@[plane].stride as nat;
    let rows = match frame.format {
        PixelFormat::Yuv420P => whole_rows(len, stride, w / 2, h / 2),
        PixelFormat::Yuv422P => whole_rows(len, 2 * stride, w / 2, h / 2),
        PixelFormat::Yuv444P => whole_rows(len, 2 * stride, w, h / 2),
        _ => h / 2,
    };
    assert((w / 2) * (h / 2) == (h / 2) * (w / 2)) by (nonlinear_arith);
    lemma_packed_stays(frame.chroma(plane), w / 2, rows, h / 2);
}

/// Taking every second row is packing at twice the stride.
pub proof fn law_half_rows_pack_at_twice_the_stride(data: Seq<u8>, stride: nat, w: nat, h: nat)
    ensures
        half_rows(data, stride, w, h) == tight(data, 2 * stride, w, h / 2),
{
}

/// Halving a plane in both directions takes every second byte of each row of
/// the plane packed at twice the stride.
pub proof fn law_half_both_skips_every_second_byte(
    data: Seq<u8>,
    stride: nat,
    w: nat,
    h: nat,
    x: int,
    y: int,
)
    requires
        0 <= x < w / 2,
        0 <= y < whole_rows(data.len(), 2 * stride, w, h / 2),
    ensures
        ({
            let rows = whole_rows(data.len(), 2 * stride, w, h / 2);
            let packed = tight(data, 2 * stride, w, h / 2);
            let halved = half_both(data, stride, w, h);
            &&& packed.len() == rows * w
            &&& halved.len() == rows * (w / 2)
            &&& halved[y * (w / 2) + x] == packed[y * w + 2 * x]
        }),
{
    let rows = whole_rows(data.len(), 2 * stride, w, h / 2);
    lemma_picked_at(data, 2 * stride, w, 1, rows, 2 * x, y);
    lemma_picked_at(data, 2 * stride, w / 2, 2, rows, x, y);
}

/// Whether a chroma plane is all there for the frame's format.
pub open spec fn holds_chroma(frame: &VideoFrame, plane: int) -> bool {
    let len = frame.planes@[plane].data@.len();
    let stride = frame.planes@[plane].stride as nat;
    let w = frame.width as nat;
    let h = frame.height as nat;
    match frame.format {
        PixelFormat::Yuv420P => holds_rows(len, stride, w / 2, h / 2),
        PixelFormat::Yuv422P => holds_rows(len, 2 * stride, w / 2, h / 2),
        PixelFormat::Yuv444P => holds_rows(len, 2 * stride, w, h / 2),
        _ => true,
    }
}

/// Chroma comes out at half size in both directions, rounded down. Pixel
/// `(x, y)` of it is the source's own where the source is already at half
/// size, and its left upper one of each pair or block where it is not; it is
/// grey where the source has no chroma plane.
pub proof fn law_chroma_is_halved(frame: &VideoFrame, plane: int, x: int, y: int)
    requires
        1 <= plane <= 2,
        frame.convertible(),
        holds_chroma(frame, plane),
        0 <= x < frame.width / 2,
        0 <= y < frame.height / 2,
    ensures
        frame.chroma(plane).len() == (frame.width / 2) * (frame.height / 2),
        ({
            let at = frame.chroma(plane)[y * (frame.width / 2) + x];
            let data = frame.planes@[plane].data@;
            let stride = frame.planes@[plane].stride;
            match frame.format {
                PixelFormat::Yuv420P => at == data[y * stride + x],
                PixelFormat::Yuv422P => at == data[2 * y * stride + x],
                PixelFormat::Yuv444P => at == data[2 * y * stride + 2 * x],
                _ => at == GREY,
            }
        }),
{
    let data = frame.planes@[plane].data@;
    let stride = frame.planes@[plane].stride as nat;
    let w = frame.width as nat;
    let h = frame.height as nat;
    assert((h / 2) * (w / 2) == (w / 2) * (h / 2)) by (nonlinear_arith);
    assert(y * (2 * stride) == 2 * y * stride) by (nonlinear_arith);
    match frame.format {
        PixelFormat::Yuv420P => {
            lemma_all_rows_are_whole(data.len(), stride, w / 2, h / 2);
            lemma_picked_at(data, stride, w / 2, 1, h / 2, x, y);
        },
        PixelFormat::Yuv422P => {
            lemma_all_rows_are_whole(data.len(), 2 * stride, w / 2, h / 2);
            lemma_picked_at(data, 2 * stride, w / 2, 1, h / 2, x, y);
        },
        PixelFormat::Yuv444P => {
            lemma_all_rows_are_whole(data.len(), 2 * stride, w, h / 2);
            lemma_picked_at(data, 2 * stride, w / 2, 2, h / 2, x, y);
        },
        _ => {
            lemma_picked_at(data, stride, w / 2, 1, h / 2, x, y);
        },
    }
}

} // verus!
