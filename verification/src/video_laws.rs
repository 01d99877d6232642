//! What conversion of video gives, pixel by pixel, and what is shown. Each
//! law speaks of a call that returned the value it names, over the bytes of
//! the planes that went in.

use crate::frame::{PixelFormat, VideoFrame, VideoPlane};
use crate::sdl2_driver::{Present, VideoState};
use crate::video_convert::{TextureFormat, Yuv420};
use vstd::prelude::*;

verus! {

proof fn lemma_whole_rows(len: nat, step: nat, need: nat, h: nat, rows: int)
    requires
        0 <= rows <= h,
        rows > 0 ==> (rows - 1) * step + need <= len,
        rows < h ==> rows * step + need > len,
    ensures
        crate::video_convert::whole_rows(len, step, need, h) == rows,
{
    let spare = len - need;
    if spare < 0 {
        if rows > 0 {
            assert(0 <= (rows - 1) * step) by (nonlinear_arith)
                requires
                    rows >= 1,
                    step >= 0,
            ;
        }
    } else if step == 0 {
        assert(rows * 0 == 0);
    } else {
        let q = spare / step as int;
        vstd::arithmetic::div_mod::lemma_fundamental_div_mod(spare, step as int);
        assert(step * q <= spare < step * (q + 1)) by (nonlinear_arith)
            requires
                spare == step * q + spare % step as int,
                0 <= spare % step as int,
                (spare % step as int) < step,
        ;
        assert(q >= 0) by (nonlinear_arith)
            requires
                0 <= spare < step * (q + 1),
                step > 0,
        ;
        if rows > 0 {
            assert(rows - 1 <= q) by (nonlinear_arith)
                requires
                    (rows - 1) * step <= spare,
                    spare < step * (q + 1),
                    step > 0,
            ;
        }
        if rows < h {
            assert(rows > q) by (nonlinear_arith)
                requires
                    rows * step > spare,
                    step * q <= spare,
                    step > 0,
            ;
        }
    }
}

proof fn lemma_pixel(data: Seq<u8>, step: nat, w: nat, skip: nat, rows: int, x: int, y: int)
    requires
        0 <= x < w,
        0 <= y < rows,
    ensures
        0 <= y * w + x < rows * w,
        crate::video_convert::picked(data, step, w, skip, rows as nat)[y * w + x] == data[y * step
            + x * skip],
{
    let k = y * w + x;
    assert(0 <= k < rows * w) by (nonlinear_arith)
        requires
            k == y * w + x,
            0 <= x < w,
            0 <= y,
            y + 1 <= rows,
    ;
    vstd::arithmetic::div_mod::lemma_fundamental_div_mod_converse(k, w as int, y, x);
}

/// Packing a plane keeps every pixel of every whole row in its place and
/// leaves out the rows that the data does not hold: of `h` rows it keeps
/// `rows`, where the last of these lies wholly within the data, and the next,
/// if there is one to come, does not.
pub proof fn law_packing_keeps_whole_rows(
    src: &[u8],
    stride: usize,
    w: usize,
    h: usize,
    out: Vec<u8>,
    rows: int,
    x: int,
    y: int,
)
    requires
        call_ensures(crate::video_convert::plane_tight, (src, stride, w, h), out),
        0 <= rows <= h,
        rows > 0 ==> (rows - 1) * stride + w <= src@.len(),
        rows < h ==> rows * stride + w > src@.len(),
    ensures
        out@.len() == rows * w,
        0 <= x < w && 0 <= y < rows ==> 0 <= y * w + x < out@.len() && out@[y * w + x] == src@[y
            * stride + x],
{
    lemma_whole_rows(src@.len(), stride as nat, w as nat, h as nat, rows);
    if 0 <= x < w && 0 <= y < rows {
        lemma_pixel(src@, stride as nat, w as nat, 1, rows, x, y);
    }
}

/// Halving a plane's height keeps every pixel of each even row, as far as
/// the data holds these rows.
pub proof fn law_halving_height_keeps_even_rows(
    plane: &VideoPlane,
    out_w: usize,
    in_h: usize,
    out: Vec<u8>,
    rows: int,
    x: int,
    y: int,
)
    requires
        call_ensures(crate::video_convert::downsample_vertical, (plane, out_w, in_h), out),
        0 <= rows <= in_h as int / 2,
        rows > 0 ==> (rows - 1) * (2 * plane.stride) + out_w <= plane.data@.len(),
        rows < in_h as int / 2 ==> rows * (2 * plane.stride) + out_w > plane.data@.len(),
    ensures
        out@.len() == rows * out_w,
        0 <= x < out_w && 0 <= y < rows ==> 0 <= y * out_w + x < out@.len() && out@[y * out_w + x]
            == plane.data@[2 * y * plane.stride + x],
{
    let step = (2 * plane.stride) as nat;
    lemma_whole_rows(plane.data@.len(), step, out_w as nat, (in_h / 2) as nat, rows);
    if 0 <= x < out_w && 0 <= y < rows {
        lemma_pixel(plane.data@, step, out_w as nat, 1, rows, x, y);
        assert(y * step == 2 * y * plane.stride) by (nonlinear_arith)
            requires
                step == 2 * plane.stride,
        ;
    }
}

/// Halving a plane in both directions keeps the upper left pixel of each
/// block of four, as far as the data holds the blocks' upper rows at full
/// width.
pub proof fn law_halving_both_keeps_the_upper_left(
    plane: &VideoPlane,
    in_w: usize,
    in_h: usize,
    out: Vec<u8>,
    rows: int,
    x: int,
    y: int,
)
    requires
        call_ensures(crate::video_convert::downsample_2x2, (plane, in_w, in_h), out),
        0 <= rows <= in_h as int / 2,
        rows > 0 ==> (rows - 1) * (2 * plane.stride) + in_w <= plane.data@.len(),
        rows < in_h as int / 2 ==> rows * (2 * plane.stride) + in_w > plane.data@.len(),
    ensures
        out@.len() == rows * (in_w as int / 2),
        0 <= x < in_w as int / 2 && 0 <= y < rows ==> 0 <= y * (in_w as int / 2) + x < out@.len()
            && out@[y * (in_w as int / 2) + x] == plane.data@[2 * y * plane.stride + 2 * x],
{
    let step = (2 * plane.stride) as nat;
    let w = (in_w / 2) as nat;
    lemma_whole_rows(plane.data@.len(), step, in_w as nat, (in_h / 2) as nat, rows);
    if 0 <= x < w && 0 <= y < rows {
        lemma_pixel(plane.data@, step, w, 2, rows, x, y);
        assert(y * step == 2 * y * plane.stride) by (nonlinear_arith)
            requires
                step == 2 * plane.stride,
        ;
    }
}

/// The luma of a planar or grey frame is its first plane, pixel by pixel,
/// and as large as the picture; where the data ends early, it has the
/// `rows` rows that the data holds.
pub proof fn law_luma_is_the_first_plane(
    frame: &VideoFrame,
    picture: Yuv420,
    rows: int,
    x: int,
    y: int,
)
    requires
        call_ensures(crate::video_convert::to_yuv420p, (frame,), picture),
        frame.format == PixelFormat::Yuv420P || frame.format == PixelFormat::Yuv422P
            || frame.format == PixelFormat::Yuv444P || frame.format == PixelFormat::Gray8,
        0 <= rows <= frame.height,
        rows > 0 ==> (rows - 1) * frame.planes@[0].stride + frame.width
            <= frame.planes@[0].data@.len(),
        rows < frame.height ==> rows * frame.planes@[0].stride + frame.width
            > frame.planes@[0].data@.len(),
    ensures
        picture.y@.len() == rows * frame.width,
        0 <= x < frame.width && 0 <= y < rows ==> {
            &&& 0 <= y * frame.width + x < picture.y@.len()
            &&& picture.y@[y * frame.width + x] == frame.planes@[0].data@[y
                * frame.planes@[0].stride + x]
        },
{
    let data = frame.planes@[0].data@;
    let stride = frame.planes@[0].stride as nat;
    let w = frame.width as nat;
    lemma_whole_rows(data.len(), stride, w, frame.height as nat, rows);
    if 0 <= x < w && 0 <= y < rows {
        lemma_pixel(data, stride, w, 1, rows, x, y);
    }
}

/// The two chroma planes come from the source's second and third, at half
/// size in both directions, rounded down. A source at that size is taken
/// pixel by pixel; of one at half the width, each even row is; and of one at
/// full size, the upper left pixel of each block of four. Where the data ends
/// early, there are the `rows` rows that it holds.
pub proof fn law_chroma_comes_from_its_own_plane(
    frame: &VideoFrame,
    picture: Yuv420,
    plane: int,
    out: Seq<u8>,
    w: int,
    h: int,
    step: int,
    need: int,
    rows: int,
    x: int,
    y: int,
)
    requires
        call_ensures(crate::video_convert::to_yuv420p, (frame,), picture),
        plane == 1 && out == picture.u@ || plane == 2 && out == picture.v@,
        w == frame.width as int / 2,
        h == frame.height as int / 2,
        match frame.format {
            PixelFormat::Yuv420P => step == frame.planes@[plane].stride && need == w,
            PixelFormat::Yuv422P => step == 2 * frame.planes@[plane].stride && need == w,
            PixelFormat::Yuv444P => step == 2 * frame.planes@[plane].stride && need == frame.width,
            _ => false,
        },
        0 <= rows <= h,
        rows > 0 ==> (rows - 1) * step + need <= frame.planes@[plane].data@.len(),
        rows < h ==> rows * step + need > frame.planes@[plane].data@.len(),
    ensures
        out.len() == rows * w,
        0 <= x < w && 0 <= y < rows ==> {
            &&& 0 <= y * w + x < out.len()
            &&& out[y * w + x] == frame.planes@[plane].data@[y * step + (if frame.format
                == PixelFormat::Yuv444P {
                2 * x
            } else {
                x
            })]
        },
{
    let data = frame.planes@[plane].data@;
    let skip: nat = if frame.format == PixelFormat::Yuv444P {
        2
    } else {
        1
    };
    lemma_whole_rows(data.len(), step as nat, need as nat, h as nat, rows);
    if 0 <= x < w && 0 <= y < rows {
        lemma_pixel(data, step as nat, w as nat, skip, rows, x, y);
    }
}

/// What a frame has no plane for is a flat grey of the right size: the
/// chroma of a grey frame, and everything of a packed colour frame.
pub proof fn law_missing_planes_are_grey(frame: &VideoFrame, picture: Yuv420, k: int)
    requires
        call_ensures(crate::video_convert::to_yuv420p, (frame,), picture),
    ensures
        frame.format == PixelFormat::Gray8 || frame.format == PixelFormat::Rgb24 || frame.format
            == PixelFormat::Rgba ==> {
            &&& picture.u@.len() == (frame.width as int / 2) * (frame.height as int / 2)
            &&& picture.v@.len() == (frame.width as int / 2) * (frame.height as int / 2)
            &&& 0 <= k < picture.u@.len() ==> picture.u@[k] == 128 && picture.v@[k] == 128
        },
        frame.format == PixelFormat::Rgb24 || frame.format == PixelFormat::Rgba ==> {
            &&& picture.y@.len() == frame.width * frame.height
            &&& 0 <= k < picture.y@.len() ==> picture.y@[k] == 128
        },
{
    let w = frame.width as int;
    let h = frame.height as int;
    assert(0 <= w * h && 0 <= (w / 2) * (h / 2)) by (nonlinear_arith)
        requires
            w >= 0,
            h >= 0,
            w / 2 >= 0,
            h / 2 >= 0,
    ;
}

/// Every pixel format is shown through a planar texture.
pub proof fn law_textures_are_planar(format: PixelFormat, texture: TextureFormat)
    requires
        call_ensures(crate::video_convert::sdl_pixel_format, (format,), texture),
    ensures
        texture == TextureFormat::Iyuv,
{
}

/// Every frame with the planes of its format can be converted and shown,
/// apart from grey planes that do not fit in memory; without a window, or
/// without a picture, nothing is asked of the frame.
pub proof fn law_frames_with_their_planes_can_be_shown(
    frame: &VideoFrame,
    video: &Option<VideoState>,
    ok: bool,
)
    requires
        call_ensures(crate::video_convert::can_convert, (frame,), ok),
    ensures
        ok <==> match frame.format {
            PixelFormat::Yuv420P | PixelFormat::Yuv422P | PixelFormat::Yuv444P => {
                frame.planes@.len() >= 3
            },
            PixelFormat::Gray8 => frame.planes@.len() >= 1 && (frame.width as int / 2) * (
            frame.height as int / 2) <= isize::MAX,
            PixelFormat::Rgb24 | PixelFormat::Rgba => frame.width * frame.height <= isize::MAX,
        },
        ok ==> call_requires(crate::video_convert::to_yuv420p, (frame,)),
        ok || *video is None || frame.width == 0 || frame.height == 0 ==> call_requires(
            crate::sdl2_driver::present_video,
            (video, frame),
        ),
{
}

/// A frame is shown exactly where there is a window and the picture has
/// pixels. What is shown is the frame as it is converted, with rows as long
/// as the picture is wide and chroma rows half of that. A planar texture is
/// built where there is none, or one of another width or height, and only
/// there.
pub proof fn law_present_shows_the_frame(
    video: &Option<VideoState>,
    frame: &VideoFrame,
    present: Present,
    wanted: bool,
    picture: Yuv420,
)
    requires
        call_ensures(crate::sdl2_driver::present_video, (video, frame), present),
        call_ensures(
            crate::sdl2_driver::wants_picture,
            (video, frame.width, frame.height),
            wanted,
        ),
        call_ensures(crate::video_convert::to_yuv420p, (frame,), picture),
    ensures
        wanted <==> *video is Some && frame.width != 0 && frame.height != 0,
        present is Draw <==> wanted,
        present matches Present::Draw(d) ==> {
            &&& d.y_pitch == frame.width
            &&& d.uv_pitch == frame.width as int / 2
            &&& d.picture.y@ == picture.y@
            &&& d.picture.u@ == picture.u@
            &&& d.picture.v@ == picture.v@
            &&& *video matches Some(state) ==> d.new_texture == (match state.texture {
                Some((w, h)) if w == frame.width && h == frame.height => None,
                _ => Some(TextureFormat::Iyuv),
            })
        },
{
}

} // verus!
