use oxideplay::frame::{PixelFormat, VideoFrame, VideoPlane};
use oxideplay::sdl2_driver::{present_video, wants_picture, Present, VideoState};
use oxideplay::video_convert::{
    can_convert, downsample_2x2, downsample_vertical, plane_tight, sdl_pixel_format, to_yuv420p,
    TextureFormat,
};

fn plane(stride: usize, data: Vec<u8>) -> VideoPlane {
    VideoPlane { stride, data }
}

#[test]
fn packed_plane_is_copied() {
    let src: Vec<u8> = (0..12).collect();
    assert_eq!(plane_tight(&src, 4, 4, 3), src);
    // Fewer rows than asked for: only whole ones.
    assert_eq!(plane_tight(&src[..11], 4, 4, 3), src[..8].to_vec());
    assert_eq!(plane_tight(&src, 4, 4, 2), src[..8].to_vec());
    assert_eq!(plane_tight(&src, 4, 4, 100), src);
}

#[test]
fn padding_is_dropped() {
    let src = vec![1, 2, 3, 0, 4, 5, 6, 0, 7, 8, 9];
    assert_eq!(plane_tight(&src, 4, 3, 3), vec![1, 2, 3, 4, 5, 6, 7, 8, 9]);
    assert_eq!(plane_tight(&src[..10], 4, 3, 3), vec![1, 2, 3, 4, 5, 6]);
    assert_eq!(plane_tight(&src, 4, 12, 3), Vec::<u8>::new());
}

#[test]
fn degenerate_planes() {
    assert!(plane_tight(&[], 0, 0, 0).is_empty());
    assert!(plane_tight(&[1, 2, 3], 0, 0, 5).is_empty());
    assert!(plane_tight(&[1, 2, 3], 3, 0, 5).is_empty());
    assert!(plane_tight(&[], 4, 4, 2).is_empty());
    // Rows that all start at the same place repeat.
    assert_eq!(plane_tight(&[7, 8, 9], 0, 2, 3), vec![7, 8, 7, 8, 7, 8]);
    // Overlapping rows.
    assert_eq!(plane_tight(&[1, 2, 3, 4], 1, 3, 5), vec![1, 2, 3, 2, 3, 4]);
    // A second row that no data can reach.
    assert_eq!(plane_tight(&[1, 2, 3], usize::MAX, 2, 3), vec![1, 2]);
}

#[test]
fn packing_a_packed_plane_changes_nothing() {
    let src: Vec<u8> = (0..40).collect();
    let once = plane_tight(&src, 7, 5, 9);
    assert_eq!(once.len() % 5, 0);
    assert_eq!(plane_tight(&once, 5, 5, 9), once);
}

#[test]
fn vertical_subsampling_takes_even_rows() {
    let p = plane(3, vec![1, 2, 0, 3, 4, 0, 5, 6, 0, 7, 8, 0]);
    assert_eq!(downsample_vertical(&p, 2, 4), vec![1, 2, 5, 6]);
    assert_eq!(downsample_vertical(&p, 2, 5), vec![1, 2, 5, 6]);
    assert_eq!(downsample_vertical(&p, 2, 1), Vec::<u8>::new());
    let short = plane(3, vec![1, 2, 0, 3, 4, 0, 5]);
    assert_eq!(downsample_vertical(&short, 2, 4), vec![1, 2]);
    assert_eq!(downsample_vertical(&plane(usize::MAX, vec![1, 2]), 2, 4), vec![1, 2]);
    assert!(downsample_vertical(&p, 0, 4).is_empty());
}

#[test]
fn block_subsampling_takes_the_upper_left() {
    let p = plane(4, (0..16).collect());
    assert_eq!(downsample_2x2(&p, 4, 4), vec![0, 2, 8, 10]);
    // Odd sizes are rounded down.
    let odd = plane(5, (0..15).collect());
    assert_eq!(downsample_2x2(&odd, 5, 3), vec![0, 2]);
    // A row counts only at full width.
    let short = plane(4, (0..11).collect());
    assert_eq!(downsample_2x2(&short, 4, 4), vec![0, 2]);
    assert!(downsample_2x2(&p, 1, 4).is_empty());
    assert_eq!(downsample_2x2(&plane(usize::MAX, vec![1, 2, 3]), 3, 4), vec![1]);
}

fn frame(format: PixelFormat, width: u32, height: u32, planes: Vec<VideoPlane>) -> VideoFrame {
    VideoFrame { format, width, height, planes }
}

#[test]
fn converts_420() {
    let f = frame(
        PixelFormat::Yuv420P,
        4,
        2,
        vec![plane(5, (0..10).collect()), plane(2, vec![20, 21]), plane(3, vec![30, 31, 0])],
    );
    assert!(can_convert(&f));
    let p = to_yuv420p(&f);
    assert_eq!(p.y, vec![0, 1, 2, 3, 5, 6, 7, 8]);
    assert_eq!(p.u, vec![20, 21]);
    assert_eq!(p.v, vec![30, 31]);
}

#[test]
fn converts_422() {
    let f = frame(
        PixelFormat::Yuv422P,
        2,
        4,
        vec![
            plane(2, (0..8).collect()),
            plane(1, vec![20, 21, 22, 23]),
            plane(2, vec![30, 0, 31, 0, 32, 0, 33, 0]),
        ],
    );
    let p = to_yuv420p(&f);
    assert_eq!(p.y, (0..8).collect::<Vec<u8>>());
    assert_eq!(p.u, vec![20, 22]);
    assert_eq!(p.v, vec![30, 32]);
}

#[test]
fn converts_444() {
    let f = frame(
        PixelFormat::Yuv444P,
        4,
        2,
        vec![plane(4, (0..8).collect()), plane(4, (20..28).collect()), plane(4, (30..38).collect())],
    );
    let p = to_yuv420p(&f);
    assert_eq!(p.u, vec![20, 22]);
    assert_eq!(p.v, vec![30, 32]);
}

#[test]
fn grey_pictures_get_grey_chroma() {
    let f = frame(PixelFormat::Gray8, 3, 5, vec![plane(3, (0..15).collect())]);
    let p = to_yuv420p(&f);
    assert_eq!(p.y, (0..15).collect::<Vec<u8>>());
    assert_eq!(p.u, vec![128, 128]);
    assert_eq!(p.v, vec![128, 128]);
}

#[test]
fn packed_colour_becomes_flat_grey() {
    for format in [PixelFormat::Rgb24, PixelFormat::Rgba] {
        let f = frame(format, 4, 2, vec![]);
        assert!(can_convert(&f));
        let p = to_yuv420p(&f);
        assert_eq!(p.y, vec![128; 8]);
        assert_eq!(p.u, vec![128; 2]);
        assert_eq!(p.v, vec![128; 2]);
    }
}

#[test]
fn missing_planes_cannot_be_converted() {
    assert!(!can_convert(&frame(PixelFormat::Gray8, 2, 2, vec![])));
    let two = || vec![plane(2, vec![]), plane(1, vec![])];
    for format in [PixelFormat::Yuv420P, PixelFormat::Yuv422P, PixelFormat::Yuv444P] {
        assert!(!can_convert(&frame(format, 2, 2, two())));
    }
    assert!(!can_convert(&frame(PixelFormat::Rgba, u32::MAX, u32::MAX, vec![])));
}

#[test]
fn texture_formats() {
    assert_eq!(sdl_pixel_format(PixelFormat::Yuv420P), TextureFormat::Iyuv);
    assert_eq!(sdl_pixel_format(PixelFormat::Yuv422P), TextureFormat::Iyuv);
    assert_eq!(sdl_pixel_format(PixelFormat::Yuv444P), TextureFormat::Iyuv);
    assert_eq!(sdl_pixel_format(PixelFormat::Gray8), TextureFormat::Iyuv);
    assert_eq!(sdl_pixel_format(PixelFormat::Rgb24), TextureFormat::Iyuv);
    assert_eq!(sdl_pixel_format(PixelFormat::Rgba), TextureFormat::Iyuv);
}

#[test]
fn nothing_is_shown_without_window_or_picture() {
    let f = frame(PixelFormat::Gray8, 2, 2, vec![plane(2, vec![1, 2, 3, 4])]);
    assert!(matches!(present_video(&None, &f), Present::Skip));
    assert!(!wants_picture(&None, 2, 2));
    assert!(wants_picture(&Some(VideoState { texture: None }), 2, 2));
    assert!(!wants_picture(&Some(VideoState { texture: None }), 2, 0));
    let open = Some(VideoState { texture: None });
    let flat = frame(PixelFormat::Gray8, 2, 0, vec![]);
    assert!(matches!(present_video(&open, &flat), Present::Skip));
    let thin = frame(PixelFormat::Gray8, 0, 2, vec![]);
    assert!(matches!(present_video(&open, &thin), Present::Skip));
}

#[test]
fn texture_is_rebuilt_when_the_size_changes() {
    let mut state = VideoState { texture: None };
    let f = frame(PixelFormat::Gray8, 3, 2, vec![plane(3, vec![1, 2, 3, 4, 5, 6])]);
    match present_video(&Some(state), &f) {
        Present::Draw(d) => {
            assert_eq!(d.new_texture, Some(TextureFormat::Iyuv));
            assert_eq!(d.y_pitch, 3);
            assert_eq!(d.uv_pitch, 1);
            assert_eq!(d.picture.y, vec![1, 2, 3, 4, 5, 6]);
            assert_eq!(d.picture.u, vec![128]);
        }
        Present::Skip => panic!("not shown"),
    }
    state.texture_created(3, 2);
    assert_eq!(state.texture, Some((3, 2)));
    match present_video(&Some(state), &f) {
        Present::Draw(d) => assert_eq!(d.new_texture, None),
        Present::Skip => panic!("not shown"),
    }
    let wider = frame(PixelFormat::Rgb24, 4, 2, vec![]);
    match present_video(&Some(state), &wider) {
        Present::Draw(d) => {
            assert_eq!(d.new_texture, Some(TextureFormat::Iyuv));
            assert_eq!(d.picture.y, vec![128; 8]);
            assert_eq!(d.picture.u, vec![128; 2]);
        }
        Present::Skip => panic!("not shown"),
    }
    let taller = frame(PixelFormat::Gray8, 3, 1, vec![plane(3, vec![1, 2, 3])]);
    match present_video(&Some(state), &taller) {
        Present::Draw(d) => assert_eq!(d.new_texture, Some(TextureFormat::Iyuv)),
        Present::Skip => panic!("not shown"),
    }
}

#[test]
fn converting_a_converted_picture_changes_nothing() {
    let bytes = |n: u8| (0..n).collect::<Vec<u8>>();
    for format in [
        PixelFormat::Yuv420P,
        PixelFormat::Yuv422P,
        PixelFormat::Yuv444P,
        PixelFormat::Gray8,
        PixelFormat::Rgb24,
    ] {
        // Odd sides, padded rows, and a last plane that is cut short.
        let planes = vec![plane(7, bytes(35)), plane(6, bytes(30)), plane(6, bytes(11))];
        let once = to_yuv420p(&frame(format, 5, 5, planes));
        let planes = vec![
            plane(5, once.y.clone()),
            plane(2, once.u.clone()),
            plane(2, once.v.clone()),
        ];
        let twice = to_yuv420p(&frame(PixelFormat::Yuv420P, 5, 5, planes));
        assert_eq!(twice.y, once.y);
        assert_eq!(twice.u, once.u);
        assert_eq!(twice.v, once.v);
    }
}

#[test]
fn subsampling_is_packing_at_twice_the_stride() {
    let p = plane(5, (0..40).collect());
    let packed = plane_tight(&p.data, 10, 4, 3);
    assert_eq!(downsample_vertical(&p, 4, 6), packed);
    let every_second: Vec<u8> = packed.iter().step_by(2).copied().collect();
    assert_eq!(downsample_2x2(&p, 4, 6), every_second);
    assert_eq!(every_second, vec![0, 2, 10, 12, 20, 22]);
}
