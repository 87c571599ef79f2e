//! Images and the video player's clock.

use std::collections::VecDeque;

use ribb::app::clipboard_image;
use ribb::cache::{decode_and_resize, ImageCache, ImageKind, ImageState};
use ribb::video::{audio_clock_ms, pack_rows, plan_upload, AudioClock, DecodeLoop, DecodeStep, PlaybackClock, RgbaFrame};

const MS: u64 = 1_000_000;

fn png(width: u32, height: u32) -> Vec<u8> {
    let img = image::RgbaImage::from_fn(width, height, |x, y| image::Rgba([x as u8, y as u8, 7, 255]));
    let mut out = std::io::Cursor::new(Vec::new());
    image::DynamicImage::ImageRgba8(img)
        .write_to(&mut out, image::ImageFormat::Png)
        .unwrap();
    out.into_inner()
}

fn frame(pts_ms: i64) -> RgbaFrame {
    RgbaFrame { width: 1, height: 1, data: vec![0, 0, 0, 255], pts_ms }
}

#[test]
fn image_cache_loads_once_per_kind() {
    let mut cache: ImageCache<u8> = ImageCache::new();
    assert!(cache.begin_load("u", ImageKind::Thumbnail));
    assert!(!cache.begin_load("u", ImageKind::Thumbnail));
    assert!(cache.begin_load("u", ImageKind::Full));
    cache.finish_load("u".into(), ImageKind::Thumbnail, None);
    assert!(matches!(cache.get("u", ImageKind::Thumbnail), Some(ImageState::Failed)));
    assert!(!cache.begin_load("u", ImageKind::Thumbnail));
    assert!(cache.get("v", ImageKind::Full).is_none());
}

#[test]
fn decode_keeps_small_images_and_shrinks_large_ones() {
    let bytes = png(8, 4);
    let same = decode_and_resize(&bytes, Some(8), true).unwrap();
    assert_eq!((same.width, same.height), (8, 4));
    assert_eq!(same.rgba.len(), 8 * 4 * 4);
    assert_eq!(&same.rgba[0..4], &[0, 0, 7, 255]);
    let full = decode_and_resize(&bytes, None, false).unwrap();
    assert_eq!((full.width, full.height), (8, 4));
    let lanczos = decode_and_resize(&bytes, Some(4), true).unwrap();
    assert_eq!((lanczos.width, lanczos.height), (4, 2));
    assert_eq!(lanczos.rgba.len(), 4 * 2 * 4);
    let thumb = decode_and_resize(&bytes, Some(2), false).unwrap();
    assert_eq!((thumb.width, thumb.height), (2, 1));
    assert!(decode_and_resize(b"not an image", Some(2), false).is_none());
}

#[test]
fn shrunk_images_fit_with_aspect_kept() {
    for hq in [true, false] {
        let wide = decode_and_resize(&png(300, 100), Some(64), hq).unwrap();
        assert_eq!((wide.width, wide.height), (64, 21));
        assert_eq!(wide.rgba.len(), 64 * 21 * 4);
        let tall = decode_and_resize(&png(100, 300), Some(64), hq).unwrap();
        assert_eq!((tall.width, tall.height), (21, 64));
        assert_eq!(tall.rgba.len(), 21 * 64 * 4);
        let thin = decode_and_resize(&png(40, 1), Some(8), hq).unwrap();
        assert_eq!((thin.width, thin.height), (8, 1));
        assert_eq!(thin.rgba.len(), 8 * 4);
    }
}

#[test]
fn sixteen_bit_images_are_resized_before_conversion() {
    let img = image::ImageBuffer::<image::Rgba<u16>, Vec<u16>>::from_fn(30, 10, |x, y| {
        image::Rgba([(x * 2100) as u16 + 37, (y * 6500) as u16 + 129, 1000, 65535])
    });
    let mut out = std::io::Cursor::new(Vec::new());
    image::DynamicImage::ImageRgba16(img).write_to(&mut out, image::ImageFormat::Png).unwrap();
    let bytes = out.into_inner();
    let loaded = image::load_from_memory(&bytes).unwrap();
    let lanczos = loaded.resize(7, 7, image::imageops::FilterType::Lanczos3).to_rgba8();
    let thumb = loaded.thumbnail(7, 7).to_rgba8();
    let full = decode_and_resize(&bytes, Some(7), true).unwrap();
    assert_eq!((full.width, full.height), (lanczos.width(), lanczos.height()));
    assert_eq!(full.rgba, lanczos.into_raw());
    let small = decode_and_resize(&bytes, Some(7), false).unwrap();
    assert_eq!((small.width, small.height), (thumb.width(), thumb.height()));
    assert_eq!(small.rgba, thumb.into_raw());
    assert_eq!((small.width, small.height), (7, 2));
}

#[test]
fn clipboard_image_is_full_size() {
    let c = clipboard_image(&png(3, 5)).unwrap();
    assert_eq!((c.width(), c.height()), (3, 5));
    assert_eq!(c.into_rgba().len(), 3 * 5 * 4);
    assert!(clipboard_image(&[1, 2, 3]).is_none());
}

#[test]
fn pack_rows_drops_padding() {
    // two rows of one pixel, each padded to 6 bytes
    let src = [1, 2, 3, 4, 9, 9, 5, 6, 7, 8, 9, 9];
    assert_eq!(pack_rows(&src, 6, 1, 2), vec![1, 2, 3, 4, 5, 6, 7, 8]);
    assert_eq!(pack_rows(&src, 6, 1, 0), Vec::<u8>::new());
}

#[test]
fn audio_clock() {
    assert_eq!(audio_clock_ms(48_000, 48_000), 1_000);
    assert_eq!(audio_clock_ms(24_000, 48_000), 500);
    assert_eq!(audio_clock_ms(5, 0), 0);
}

#[test]
fn wall_clock_runs_pauses_and_resumes() {
    let mut c = PlaybackClock::new();
    let mut q: VecDeque<RgbaFrame> = VecDeque::new();
    q.push_back(frame(0));
    q.push_back(frame(100));
    q.push_back(frame(200));
    q.push_back(frame(900));
    // the first frame shows at once
    assert_eq!(c.tick(&mut q, false, 0, None).map(|f| f.pts_ms), Some(0));
    assert!(c.has_frame());
    // nothing moves until the input is open
    assert!(c.tick(&mut q, false, 500 * MS, None).is_none());
    // the wall clock anchors on the first open tick
    assert!(c.tick(&mut q, true, 1_000 * MS, None).is_none());
    assert_eq!(c.position_ms(1_000 * MS, None), 0);
    // 250 ms later the frames at 100 and 200 are due; the later one shows
    assert_eq!(c.tick(&mut q, true, 1_250 * MS, None).map(|f| f.pts_ms), Some(200));
    assert_eq!(q.len(), 1);
    assert_eq!(c.version(), 3);
    // pausing freezes the position
    c.toggle_playing(1_300 * MS, None);
    assert!(!c.is_playing());
    assert_eq!(c.position_ms(9_000 * MS, None), 300);
    // resuming continues from there
    c.toggle_playing(10_000 * MS, None);
    assert_eq!(c.position_ms(10_500 * MS, None), 800);
    c.toggle_muted();
    assert!(c.is_muted());
}

#[test]
fn audio_clock_drives_position() {
    let c = PlaybackClock::new();
    let a = AudioClock { frames_played: 96_000, sample_rate: 48_000 };
    assert_eq!(c.position_ms(0, Some(a)), 2_000);
    let a = AudioClock { frames_played: 480, sample_rate: 0 };
    assert_eq!(c.position_ms(0, Some(a)), 480_000);
}

#[test]
fn seek_stays_in_the_current_loop() {
    let mut c = PlaybackClock::new();
    let mut q: VecDeque<RgbaFrame> = VecDeque::new();
    q.push_back(frame(0));
    c.tick(&mut q, true, 0, None);
    c.tick(&mut q, true, 0, None);
    // 2.5 loops of a 1 s clip played
    assert_eq!(c.position_ms(2_500 * MS, None), 2_500);
    assert_eq!(c.seek(300, 1_000, 2_500 * MS, None, Some(777)), Some(2_300));
    assert_eq!(c.position_ms_in_loop(1_000), 300);
    assert_eq!(c.position_ms(2_600 * MS, None), 2_400);
    // clamped to the clip
    assert_eq!(c.seek(-5, 1_000, 2_600 * MS, None, None), Some(2_000));
    assert_eq!(c.seek(5_000, 1_000, 2_600 * MS, None, None), Some(3_000));
    // unknown duration: no seek
    assert_eq!(c.seek(5, 0, 2_600 * MS, None, None), None);
    assert_eq!(c.position_ms_in_loop(0), 0);
}

#[test]
fn seek_clamps_and_keeps_controls() {
    let mut c = PlaybackClock::new();
    let mut q: VecDeque<RgbaFrame> = VecDeque::new();
    q.push_back(frame(0));
    c.tick(&mut q, true, 0, None);
    c.tick(&mut q, true, 0, None);
    let (playing, muted) = (c.is_playing(), c.is_muted());
    assert_eq!(c.seek(-5, 1_000, 2_500 * MS, None, None), Some(2_000));
    assert_eq!(c.position_ms_in_loop(1_000), 0);
    assert_eq!(c.seek(5_000, 1_000, 2_500 * MS, None, None), Some(3_000));
    assert_eq!(c.position_ms_in_loop(1_000), 0);
    assert_eq!(c.seek(999, 1_000, 2_500 * MS, None, None), Some(3_999));
    assert_eq!(c.position_ms_in_loop(1_000), 999);
    assert_eq!((c.is_playing(), c.is_muted()), (playing, muted));
}

#[test]
fn plan_upload_decisions() {
    assert_eq!(plan_upload(None, 4, 3, 7), (true, true));
    assert_eq!(plan_upload(Some((4, 3, 7)), 4, 3, 7), (false, false));
    assert_eq!(plan_upload(Some((4, 3, 6)), 4, 3, 7), (false, true));
    assert_eq!(plan_upload(Some((5, 3, 7)), 4, 3, 7), (true, true));
    assert_eq!(plan_upload(Some((4, 3, 7)), 4, 2, 7), (true, true));
}

#[test]
fn decode_loop_seeks_waits_and_loops() {
    let mut d = DecodeLoop::new(1_000, 0);
    assert_eq!(d.next(false, 0, 0, false, true), DecodeStep::Read);
    assert_eq!(d.next(false, 0, 0, true, true), DecodeStep::Wait);
    // a seek request lands within the clip, the pass starting at the rest
    assert_eq!(d.next(false, 1, 2_300, true, true), DecodeStep::Seek { file_ms: 300 });
    assert_eq!(d.pts_offset(), 2_000);
    // the same request is answered once
    assert_eq!(d.next(false, 1, 2_300, false, false), DecodeStep::Read);
    assert_eq!(d.next(false, 2, -50, false, false), DecodeStep::Seek { file_ms: 0 });
    assert_eq!(d.pts_offset(), 0);
    assert!(d.end_of_pass());
    assert_eq!(d.pts_offset(), 1_000);
    assert_eq!(d.next(true, 9, 0, false, false), DecodeStep::Quit);
    let mut unknown = DecodeLoop::new(0, 0);
    assert_eq!(unknown.next(false, 1, 500, false, false), DecodeStep::Skip);
    assert!(!unknown.end_of_pass());
}
