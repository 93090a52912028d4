use aperture::coordinator::{Command, DecodeCoordinator, DecodeRequest, DecodeResponse, Progress};
use aperture::decode::{
    bgra_to_rgba, buffer_len, sample_luminance, source_size, target_box, CodecProbe, CodecRoute,
    DecodedPixels, DecodedSize, ImageLoadResult,
};
use aperture::fs::{DirEntry, FileMeta, Listing};
use aperture::loader::{load_pixels, IImageLoader, WicLoader, DEFAULT_MAX_DIM};
use aperture::nav::{NavigationDirection, NavigationService};
use aperture::path::FilePath;
use aperture::precache::{full_clamp, low_clamp, tier_at_least, PredecodeCache, Tier, LOW_RES_DIM};
use aperture::viewer::{Direct2DViewer, SlideDir, RETIRE_FRAME_BUDGET};
use std::sync::Arc;

fn p(names: &[&str]) -> FilePath {
    let mut f = FilePath::drive_root("C:".to_string());
    for n in names {
        f = f.join(n);
    }
    f
}

fn nav_with(names: &[&str]) -> NavigationService {
    let mut v = Vec::new();
    for (i, n) in names.iter().enumerate() {
        v.push(DirEntry {
            path: p(&["pics", n]),
            is_file: true,
            is_dir: false,
            hidden: false,
            meta: Some(FileMeta { len: 1, modified: 100 + i as i128 }),
        });
    }
    let mut nav = NavigationService::new();
    assert!(nav.navigate_folder(p(&["pics"]), Listing::Entries(v)).is_ok());
    nav
}

fn decodes(commands: &[Command<u32>]) -> Vec<&DecodeRequest> {
    let mut out = Vec::new();
    for c in commands {
        if let Command::Decode(r) = c {
            out.push(r);
        }
    }
    out
}

fn shown(commands: &[Command<u32>]) -> Vec<(u32, SlideDir)> {
    let mut out = Vec::new();
    for c in commands {
        if let Command::Show(img, dir) = c {
            out.push((**img, *dir));
        }
    }
    out
}

fn landed(r: &DecodeRequest, image: u32) -> Progress<u32> {
    Progress::Landed(DecodeResponse {
        id: r.id,
        path: r.path.clone(),
        result: ImageLoadResult::decoded(
            r.path.display(),
            DecodedSize { width: 1, height: 1, source_width: 1, source_height: 1 },
        ),
        direction: r.direction,
        gpu_image: Some(Arc::new(image)),
    })
}

fn failed(r: &DecodeRequest) -> Progress<u32> {
    Progress::Landed(DecodeResponse {
        id: r.id,
        path: r.path.clone(),
        result: ImageLoadResult::failed(r.path.display(), "broken".to_string()),
        direction: r.direction,
        gpu_image: None,
    })
}

#[test]
fn full_size_is_clamped() {
    assert_eq!(full_clamp(100, 8192), 1080);
    assert_eq!(full_clamp(540, 8192), 1080);
    assert_eq!(full_clamp(1000, 8192), 2000);
    assert_eq!(full_clamp(3000, 8192), 4096);
    assert_eq!(full_clamp(3000, 2048), 2048);
    assert_eq!(full_clamp(1, 1080), 1080);
    // A small device has the last word.
    assert_eq!(full_clamp(1, 1079), 1079);
    assert_eq!(full_clamp(5000, 512), 512);
    assert_eq!(full_clamp(0, 1), 1);
    assert_eq!(low_clamp(8192), LOW_RES_DIM);
    assert_eq!(low_clamp(512), 512);
}

#[test]
fn a_small_device_is_never_asked_for_more() {
    let nav = nav_with(&["a.jpg", "b.jpg", "c.jpg"]);
    let mut c: DecodeCoordinator<u32> = DecodeCoordinator::new(512);
    let (_, todo) = c.request_current(&nav, (1000, 800), SlideDir::Next);
    let main = landed(decodes(&todo)[0], 1);
    assert_eq!(decodes(&todo)[0].width, 512);
    let (_, todo) = c.advance(&nav, (1000, 800), Vec::new(), main);
    assert_eq!(decodes(&todo).len(), 3);
    assert!(decodes(&todo).iter().all(|r| r.width == 512 && r.height == 512));
}

#[test]
fn a_low_job_is_no_full_one() {
    let mut nav = nav_with(&["a.jpg", "b.jpg", "c.jpg", "d.jpg", "e.jpg"]);
    let mut c: DecodeCoordinator<u32> = DecodeCoordinator::new(8192);
    c.predecode_adjacent(&nav, (1000, 800));
    let (pics_c, pics_d) = (p(&["pics", "c.jpg"]), p(&["pics", "d.jpg"]));
    assert!(c.prefetch_jobs().contains(&(pics_c.clone(), Tier::Low)));
    // The low decode of an image that becomes the current one is still running when
    // that image has landed: the full one is started all the same.
    nav.set_index(2);
    let (_, todo) = c.request_current(&nav, (1000, 800), SlideDir::Next);
    let main = landed(decodes(&todo)[0], 7);
    let running = vec![Progress::Running, Progress::Running, Progress::Running, Progress::Running];
    let (id, todo) = c.poll(&nav, (1000, 800), running, main);
    assert_eq!(id, Some(1));
    let d = decodes(&todo);
    assert_eq!(d.len(), 1);
    assert_eq!((d[0].path.clone(), d[0].tier, d[0].width), (pics_c.clone(), Tier::Full, 2000));
    let jobs = c.prefetch_jobs();
    assert_eq!(jobs.len(), 5);
    assert_eq!(jobs[2], (pics_d, Tier::Low));
    assert_eq!(jobs[3], (pics_c.clone(), Tier::Low));
    assert_eq!(jobs[4], (pics_c, Tier::Full));
    // It sharpens what is on the screen; the low one, which lands later, does not.
    let full = landed(d[0], 8);
    let found =
        vec![Progress::Running, Progress::Running, Progress::Running, Progress::Running, full];
    let (_, todo) = c.poll(&nav, (1000, 800), found, Progress::Running);
    assert_eq!(shown(&todo), vec![(8, SlideDir::NoSlide)]);
}

#[test]
fn a_following_full_decode_keeps_its_own_stamp() {
    let mut nav = nav_with(&["a.jpg", "b.jpg"]);
    let mut c: DecodeCoordinator<u32> = DecodeCoordinator::new(8192);
    let (_, todo) = c.request_current(&nav, (1000, 800), SlideDir::Next);
    let main = landed(decodes(&todo)[0], 1);
    // Another image, with another stamp, has become the current one.
    nav.set_index(1);
    let (_, todo) = c.poll(&nav, (1000, 800), Vec::new(), main);
    let full = landed(decodes(&todo)[0], 2);
    c.poll(&nav, (1000, 800), vec![full], Progress::Running);
    // The full image is found under the stamp of the file it is of.
    nav.set_index(0);
    let (id, todo) = c.request_current(&nav, (1000, 800), SlideDir::Next);
    assert_eq!((id, shown(&todo)), (0, vec![(2, SlideDir::Next)]));
}

#[test]
fn no_size_is_needed_where_none_is_computed() {
    let nav = nav_with(&["a.jpg"]);
    let mut c: DecodeCoordinator<u32> = DecodeCoordinator::new(8192);
    // The low decode of a first request does not depend on the viewport.
    let huge = (u32::MAX, u32::MAX);
    let (id, todo) = c.request_current(&nav, huge, SlideDir::Next);
    assert_eq!((id, decodes(&todo)[0].width), (1, LOW_RES_DIM));
    // Nor does a request that waits, or a look that finds nothing.
    assert_eq!(c.request_current(&nav, huge, SlideDir::Next).0, 0);
    assert_eq!(c.poll(&nav, huge, Vec::new(), Progress::Running).0, None);
    assert!(c.predecode_adjacent(&NavigationService::new(), huge).is_empty());
}

#[test]
fn neighbours_follow_a_landing() {
    let nav = nav_with(&["a.jpg", "b.jpg", "c.jpg", "d.jpg", "e.jpg"]);
    let mut c: DecodeCoordinator<u32> = DecodeCoordinator::new(8192);
    let (_, todo) = c.request_current(&nav, (1000, 800), SlideDir::Next);
    let main = landed(decodes(&todo)[0], 1);
    let (id, todo) = c.advance(&nav, (1000, 800), Vec::new(), Progress::Running);
    assert_eq!((id, todo.len()), (None, 0));
    let (id, todo) = c.advance(&nav, (1000, 800), Vec::new(), main);
    assert_eq!(id, Some(1));
    assert_eq!(shown(&todo), vec![(1, SlideDir::NoSlide)]);
    let d = decodes(&todo);
    let names: Vec<&str> = d.iter().map(|r| r.path.file_name().unwrap()).collect();
    assert_eq!(names, vec!["a.jpg", "e.jpg", "b.jpg", "d.jpg", "c.jpg"]);
    let tiers: Vec<Tier> = d.iter().map(|r| r.tier).collect();
    assert_eq!(tiers, vec![Tier::Full, Tier::Full, Tier::Full, Tier::Low, Tier::Low]);
}

#[test]
fn tiers_serve_what_is_asked() {
    assert!(tier_at_least(Tier::Full, Tier::Full));
    assert!(tier_at_least(Tier::Full, Tier::Low));
    assert!(tier_at_least(Tier::Low, Tier::Low));
    assert!(!tier_at_least(Tier::Low, Tier::Full));
}

#[test]
fn the_cache_gives_what_was_put_in() {
    let mut c: PredecodeCache<u32> = PredecodeCache::new(3);
    c.insert(p(&["a"]), 1, Arc::new(10), Tier::Full);
    assert!(c.contains(&p(&["a"]), 1, Tier::Full));
    assert!(!c.contains(&p(&["a"]), 2, Tier::Full));
    assert_eq!(c.take(&p(&["a"]), 1, Tier::Full), Some(Arc::new(10)));
    assert_eq!(c.take(&p(&["a"]), 1, Tier::Low), None);
}

#[test]
fn a_low_image_is_no_answer_for_a_full_one() {
    let mut c: PredecodeCache<u32> = PredecodeCache::new(3);
    c.insert(p(&["a"]), 1, Arc::new(10), Tier::Low);
    assert_eq!(c.take(&p(&["a"]), 1, Tier::Full), None);
    // A full image replaces the low one; a low one then changes nothing.
    c.insert(p(&["a"]), 1, Arc::new(11), Tier::Full);
    c.insert(p(&["a"]), 1, Arc::new(12), Tier::Low);
    assert_eq!(c.take(&p(&["a"]), 1, Tier::Full), Some(Arc::new(11)));
    assert!(!c.contains(&p(&["a"]), 1, Tier::Low));
}

#[test]
fn the_cache_drops_the_oldest() {
    let mut c: PredecodeCache<u32> = PredecodeCache::new(2);
    c.insert(p(&["a"]), 1, Arc::new(1), Tier::Full);
    c.insert(p(&["b"]), 1, Arc::new(2), Tier::Full);
    // Putting a full image in again moves it to the front.
    c.insert(p(&["a"]), 1, Arc::new(3), Tier::Full);
    c.insert(p(&["c"]), 1, Arc::new(4), Tier::Low);
    assert!(!c.contains(&p(&["b"]), 1, Tier::Low));
    assert_eq!(c.take(&p(&["a"]), 1, Tier::Full), Some(Arc::new(3)));
    c.clear();
    assert!(!c.contains(&p(&["c"]), 1, Tier::Low));
    let mut one: PredecodeCache<u32> = PredecodeCache::new(0);
    one.insert(p(&["a"]), 1, Arc::new(1), Tier::Full);
    assert!(one.contains(&p(&["a"]), 1, Tier::Full));
}

#[test]
fn a_shown_image_keeps_the_old_one_for_the_slide() {
    let mut v: Direct2DViewer<u32> = Direct2DViewer::new(800, 600);
    v.set_image_gpu(Arc::new(1), SlideDir::NoSlide);
    assert!(v.previous_gpu.is_none());
    v.set_image_gpu(Arc::new(2), SlideDir::Next);
    assert_eq!(v.current_gpu, Some(Arc::new(2)));
    assert_eq!(v.previous_gpu, Some(Arc::new(1)));
    assert_eq!(v.slide_dir, SlideDir::Next);
    v.tick_slide(true);
    assert_eq!(v.previous_gpu, Some(Arc::new(1)));
    v.tick_slide(false);
    assert!(v.previous_gpu.is_none());
}

#[test]
fn retired_images_outlive_the_frames_in_flight() {
    let first = Arc::new(1u32);
    let mut v: Direct2DViewer<u32> = Direct2DViewer::new(800, 600);
    v.set_render_epoch(10);
    v.set_image_gpu(first.clone(), SlideDir::NoSlide);
    v.set_image_gpu(Arc::new(2), SlideDir::NoSlide);
    assert_eq!(Arc::strong_count(&first), 2);
    v.frame_submitted(10 + RETIRE_FRAME_BUDGET - 1);
    assert_eq!(Arc::strong_count(&first), 2);
    v.frame_submitted(10 + RETIRE_FRAME_BUDGET);
    assert_eq!(Arc::strong_count(&first), 1);
}

#[test]
fn release_never_goes_back() {
    let image = Arc::new(1u32);
    let mut v: Direct2DViewer<u32> = Direct2DViewer::new(1, 1);
    v.release_retired_through(50);
    v.set_render_epoch(40);
    v.set_image_gpu(image.clone(), SlideDir::NoSlide);
    v.set_image_gpu(Arc::new(2), SlideDir::NoSlide);
    v.release_retired_through(1);
    assert_eq!(Arc::strong_count(&image), 1);
}

#[test]
fn rotation_counts_quarter_turns() {
    let mut v: Direct2DViewer<u32> = Direct2DViewer::new(1, 1);
    assert!(v.set_rotation(5));
    assert_eq!(v.rotation(), 1);
    assert!(!v.set_rotation(1));
    assert_eq!(v.effective_size(30, 20), (20, 30));
    assert!(v.set_rotation(2));
    assert_eq!(v.effective_size(30, 20), (30, 20));
    assert!(v.reset_rotation());
    assert!(!v.reset_rotation());
    v.set_rotation(3);
    v.set_image_gpu(Arc::new(1), SlideDir::NoSlide);
    assert_eq!(v.rotation(), 0);
    assert!(v.set_viewport(5, 6));
    assert!(!v.set_viewport(5, 6));
    assert_eq!(v.viewport_size(), (5, 6));
}

#[test]
fn routes_go_by_the_extension() {
    assert_eq!(CodecProbe::route_for(&p(&["a.jpg"])), CodecRoute::WicPrimary);
    assert_eq!(CodecProbe::route_for(&p(&["a.HEIC"])), CodecRoute::WicWithExtension);
    assert_eq!(CodecProbe::route_for(&p(&["a.heif"])), CodecRoute::WicWithExtension);
    for e in ["psd", "raw", "cr2", "nef", "arw", "dng", "orf", "rw2"] {
        let name = format!("a.{}", e);
        assert_eq!(CodecProbe::route_for(&p(&[&name])), CodecRoute::SkiaFallback);
    }
    assert_eq!(CodecProbe::route_for(&p(&["a.xyz"])), CodecRoute::WicPrimary);
    assert_eq!(CodecProbe::route_for(&p(&["a"])), CodecRoute::WicPrimary);
}

#[test]
fn channels_are_exchanged() {
    let r = bgra_to_rgba(vec![1, 2, 3, 4, 5, 6, 7, 8, 9, 10]);
    assert_eq!(r, vec![3, 2, 1, 4, 7, 6, 5, 8, 9, 10]);
    assert_eq!(bgra_to_rgba(r), vec![1, 2, 3, 4, 5, 6, 7, 8, 9, 10]);
}

#[test]
fn brightness_is_sampled() {
    assert_eq!(sample_luminance(&Vec::new()), (0, 0));
    let mut v = vec![0u8; 130];
    v[1] = 10;
    v[65] = 20;
    v[129] = 30;
    assert_eq!(sample_luminance(&v), (60, 3));
    assert_eq!(sample_luminance(&vec![255u8; 64]), (255, 1));
}

#[test]
fn sizes_of_decoded_images() {
    assert_eq!(target_box(0, 0, 30, 20), (30, 20));
    assert_eq!(target_box(10, 50, 30, 20), (10, 20));
    assert_eq!(source_size(0, 5), None);
    assert_eq!(source_size(5, 0), None);
    assert_eq!(source_size(5, 6), Some((5, 6)));
    assert_eq!(buffer_len(3, 2), Some(24));
    assert_eq!(buffer_len(u32::MAX, 1), None);
    assert_eq!(buffer_len(u32::MAX, 0), Some(0));
    assert_eq!(buffer_len(40000, 40000), None);
}

#[test]
fn the_loader_chooses_a_size() {
    let mut l = WicLoader::new();
    assert_eq!(l.max_decode_dimension(), DEFAULT_MAX_DIM);
    assert_eq!(DEFAULT_MAX_DIM, 7680);
    assert_eq!(l.decode_size(&p(&["a.jpg"]), 0, 0), Some((7680, 7680)));
    assert_eq!(l.decode_size(&p(&["a.jpg"]), 0, 5), Some((5, 5)));
    assert_eq!(l.decode_size(&p(&["a.jpg"]), 7, 0), Some((7, 7)));
    assert_eq!(l.decode_size(&p(&["a.jpg"]), 7, 5), Some((7, 5)));
    assert_eq!(l.decode_size(&p(&["a.psd"]), 7, 5), Some((7, 5)));
    assert_eq!(l.decode_size(&p(&["a.psd"]), 0, 0), Some((7680, 7680)));
    l.set_max_decode_dimension(100);
    assert_eq!(l.decode_size(&p(&["a.jpg"]), 0, 0), Some((100, 100)));
}

#[test]
fn the_loader_tells_what_came_of_it() {
    let l = WicLoader::new();
    let size = DecodedSize { width: 1, height: 2, source_width: 3, source_height: 4 };
    let ok = l.load(&p(&["a.jpg"]), Ok(size));
    assert!(ok.is_success);
    assert_eq!((ok.width, ok.height, ok.source_width, ok.source_height), (1, 2, 3, 4));
    assert_eq!(ok.path, "C:\\a.jpg");
    assert_eq!(ok.error_message, None);
    let bad = l.load(&p(&["a.jpg"]), Err("no codec".to_string()));
    assert!(!bad.is_success);
    assert_eq!(bad.error_message, Some("WIC failed: no codec".to_string()));
    // What the fallback decoder gives for its formats is told in the same way.
    for name in ["a.psd", "a.raw", "a.cr2", "a.nef", "a.arw", "a.dng", "a.orf", "a.RW2"] {
        assert_eq!(CodecProbe::route_for(&p(&[name])), CodecRoute::SkiaFallback);
        let raw = l.load(&p(&[name]), Ok(size));
        assert!(raw.is_success);
        assert_eq!((raw.width, raw.source_height, raw.error_message), (1, 4, None));
        let none = l.load(&p(&[name]), Err("no such decoder".to_string()));
        assert!(!none.is_success);
        assert_eq!(none.error_message, Some("no such decoder".to_string()));
    }
    let heic = l.load(&p(&["a.heic"]), Err("no codec".to_string()));
    assert_eq!(heic.error_message, Some("WIC failed: no codec".to_string()));
    let out = ImageLoadResult::from_outcome("x".to_string(), Err("e".to_string()));
    assert_eq!((out.is_success, out.error_message), (false, Some("e".to_string())));
    let fine = ImageLoadResult::from_outcome("x".to_string(), Ok(size));
    assert_eq!((fine.is_success, fine.width), (true, 1));
}

#[test]
fn pixels_are_handed_on() {
    let px = DecodedPixels {
        pixels: vec![1, 2, 3, 4],
        width: 1,
        height: 1,
        source_width: 8,
        source_height: 9,
        path: "a".to_string(),
    };
    assert_eq!(px.stride(), 4);
    let (res, px) = load_pixels(&p(&["a.png"]), Ok(px)).unwrap();
    assert_eq!(px.pixels, vec![1, 2, 3, 4]);
    assert_eq!((res.width, res.source_height, res.is_success), (1, 9, true));
    assert_eq!(load_pixels(&p(&["a.png"]), Err("bad".to_string())).err(), Some("bad".to_string()));
}

#[test]
fn a_first_request_decodes_the_low_tier() {
    let nav = nav_with(&["a.jpg", "b.jpg"]);
    let mut c: DecodeCoordinator<u32> = DecodeCoordinator::new(8192);
    let (id, todo) = c.request_current(&nav, (1000, 800), SlideDir::Next);
    assert_eq!(id, 1);
    assert!(c.is_busy());
    let d = decodes(&todo);
    assert_eq!(d.len(), 1);
    assert_eq!((d[0].width, d[0].height, d[0].id), (LOW_RES_DIM, LOW_RES_DIM, 1));
    assert_eq!(d[0].path, p(&["pics", "a.jpg"]));
    assert_eq!(d[0].direction, SlideDir::NoSlide);
    assert!(shown(&todo).is_empty());
}

#[test]
fn a_landed_low_image_is_shown_and_sharpened() {
    let nav = nav_with(&["a.jpg", "b.jpg"]);
    let mut c: DecodeCoordinator<u32> = DecodeCoordinator::new(8192);
    let (_, todo) = c.request_current(&nav, (1000, 800), SlideDir::Next);
    let main = landed(decodes(&todo)[0], 7);
    let (id, todo) = c.poll(&nav, (1000, 800), Vec::new(), main);
    assert_eq!(id, Some(1));
    assert_eq!(shown(&todo), vec![(7, SlideDir::NoSlide)]);
    let d = decodes(&todo);
    assert_eq!(d.len(), 1);
    assert_eq!((d[0].width, d[0].id), (2000, 0));
    assert!(!c.is_busy());
    assert_eq!(c.prefetch_jobs(), vec![(p(&["pics", "a.jpg"]), Tier::Full)]);
    let full = landed(d[0], 8);
    let (id, todo) = c.poll(&nav, (1000, 800), vec![full], Progress::Running);
    assert_eq!(id, None);
    assert_eq!(shown(&todo), vec![(8, SlideDir::NoSlide)]);
    assert!(c.prefetch_jobs().is_empty());
    // The full image is in the cache now and shown at once.
    let (id, todo) = c.request_current(&nav, (1000, 800), SlideDir::Previous);
    assert_eq!(id, 0);
    assert_eq!(shown(&todo), vec![(8, SlideDir::Previous)]);
}

#[test]
fn the_last_of_several_requests_counts() {
    let mut nav = nav_with(&["a.jpg", "b.jpg", "c.jpg"]);
    let mut c: DecodeCoordinator<u32> = DecodeCoordinator::new(4096);
    let (_, first) = c.request_current(&nav, (10, 10), SlideDir::Next);
    nav.move_to(NavigationDirection::Next);
    let (id, todo) = c.request_current(&nav, (10, 10), SlideDir::Next);
    assert_eq!((id, todo.len()), (0, 0));
    nav.move_to(NavigationDirection::Next);
    c.request_current(&nav, (10, 10), SlideDir::Previous);
    assert!(c.has_queued());
    let main = landed(decodes(&first)[0], 1);
    let (id, todo) = c.poll(&nav, (10, 10), Vec::new(), main);
    assert_eq!(id, Some(1));
    assert!(!c.has_queued());
    assert_eq!(c.current_id(), 2);
    let d = decodes(&todo);
    assert_eq!(d[d.len() - 1].path, p(&["pics", "c.jpg"]));
    assert_eq!(d[d.len() - 1].id, 2);
}

#[test]
fn neighbours_are_warmed() {
    let nav = nav_with(&["a.jpg", "b.jpg", "c.jpg", "d.jpg", "e.jpg"]);
    let mut c: DecodeCoordinator<u32> = DecodeCoordinator::new(8192);
    let todo = c.predecode_adjacent(&nav, (1000, 800));
    assert!(shown(&todo).is_empty());
    let d = decodes(&todo);
    let names: Vec<String> = d.iter().map(|r| r.path.file_name().unwrap().to_string()).collect();
    assert_eq!(names, vec!["e.jpg", "b.jpg", "d.jpg", "c.jpg"]);
    let sizes: Vec<u32> = d.iter().map(|r| r.width).collect();
    assert_eq!(sizes, vec![2000, 2000, LOW_RES_DIM, LOW_RES_DIM]);
    assert!(d.iter().all(|r| r.id == 0));
    // What is being decoded is not started again.
    assert!(c.predecode_adjacent(&nav, (1000, 800)).is_empty());
    // A single image is its own neighbour.
    let one = nav_with(&["a.jpg"]);
    let mut c: DecodeCoordinator<u32> = DecodeCoordinator::new(8192);
    assert_eq!(c.predecode_adjacent(&one, (1, 1)).len(), 1);
    let none = NavigationService::new();
    assert!(c.predecode_adjacent(&none, (1, 1)).is_empty());
}

#[test]
fn a_low_hit_is_shown_and_upgraded() {
    let mut nav = nav_with(&["a.jpg", "b.jpg", "c.jpg", "d.jpg", "e.jpg"]);
    let mut c: DecodeCoordinator<u32> = DecodeCoordinator::new(8192);
    let todo = c.predecode_adjacent(&nav, (1000, 800));
    let d = decodes(&todo);
    let found = vec![
        Progress::Running,
        Progress::Closed,
        failed(d[2]),
        landed(d[3], 30),
    ];
    let (id, todo) = c.poll(&nav, (1000, 800), found, Progress::Running);
    assert_eq!(id, None);
    assert!(todo.is_empty());
    assert_eq!(c.prefetch_jobs(), vec![(p(&["pics", "e.jpg"]), Tier::Full)]);
    nav.set_index(2);
    let (id, todo) = c.request_current(&nav, (1000, 800), SlideDir::Next);
    assert_eq!(id, 0);
    assert_eq!(shown(&todo), vec![(30, SlideDir::NoSlide)]);
    assert_eq!(decodes(&todo)[0].width, 2000);
    c.clear_caches();
    assert!(c.prefetch_jobs().is_empty());
}

#[test]
fn failed_and_stale_decodes_show_nothing() {
    let nav = nav_with(&["a.jpg"]);
    let mut c: DecodeCoordinator<u32> = DecodeCoordinator::new(8192);
    let (_, todo) = c.request_current(&nav, (10, 10), SlideDir::Next);
    let request = decodes(&todo)[0];
    let (id, todo) = c.poll(&nav, (10, 10), Vec::new(), failed(request));
    assert_eq!(id, Some(1));
    assert!(shown(&todo).is_empty());
    let mut c: DecodeCoordinator<u32> = DecodeCoordinator::new(8192);
    let (_, todo) = c.request_current(&nav, (10, 10), SlideDir::Next);
    let mut old = landed(decodes(&todo)[0], 5);
    if let Progress::Landed(r) = &mut old {
        r.id = 99;
    }
    let (id, todo) = c.poll(&nav, (10, 10), Vec::new(), old);
    assert_eq!(id, Some(99));
    assert!(shown(&todo).is_empty());
    let mut c: DecodeCoordinator<u32> = DecodeCoordinator::new(8192);
    let (_, _) = c.request_current(&nav, (10, 10), SlideDir::Next);
    let (id, todo) = c.poll(&nav, (10, 10), Vec::new(), Progress::Closed);
    assert_eq!((id, todo.len()), (None, 0));
    assert!(!c.is_busy());
}
