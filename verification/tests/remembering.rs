use aperture::cache::{ThumbCache, ThumbCacheConfig, EVICTION_SLACK, MEMORY_ENTRIES};
use aperture::decode::DecodedPixels;
use aperture::path::FilePath;
use aperture::settings::{
    copy_folders, settings_path, SettingsData, SettingsStore, ThemeSetting, MAX_FAVORITES,
    MAX_RECENT,
};
use aperture::texture_cache::{
    TextureCache, ThumbOutcome, ThumbResult, THUMB_DECODE_PERMITS, THUMB_SIZE,
};

fn p(names: &[&str]) -> FilePath {
    let mut f = FilePath::drive_root("C:".to_string());
    for n in names {
        f = f.join(n);
    }
    f
}

#[test]
fn new_settings_remember_nothing() {
    let s = SettingsStore::new(None);
    assert_eq!(s.last_folder(), None);
    assert!(s.recent_folders().is_empty());
    assert!(s.favorite_folders().is_empty());
    assert_eq!(s.window_size(), None);
    assert_eq!(s.theme(), ThemeSetting::Dark);
    let d = s.snapshot();
    assert_eq!((d.window_position, d.max_decode_dimension, d.fullscreen), (None, None, None));
    assert_eq!(d.theme, None);
}

#[test]
fn loaded_settings_are_kept() {
    let mut d = SettingsData::default();
    d.last_folder = Some(p(&["a"]));
    d.window_size = Some((3, 4));
    d.theme = Some("light".to_string());
    d.recent_folders = vec![p(&["a"]), p(&["b"])];
    let s = SettingsStore::new(Some(d.clone()));
    assert_eq!(s.last_folder(), Some(p(&["a"])));
    assert_eq!(s.window_size(), Some((3, 4)));
    assert_eq!(s.theme(), ThemeSetting::Light);
    assert_eq!(s.recent_folders(), copy_folders(&d.recent_folders));
}

#[test]
fn other_theme_words_mean_dark() {
    let mut d = SettingsData::default();
    d.theme = Some("system".to_string());
    assert_eq!(SettingsStore::new(Some(d)).theme(), ThemeSetting::Dark);
}

#[test]
fn themes_are_saved_by_word() {
    let mut s = SettingsStore::new(None);
    s.set_theme(ThemeSetting::Light);
    assert_eq!(s.theme(), ThemeSetting::Light);
    assert_eq!(s.snapshot().theme, Some("light".to_string()));
    s.set_theme(s.theme().toggle());
    assert_eq!(s.snapshot().theme, Some("dark".to_string()));
    assert_eq!(ThemeSetting::Dark.toggle().toggle(), ThemeSetting::Dark);
}

#[test]
fn folders_are_kept_as_they_were_given() {
    let small = || FilePath::drive_root("c:".to_string()).join("a");
    let shown = |list: Vec<FilePath>| list.iter().map(|f| f.display()).collect::<Vec<String>>();
    let mut s = SettingsStore::new(None);
    s.set_last_folder(p(&["a"]));
    s.set_last_folder(small());
    assert_eq!(s.last_folder().unwrap().display(), "c:\\a");
    s.push_recent_folder(p(&["a"]));
    s.push_recent_folder(p(&["b"]));
    s.push_recent_folder(small());
    assert_eq!(shown(s.recent_folders()), vec!["c:\\a", "C:\\b"]);
    s.add_favorite_folder(p(&["a"]));
    s.add_favorite_folder(small());
    assert_eq!(shown(s.favorite_folders()), vec!["c:\\a"]);
    assert!(s.is_favorite(&p(&["a"])));
    s.toggle_favorite_folder(p(&["a"]));
    assert!(s.favorite_folders().is_empty());
    s.toggle_favorite_folder(small());
    assert_eq!(shown(copy_folders(&s.favorite_folders())), vec!["c:\\a"]);
    let d = s.snapshot();
    assert_eq!(shown(d.recent_folders), vec!["c:\\a", "C:\\b"]);
    assert_eq!(d.last_folder.unwrap().display(), "c:\\a");
    s.remove_recent_folder(&p(&["a"]));
    assert_eq!(shown(s.recent_folders()), vec!["C:\\b"]);
}

#[test]
fn recent_folders_move_to_the_front() {
    let mut s = SettingsStore::new(None);
    s.push_recent_folder(p(&["a"]));
    s.push_recent_folder(p(&["b"]));
    s.push_recent_folder(p(&["a"]));
    assert_eq!(s.recent_folders(), vec![p(&["a"]), p(&["b"])]);
    s.remove_recent_folder(&p(&["a"]));
    assert_eq!(s.recent_folders(), vec![p(&["b"])]);
    for i in 0..20 {
        let name = format!("f{}", i);
        s.push_recent_folder(p(&[&name]));
    }
    assert_eq!(s.recent_folders().len(), MAX_RECENT);
    assert_eq!(MAX_RECENT, 10);
    assert_eq!(s.recent_folders()[0], p(&["f19"]));
    assert_eq!(s.recent_folders()[9], p(&["f10"]));
}

#[test]
fn favorites_are_toggled() {
    let mut s = SettingsStore::new(None);
    s.toggle_favorite_folder(p(&["a"]));
    assert!(s.is_favorite(&p(&["a"])));
    s.toggle_favorite_folder(p(&["b"]));
    assert_eq!(s.favorite_folders(), vec![p(&["b"]), p(&["a"])]);
    s.toggle_favorite_folder(p(&["a"]));
    assert!(!s.is_favorite(&p(&["a"])));
    s.add_favorite_folder(p(&["c"]));
    s.add_favorite_folder(p(&["b"]));
    assert_eq!(s.favorite_folders(), vec![p(&["b"]), p(&["c"])]);
    s.remove_favorite_folder(&p(&["b"]));
    assert_eq!(s.favorite_folders(), vec![p(&["c"])]);
    for i in 0..30 {
        let name = format!("f{}", i);
        s.add_favorite_folder(p(&[&name]));
    }
    assert_eq!(s.favorite_folders().len(), MAX_FAVORITES);
    assert_eq!(MAX_FAVORITES, 20);
}

#[test]
fn other_settings_are_set() {
    let mut s = SettingsStore::new(None);
    s.set_last_folder(p(&["x"]));
    s.set_window_size(11, 12);
    s.set_fullscreen(true);
    let d = s.snapshot();
    assert_eq!(d.last_folder, Some(p(&["x"])));
    assert_eq!((d.window_size, d.fullscreen), (Some((11, 12)), Some(true)));
}

#[test]
fn where_the_settings_are_saved() {
    let file = settings_path(Some(p(&["Roaming"])), Some(p(&["Data"])));
    assert_eq!(file.display(), "C:\\Roaming\\ApertureNeoTurbo\\settings.json");
    let file = settings_path(None, Some(p(&["Data"])));
    assert_eq!(file.display(), "C:\\Data\\ApertureNeoTurbo\\settings.json");
    assert_eq!(settings_path(None, None).display(), ".\\ApertureNeoTurbo\\settings.json");
}

fn thumbs(max_entries: usize) -> ThumbCache {
    let mut config = ThumbCacheConfig::in_data_dir(Some(p(&["Local"])));
    config.max_entries = max_entries;
    ThumbCache::new(config)
}

#[test]
fn the_usual_thumbnail_configuration() {
    let c = ThumbCacheConfig::in_data_dir(Some(p(&["Local"])));
    assert_eq!(c.max_entries, 2000);
    assert_eq!(c.db_path.display(), "C:\\Local\\ApertureNeoTurbo\\thumbs\\cache.db");
    assert_eq!((c.thumb_size, c.jpeg_quality), ((200, 200), 85));
    let c = ThumbCacheConfig::in_data_dir(None);
    assert_eq!(c.db_path.display(), ".\\ApertureNeoTurbo\\thumbs\\cache.db");
}

#[test]
fn thumbnails_come_out_of_memory() {
    let mut c = thumbs(10);
    assert_eq!(c.get_cached(&p(&["a"]), 1), None);
    c.put(&p(&["a"]), 1, vec![1, 2, 3]);
    assert_eq!(c.get_cached(&p(&["a"]), 1), Some(vec![1, 2, 3]));
    assert_eq!(c.get_cached(&p(&["a"]), 2), None);
    assert_eq!(c.get_cached(&p(&["b"]), 1), None);
    c.put(&p(&["a"]), 2, vec![4]);
    assert_eq!(c.get_cached(&p(&["a"]), 1), None);
    assert_eq!(c.get_cached(&p(&["a"]), 2), Some(vec![4]));
}

#[test]
fn stored_thumbnails_go_to_memory() {
    let mut c = thumbs(10);
    assert_eq!(c.get(&p(&["a"]), 1, None), None);
    assert_eq!(c.get(&p(&["a"]), 1, Some(vec![9])), Some(vec![9]));
    assert_eq!(c.get(&p(&["a"]), 1, None), Some(vec![9]));
    // Memory comes before the database.
    assert_eq!(c.get(&p(&["a"]), 1, Some(vec![8])), Some(vec![9]));
}

#[test]
fn memory_drops_the_least_recently_put() {
    let mut c = thumbs(2);
    c.put(&p(&["a"]), 1, vec![1]);
    c.put(&p(&["b"]), 1, vec![2]);
    c.put(&p(&["a"]), 1, vec![3]);
    c.put(&p(&["c"]), 1, vec![4]);
    assert_eq!(c.get_cached(&p(&["a"]), 1), Some(vec![3]));
    assert_eq!(c.get_cached(&p(&["b"]), 1), None);
    assert_eq!(c.get_cached(&p(&["c"]), 1), Some(vec![4]));
    // Looking does not count as use.
    assert_eq!(c.get_cached(&p(&["a"]), 1), Some(vec![3]));
    c.put(&p(&["d"]), 1, vec![5]);
    assert_eq!(c.get_cached(&p(&["a"]), 1), None);
}

#[test]
fn memory_has_its_own_limit() {
    let mut c = thumbs(10_000);
    for i in 0..(MEMORY_ENTRIES + 1) {
        let name = format!("{}", i);
        c.put(&p(&[&name]), 1, vec![1]);
    }
    assert_eq!(c.get_cached(&p(&["0"]), 1), None);
    assert_eq!(c.get_cached(&p(&["1"]), 1), Some(vec![1]));
}

#[test]
fn the_database_is_trimmed() {
    let c = thumbs(2000);
    assert_eq!(c.maybe_evict(2000), None);
    assert_eq!(c.maybe_evict(2001), Some(1 + EVICTION_SLACK));
    assert_eq!(EVICTION_SLACK, 100);
    assert_eq!(c.maybe_evict(-1), None);
}

#[test]
fn thumbnails_are_made_of_pixels() {
    let decoded = DecodedPixels {
        pixels: vec![1, 2, 3, 4],
        width: 1,
        height: 1,
        source_width: 1,
        source_height: 1,
        path: "a".to_string(),
    };
    let t = ThumbResult::from_pixels(p(&["a"]), decoded);
    assert_eq!(t.rgba, vec![3, 2, 1, 4]);
    assert_eq!((t.width, t.height), (1, 1));
    assert_eq!(THUMB_SIZE, 200);
}

#[test]
fn a_thumbnail_is_asked_for_once() {
    let mut c: TextureCache<u32> = TextureCache::new();
    assert!(c.request_thumb(&p(&["a"]), 1));
    assert!(!c.request_thumb(&p(&["a"]), 1));
    assert!(c.request_thumb(&p(&["a"]), 2));
    assert!(c.thumb_in_flight(&p(&["a"]), 1));
    c.put_thumb_rgba(p(&["a"]), 1, 7);
    assert!(!c.thumb_in_flight(&p(&["a"]), 1));
    assert_eq!(c.get_thumb(&p(&["a"]), 1), Some(&7));
    assert_eq!(c.get_thumb(&p(&["a"]), 2), None);
    assert!(!c.request_thumb(&p(&["a"]), 1));
    assert_eq!(c.thumb_count(), 1);
    c.put_thumb_rgba(p(&["a"]), 1, 8);
    assert_eq!((c.get_thumb(&p(&["a"]), 1), c.thumb_count()), (Some(&8), 1));
}

#[test]
fn few_thumbnails_are_decoded_at_a_time() {
    let mut c: TextureCache<u32> = TextureCache::new();
    for i in 0..6u64 {
        c.request_thumb(&p(&["a"]), i);
    }
    for i in 0..THUMB_DECODE_PERMITS as u64 {
        assert_eq!(c.start_next(), Some((p(&["a"]), i)));
    }
    assert_eq!(c.start_next(), None);
    let added = c.flush_inbox(vec![
        ThumbOutcome::Ready { path: p(&["a"]), mtime: 1, texture: 11 },
        ThumbOutcome::Failed { path: p(&["a"]), mtime: 2 },
    ]);
    assert_eq!(added, 1);
    assert_eq!(c.start_next(), Some((p(&["a"]), 4)));
    assert_eq!(c.start_next(), Some((p(&["a"]), 5)));
    assert_eq!(c.start_next(), None);
    // What failed is no longer on its way and can be asked for again.
    assert!(!c.thumb_in_flight(&p(&["a"]), 2));
    assert!(!c.thumb_in_flight(&p(&["a"]), 1));
    assert!(c.request_thumb(&p(&["a"]), 2));
    assert!(c.thumb_in_flight(&p(&["a"]), 2));
    assert!(!c.request_thumb(&p(&["a"]), 1));
    c.flush_inbox(vec![ThumbOutcome::Failed { path: p(&["a"]), mtime: 0 }]);
    assert_eq!(c.start_next(), Some((p(&["a"]), 2)));
}

#[test]
fn full_size_images_are_kept_by_state() {
    let mut c: TextureCache<u32> = TextureCache::new();
    assert!(c.get_main(&p(&["a"]), 1).is_none());
    c.put_main(p(&["a"]), 1, 5, 30, 20);
    c.put_main(p(&["a"]), 1, 6, 31, 21);
    let m = c.get_main(&p(&["a"]), 1).unwrap();
    assert_eq!((m.texture, m.source_w, m.source_h), (6, 31, 21));
    assert!(c.get_main(&p(&["a"]), 2).is_none());
    c.mark_thumb_pending(&p(&["b"]), 1);
    c.clear();
    assert!(c.get_main(&p(&["a"]), 1).is_none());
    assert!(!c.thumb_in_flight(&p(&["b"]), 1));
    assert_eq!(c.thumb_count(), 0);
}
