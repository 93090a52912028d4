use aperture::fs::{
    enumerate_images, folder_has_images, image_entries, DirEntry, FileMeta, Listing, ReadError,
    SupportedFormats,
};
use aperture::model::ImageItem;
use aperture::nav::{NavigationDirection, NavigationService, MAX_HISTORY};
use aperture::path::FilePath;

fn p(names: &[&str]) -> FilePath {
    let mut f = FilePath::drive_root("C:".to_string());
    for n in names {
        f = f.join(n);
    }
    f
}

fn file(names: &[&str]) -> DirEntry {
    DirEntry {
        path: p(names),
        is_file: true,
        is_dir: false,
        hidden: false,
        meta: Some(FileMeta { len: 10, modified: 7 }),
    }
}

fn folder_of(names: &[&str]) -> Listing {
    let mut v = Vec::new();
    for n in names {
        v.push(file(&["pics", n]));
    }
    Listing::Entries(v)
}

#[test]
fn every_known_extension_is_supported() {
    for e in SupportedFormats::EXTENSIONS {
        let name = format!("x.{}", e);
        assert!(SupportedFormats::is_supported(&p(&[&name])));
        let upper = format!("x.{}", e.to_uppercase());
        assert!(SupportedFormats::is_supported(&p(&[&upper])));
    }
    assert!(!SupportedFormats::is_supported(&p(&["x.txt"])));
    assert!(!SupportedFormats::is_supported(&p(&["jpg"])));
    assert!(!SupportedFormats::is_supported(&p(&[".jpg"])));
    assert!(!SupportedFormats::is_supported(&p(&["x.jpgx"])));
    assert!(!SupportedFormats::is_supported(&p(&[])));
}

#[test]
fn filter_keeps_the_order() {
    let r = SupportedFormats::filter_files(vec![p(&["b.png"]), p(&["c.txt"]), p(&["a.GIF"])]);
    assert_eq!(r, vec![p(&["b.png"]), p(&["a.GIF"])]);
}

#[test]
fn images_are_listed_in_order() {
    let mut dir = file(&["pics", "dir.jpg"]);
    dir.is_file = false;
    dir.is_dir = true;
    let listing = Listing::Entries(vec![
        file(&["pics", "b.jpg"]),
        file(&["pics", "notes.txt"]),
        dir,
        file(&["pics", "a.png"]),
        file(&["pics", "C.bmp"]),
    ]);
    let r = enumerate_images(listing).unwrap();
    assert_eq!(r, vec![p(&["pics", "C.bmp"]), p(&["pics", "a.png"]), p(&["pics", "b.jpg"])]);
}

#[test]
fn listings_that_are_no_folders() {
    assert_eq!(enumerate_images(Listing::NotADirectory).unwrap(), Vec::<FilePath>::new());
    assert_eq!(enumerate_images(Listing::Unreadable), Err(ReadError::Unreadable));
    assert!(image_entries(Listing::NotADirectory).unwrap().is_empty());
    assert!(matches!(image_entries(Listing::Unreadable), Err(ReadError::Unreadable)));
}

#[test]
fn folders_with_and_without_images() {
    assert!(folder_has_images(&folder_of(&["a.txt", "b.jpg"])));
    assert!(!folder_has_images(&folder_of(&["a.txt"])));
    assert!(!folder_has_images(&folder_of(&[])));
    assert!(!folder_has_images(&Listing::Unreadable));
    assert!(!folder_has_images(&Listing::NotADirectory));
}

#[test]
fn items_come_from_metadata() {
    let meta = FileMeta { len: 42, modified: -5 };
    let it = ImageItem::from_path(p(&["a", "b.c.jpg"]), Some(meta)).unwrap();
    assert_eq!((it.width, it.height, it.file_size, it.modified), (0, 0, 42, -5));
    assert!(!it.is_favorite);
    assert!(it.thumbnail.is_none());
    assert_eq!(it.filename(), "b.c.jpg");
    assert_eq!(it.stem(), "b.c");
    assert!(matches!(ImageItem::from_path(p(&["a"]), None), Err(ReadError::Unreadable)));
    let root = ImageItem::from_path(p(&[]), Some(meta)).unwrap();
    assert_eq!(root.filename(), "");
    assert_eq!(root.stem(), "");
}

fn opened(names: &[&str]) -> NavigationService {
    let mut nav = NavigationService::new();
    assert!(nav.navigate_folder(p(&["pics"]), folder_of(names)).is_ok());
    nav
}

#[test]
fn a_new_navigation_is_empty() {
    let mut nav = NavigationService::new();
    assert!(nav.is_empty());
    assert_eq!(nav.count(), 0);
    assert!(nav.current().is_none());
    assert!(nav.folder().is_none());
    assert!(nav.move_to(NavigationDirection::Next).is_none());
    assert!(nav.set_index(0).is_none());
}

#[test]
fn steps_go_round_the_ends() {
    let mut nav = opened(&["a.jpg", "b.jpg", "c.jpg"]);
    assert_eq!(nav.count(), 3);
    assert_eq!(nav.current_index(), 0);
    assert_eq!(nav.move_to(NavigationDirection::Previous).unwrap().filename(), "c.jpg");
    assert_eq!(nav.move_to(NavigationDirection::Next).unwrap().filename(), "a.jpg");
    assert_eq!(nav.move_to(NavigationDirection::Last).unwrap().filename(), "c.jpg");
    assert_eq!(nav.move_to(NavigationDirection::First).unwrap().filename(), "a.jpg");
    assert_eq!(nav.move_to(NavigationDirection::Index(1)).unwrap().filename(), "b.jpg");
    assert_eq!(nav.move_to(NavigationDirection::Index(99)).unwrap().filename(), "c.jpg");
}

#[test]
fn a_full_round_ends_where_it_started() {
    let mut nav = opened(&["a.jpg", "b.jpg", "c.jpg", "d.jpg"]);
    nav.set_index(2);
    for _ in 0..4 {
        nav.move_to(NavigationDirection::Next);
    }
    assert_eq!(nav.current_index(), 2);
}

#[test]
fn a_jump_out_of_range_changes_nothing() {
    let mut nav = opened(&["a.jpg", "b.jpg"]);
    assert_eq!(nav.set_index(1).unwrap().filename(), "b.jpg");
    assert!(nav.set_index(2).is_none());
    assert_eq!(nav.current_index(), 1);
}

#[test]
fn opening_the_open_folder_keeps_the_position() {
    let mut nav = opened(&["a.jpg", "b.jpg"]);
    nav.set_index(1);
    assert!(nav.navigate_folder(p(&["pics"]), Listing::Unreadable).is_ok());
    assert_eq!(nav.current_index(), 1);
    assert_eq!(nav.count(), 2);
}

#[test]
fn an_unreadable_folder_is_refused() {
    let mut nav = opened(&["a.jpg", "b.jpg"]);
    nav.set_index(1);
    assert_eq!(
        nav.navigate_folder(p(&["other"]), Listing::Unreadable),
        Err(ReadError::Unreadable)
    );
    assert_eq!(nav.folder(), Some(&p(&["pics"])));
    assert_eq!(nav.current_index(), 1);
}

#[test]
fn files_without_metadata_are_left_out() {
    let mut bare = file(&["pics", "a.jpg"]);
    bare.meta = None;
    let mut nav = NavigationService::new();
    let listing = Listing::Entries(vec![bare, file(&["pics", "b.jpg"])]);
    assert!(nav.navigate_folder(p(&["pics"]), listing).is_ok());
    assert_eq!(nav.count(), 1);
    assert_eq!(nav.items()[0].filename(), "b.jpg");
}

#[test]
fn many_folders_can_be_visited() {
    let mut nav = NavigationService::new();
    for i in 0..(MAX_HISTORY + 20) {
        let name = format!("f{}", i);
        assert!(nav.navigate_folder(p(&[&name]), folder_of(&["a.jpg"])).is_ok());
    }
    assert_eq!(nav.count(), 1);
    assert_eq!(nav.current_index(), 0);
}
