use aperture::order::text_at_most;
use aperture::path::{FilePath, Part};
use aperture::path_shorten::{shorten, MAX_LEN};
use aperture::sort::sort_stably;
use aperture::text::{chars_of, decimal_text, equals_ignoring_case, same_text};

fn p(names: &[&str]) -> FilePath {
    let mut f = FilePath::drive_root("C:".to_string());
    for n in names {
        f = f.join(n);
    }
    f
}

#[test]
fn join_and_display() {
    assert_eq!(p(&["a", "b.jpg"]).display(), "C:\\a\\b.jpg");
    assert_eq!(p(&[]).display(), "C:\\");
    assert_eq!(FilePath::empty().display(), "");
    assert_eq!(FilePath::current_dir().join("x").display(), ".\\x");
}

#[test]
fn names_stems_and_extensions() {
    let f = p(&["dir", "photo.tar.JPG"]);
    assert_eq!(f.file_name(), Some("photo.tar.JPG"));
    assert_eq!(f.file_stem(), Some("photo.tar".to_string()));
    assert_eq!(f.extension(), Some("JPG".to_string()));
    let hidden = p(&[".bashrc"]);
    assert_eq!(hidden.extension(), None);
    assert_eq!(hidden.file_stem(), Some(".bashrc".to_string()));
    let trailing = p(&["name."]);
    assert_eq!(trailing.extension(), Some(String::new()));
    assert_eq!(trailing.file_stem(), Some("name".to_string()));
    assert_eq!(p(&[]).file_name(), None);
    let up = FilePath::given("a/..", vec![Part::Normal("a".to_string()), Part::ParentDir]);
    assert_eq!(up.file_name(), None);
}

#[test]
fn parents_stop_at_the_root() {
    assert_eq!(p(&["a", "b"]).parent(), Some(p(&["a"])));
    assert_eq!(p(&["a"]).parent(), Some(p(&[])));
    assert_eq!(p(&[]).parent(), None);
    assert_eq!(FilePath::empty().parent(), None);
    assert_eq!(FilePath::empty().join("a").parent(), Some(FilePath::empty()));
}

#[test]
fn prefixes_of_paths() {
    assert!(p(&["a", "b"]).starts_with(&p(&["a"])));
    assert!(p(&["a"]).starts_with(&p(&["a"])));
    assert!(!p(&["ab"]).starts_with(&p(&["a"])));
    assert!(!p(&["a"]).starts_with(&p(&["a", "b"])));
}

#[test]
fn equality_is_by_component() {
    assert!(p(&["a"]) == p(&["a"]));
    assert!(p(&["a"]) != p(&["A"]));
    assert!(Part::CurDir.same(&Part::CurDir));
    assert!(!Part::CurDir.same(&Part::ParentDir));
    assert!(!Part::Normal("x".to_string()).same(&Part::Prefix("x".to_string())));
}

#[test]
fn the_case_of_a_drive_letter_is_no_matter() {
    let small = FilePath::drive_root("c:".to_string()).join("a");
    assert!(small == p(&["a"]));
    assert!(small.at_most(&p(&["a"])) && p(&["a"]).at_most(&small));
    assert!(small.at_most(&FilePath::drive_root("D:".to_string())));
    assert!(p(&["a", "b"]).starts_with(&small));
    assert!(small != FilePath::drive_root("D:".to_string()).join("a"));
    // A path is written as it was given.
    assert_eq!(small.display(), "c:\\a");
    assert_eq!(small.clone().display(), "c:\\a");
    assert_eq!(small.join("b").display(), "c:\\a\\b");
    assert_eq!(shorten(&small.join("b"), Some(&p(&["a"]))), "~\\b");
    let verbatim = |s: &str| FilePath::drive_root(s.to_string());
    assert!(verbatim("\\\\?\\c:") == verbatim("\\\\?\\C:"));
    assert!(verbatim("\\\\?\\c:") != verbatim("\\\\?\\d:"));
    // Only the letter of a drive is folded.
    assert!(verbatim("\\\\server\\x:") != verbatim("\\\\server\\X:"));
    assert!(!Part::Normal("c:".to_string()).same(&Part::Normal("C:".to_string())));
}

fn windows_path(text: &str, names: &[&str]) -> FilePath {
    let mut parts = vec![Part::Prefix("C:".to_string()), Part::RootDir];
    for n in names {
        parts.push(Part::Normal(n.to_string()));
    }
    FilePath::given(text, parts)
}

#[test]
fn a_path_is_written_as_it_was_given() {
    let odd = windows_path("C:/a//b", &["a", "b"]);
    assert_eq!(odd.display(), "C:/a//b");
    assert_eq!(odd.clone().display(), "C:/a//b");
    // It names the same file as any other spelling.
    assert!(odd == p(&["a", "b"]));
    assert!(odd.starts_with(&p(&["a"])) && odd.at_most(&p(&["a", "b"])));
    // What is above it is the beginning of its text.
    assert_eq!(odd.parent().unwrap().display(), "C:/a");
    assert_eq!(odd.parent().unwrap().parent().unwrap().display(), "C:/");
    assert_eq!(odd.join("c.jpg").display(), "C:/a//b\\c.jpg");
    assert_eq!(odd.join("c.jpg").parent().unwrap().display(), "C:/a//b");
    // A separator at the end is kept and used.
    let folder = windows_path("C:\\a/", &["a"]);
    assert_eq!(folder.display(), "C:\\a/");
    assert_eq!(folder.join("b").display(), "C:\\a/b");
    assert_eq!(folder.join("b").parent().unwrap().display(), "C:\\a");
    assert_eq!(folder.file_name(), Some("a"));
    let dotted = windows_path("C:\\a\\.\\b\\.", &["a", "b"]);
    assert_eq!(dotted.display(), "C:\\a\\.\\b\\.");
    assert_eq!(dotted.parent().unwrap().display(), "C:\\a");
    // Behind a drive without its root no separator is put.
    let bare = FilePath::given("C:", vec![Part::Prefix("C:".to_string())]);
    assert_eq!(bare.join("a").display(), "C:a");
    let share = vec![Part::Prefix("\\\\server\\pics".to_string()), Part::RootDir];
    let share = FilePath::given("\\\\server\\pics", share);
    assert_eq!(share.display(), "\\\\server\\pics");
    assert_eq!(share.join("a").display(), "\\\\server\\pics\\a");
    // The home folder is recognised in any spelling, and the rest stays.
    assert_eq!(shorten(&windows_path("C:/a//b/", &["a", "b"]), Some(&p(&["a"]))), "~//b/");
    assert_eq!(shorten(&p(&["x"]), Some(&p(&[]))), "~\\x");
}

#[test]
fn a_short_form_stays_as_it_is() {
    let name = "0123456789012345678901234567890123456789012345678901234567890123456789";
    let once = shorten(&p(&[name]), None);
    let again = shorten(&FilePath::given(&once, vec![Part::Normal(once.clone())]), None);
    assert_eq!(again, once);
}

#[test]
fn order_of_paths_is_total() {
    let a = p(&["a"]);
    let b = p(&["b"]);
    let ab = p(&["a", "b"]);
    assert!(a.at_most(&a));
    assert!(a.at_most(&b) && !b.at_most(&a));
    assert!(a.at_most(&ab) && !ab.at_most(&a));
    assert!(ab.at_most(&b));
    // Component by component: the separator does not take part.
    assert!(p(&["a", "z"]).at_most(&p(&["a-", "a"])));
}

#[test]
fn order_of_texts_goes_by_code_points() {
    assert!(text_at_most("Zebra", "apple"));
    assert!(text_at_most("10", "2"));
    assert!(text_at_most("", "a"));
    assert!(!text_at_most("a", ""));
    assert!(text_at_most("a", "a"));
    assert!(text_at_most("z", "é"));
}

#[test]
fn sorting_puts_paths_in_order() {
    let v = vec![p(&["c"]), p(&["a"]), p(&["b"]), p(&["a"])];
    let r = sort_stably(v);
    assert_eq!(r, vec![p(&["a"]), p(&["a"]), p(&["b"]), p(&["c"])]);
    let w = sort_stably(vec![p(&["b"]), p(&["a"]), p(&["a"]), p(&["c"])]);
    assert_eq!(r, w);
}

#[test]
fn small_texts() {
    assert_eq!(chars_of("aé"), vec!['a', 'é']);
    assert!(same_text("abc", "abc"));
    assert!(!same_text("abc", "abd"));
    assert!(!same_text("abc", "ab"));
    assert!(equals_ignoring_case("JpEg", "jpeg"));
    assert!(!equals_ignoring_case("jpg", "jpeg"));
    assert!(!equals_ignoring_case("[", "{"));
    assert_eq!(decimal_text(0), "0");
    assert_eq!(decimal_text(1234567890), "1234567890");
    assert_eq!(decimal_text(u64::MAX), "18446744073709551615");
}

#[test]
fn home_becomes_a_tilde() {
    let home = p(&["Users", "me"]);
    assert_eq!(shorten(&p(&["Users", "me", "Pictures"]), Some(&home)), "~\\Pictures");
    assert_eq!(shorten(&home, Some(&home)), "~");
    assert_eq!(shorten(&p(&["Users", "other"]), Some(&home)), "C:\\Users\\other");
    assert_eq!(shorten(&p(&["Users", "me"]), None), "C:\\Users\\me");
    assert_eq!(shorten(&p(&["x"]), Some(&FilePath::empty())), "C:\\x");
}

#[test]
fn long_paths_lose_their_middle() {
    let name = "0123456789012345678901234567890123456789012345678901234567890123456789";
    let full = p(&[name]).display();
    let short = shorten(&p(&[name]), None);
    assert_eq!(short.chars().count(), MAX_LEN);
    let head: String = full.chars().take(29).collect();
    let tail: String = full.chars().skip(full.chars().count() - 30).collect();
    assert_eq!(short, format!("{}…{}", head, tail));
    // Exactly at the limit nothing is cut.
    let edge = "x".repeat(MAX_LEN - 3);
    assert_eq!(shorten(&p(&[&edge]), None).len(), MAX_LEN);
    assert!(!shorten(&p(&[&edge]), None).contains('…'));
    // Long in bytes, short in characters.
    let wide = "字".repeat(30);
    assert_eq!(shorten(&p(&[&wide]), None), format!("C:\\{}", wide));
}
