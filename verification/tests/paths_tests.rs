use gui_app::paths::get_unique_file_path;
use std::cell::RefCell;

#[test]
fn free_base_path_is_kept() {
    let r = get_unique_file_path("/d/video.mp4", |_p: &str| false, 7);
    assert_eq!(r, Some("/d/video.mp4".to_string()));
}

#[test]
fn first_free_numbered_name() {
    let taken = ["/d/video.mp4", "/d/video (1).mp4", "/d/video (2).mp4"];
    let r = get_unique_file_path("/d/video.mp4", |p: &str| taken.contains(&p), 7);
    assert_eq!(r, Some("/d/video (3).mp4".to_string()));
}

#[test]
fn numbered_name_without_extension() {
    let r = get_unique_file_path("/d/notes", |p: &str| p == "/d/notes", 7);
    assert_eq!(r, Some("/d/notes (1)".to_string()));
}

#[test]
fn timestamp_when_every_number_is_taken() {
    let asked = RefCell::new(0u32);
    let r = get_unique_file_path(
        "/d/clip.webm",
        |p: &str| {
            *asked.borrow_mut() += 1;
            p != "/d/clip_1700000000.webm"
        },
        1700000000,
    );
    assert_eq!(r, Some("/d/clip_1700000000.webm".to_string()));
    assert_eq!(*asked.borrow(), 1002);
}

#[test]
fn none_when_every_candidate_is_taken() {
    let r = get_unique_file_path("/d/clip.webm", |_p: &str| true, 1700000000);
    assert_eq!(r, None);
}

#[test]
fn bare_file_name_stays_bare() {
    let r = get_unique_file_path("a.txt", |p: &str| p == "a.txt", 1);
    assert_eq!(r, Some("a (1).txt".to_string()));
}
