use gallery_mirror::errors::CrawlError;
use gallery_mirror::paths::{album_dir, dest_file_name, progress_line};
use gallery_mirror::text::sanitize;

#[test]
fn title_quotes_removed_and_slash_becomes_underscore() {
    assert_eq!(sanitize("Gallery \"2024\"/Special"), "Gallery 2024_Special");
}

#[test]
fn breadcrumbs_join_without_home_and_with_sanitized_title() {
    let crumbs = vec![
        "Home".to_string(),
        "Public Appearances".to_string(),
        "2024".to_string(),
        "Gallery \"X\"/Y".to_string(),
    ];
    assert_eq!(album_dir(&crumbs), Ok("Public Appearances/2024/Gallery X_Y".to_string()));
}

#[test]
fn single_breadcrumb_album_is_just_its_title() {
    let crumbs = vec!["Home".to_string(), "My Album".to_string()];
    assert_eq!(album_dir(&crumbs), Ok("My Album".to_string()));
}

#[test]
fn no_segments_after_home_is_an_error() {
    assert_eq!(album_dir(&vec!["Home".to_string()]), Err(CrawlError::NoPathSegments));
    assert_eq!(album_dir(&Vec::new()), Err(CrawlError::NoPathSegments));
}

#[test]
fn destination_files_are_named_one_based_in_order() {
    let names: Vec<String> = (0..5).map(|i| dest_file_name("My Album", i)).collect();
    assert_eq!(names, vec![
        "My Album/1.jpg".to_string(),
        "My Album/2.jpg".to_string(),
        "My Album/3.jpg".to_string(),
        "My Album/4.jpg".to_string(),
        "My Album/5.jpg".to_string(),
    ]);
}

#[test]
fn progress_line_names_current_and_total() {
    assert_eq!(progress_line(2, 5), "Downloading [2] of [5]");
}
