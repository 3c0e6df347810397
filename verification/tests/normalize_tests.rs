use gallery_mirror::normalize::{dedup_urls, normalize, normalize_all};

#[test]
fn removes_every_thumb_occurrence() {
    let base = "https://x/photos";
    assert_eq!(normalize("thumb_thumb_x.jpg", base), "https://x/photos/x.jpg");
}

#[test]
fn rewrites_root_relative_link_against_base() {
    let r = normalize(
        "/albums/userpics/10001/574591655_daisy-1.jpg",
        "https://daisy-ridley.org/photos",
    );
    assert_eq!(r, "https://daisy-ridley.org/photos/albums/userpics/10001/574591655_daisy-1.jpg");
}

#[test]
fn strips_thumb_in_the_middle_of_a_path() {
    let r = normalize("albums/userpics/10001/thumb_574591655_daisy-1.jpg", "https://h/photos");
    assert_eq!(r, "https://h/photos/albums/userpics/10001/574591655_daisy-1.jpg");
}

#[test]
fn absolute_link_is_kept_as_is() {
    let r = normalize("https://cdn.example/pics/thumb_a.jpg", "https://h/photos");
    assert_eq!(r, "https://cdn.example/pics/a.jpg");
}

#[test]
fn plain_relative_link_gets_base_and_separator() {
    assert_eq!(normalize("a.jpg", "https://h/photos"), "https://h/photos/a.jpg");
}

#[test]
fn dedup_keeps_first_occurrence_in_order() {
    let urls = vec![
        "https://h/a.jpg".to_string(),
        "https://h/b.jpg".to_string(),
        "https://h/a.jpg".to_string(),
        "https://h/c.jpg".to_string(),
        "https://h/b.jpg".to_string(),
    ];
    assert_eq!(dedup_urls(&urls), vec![
        "https://h/a.jpg".to_string(),
        "https://h/b.jpg".to_string(),
        "https://h/c.jpg".to_string(),
    ]);
}

#[test]
fn links_equal_after_normalization_collapse_to_one() {
    // Two raw links that differ only by the removed prefix normalize to
    // the same image URL, so only one download remains.
    let links = vec!["albums/thumb_a.jpg".to_string(), "albums/a.jpg".to_string()];
    let images = dedup_urls(&normalize_all(&links, "https://h/photos"));
    assert_eq!(images, vec!["https://h/photos/albums/a.jpg".to_string()]);
}

#[test]
fn dedup_leaves_distinct_urls_alone() {
    let urls = vec!["https://h/a.jpg".to_string(), "https://h/b.jpg".to_string()];
    assert_eq!(dedup_urls(&urls), urls);
}

#[test]
fn normalizes_a_whole_collection_in_order() {
    let links = vec![
        "albums/thumb_a.jpg".to_string(),
        "/albums/b.jpg".to_string(),
    ];
    assert_eq!(normalize_all(&links, "https://h/photos"), vec![
        "https://h/photos/albums/a.jpg".to_string(),
        "https://h/photos/albums/b.jpg".to_string(),
    ]);
}
