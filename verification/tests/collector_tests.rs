use gallery_mirror::collector::{Collector, LinkPattern};
use gallery_mirror::errors::{CrawlError, FetchError};

fn album_page(srcs: &[&str], nav_hrefs: &[&str]) -> String {
    let mut body = String::from("<html><body><div class=\"navmenu\">");
    for href in nav_hrefs {
        body.push_str(&format!("<a href=\"{href}\">p</a>"));
    }
    body.push_str("</div><div class=\"thumbnails\"><table><tbody><tr>");
    for src in srcs {
        body.push_str(&format!("<td><a href=\"#\"><img src=\"{src}\"></a></td>"));
    }
    body.push_str("</tr></tbody></table></div></body></html>");
    body
}

#[test]
fn pagination_visits_each_page_once_and_stops() {
    let start = "https://x/photos/thumbnails.php?album=444";
    let nav = [
        "thumbnails.php?album=444&page=2",
        "thumbnails.php?album=444&page=3",
        "thumbnails.php?album=444&page=4",
    ];
    let pages = [
        album_page(&["p1.jpg"], &nav),
        album_page(&["p2.jpg"], &nav),
        album_page(&["p3.jpg"], &nav),
        album_page(&["p4.jpg"], &nav),
    ];
    let mut collector = Collector::new(start.to_string(), LinkPattern::ThumbnailImage);
    let mut fetched = Vec::new();
    while let Some(url) = collector.pending_url() {
        let body = pages[fetched.len()].clone();
        fetched.push(url);
        collector.feed(Ok(body)).unwrap();
    }
    // The successor page's URL chains a page parameter off the current
    // page's URL, so later pages carry the earlier parameters too.
    assert_eq!(fetched, vec![
        "https://x/photos/thumbnails.php?album=444".to_string(),
        "https://x/photos/thumbnails.php?album=444&page=2".to_string(),
        "https://x/photos/thumbnails.php?album=444&page=2&page=3".to_string(),
        "https://x/photos/thumbnails.php?album=444&page=2&page=3&page=4".to_string(),
    ]);
    assert!(collector.is_complete());
    assert_eq!(collector.into_links(), vec![
        "p1.jpg".to_string(),
        "p2.jpg".to_string(),
        "p3.jpg".to_string(),
        "p4.jpg".to_string(),
    ]);
}

#[test]
fn two_page_album_preserves_order() {
    let start = "https://x/photos/thumbnails.php?album=7";
    let page1 = album_page(&["A", "B"], &["thumbnails.php?album=7&page=2"]);
    let page2 = album_page(&["C", "D"], &[]);
    let mut collector = Collector::new(start.to_string(), LinkPattern::ThumbnailImage);
    collector.feed(Ok(page1)).unwrap();
    assert!(collector.pending_url().is_some());
    collector.feed(Ok(page2)).unwrap();
    assert!(collector.is_complete());
    assert_eq!(collector.into_links(), vec![
        "A".to_string(),
        "B".to_string(),
        "C".to_string(),
        "D".to_string(),
    ]);
}

#[test]
fn fetch_failure_aborts_without_partial_links() {
    let start = "https://x/photos/thumbnails.php?album=9";
    let nav = ["thumbnails.php?album=9&page=2", "thumbnails.php?album=9&page=3"];
    let page1 = album_page(&["A"], &nav);
    let mut collector = Collector::new(start.to_string(), LinkPattern::ThumbnailImage);
    collector.feed(Ok(page1)).unwrap();
    // Page 2 fails to fetch: the whole collection fails, page 3 is never
    // requested, and no link list is handed out.
    let outcome = collector.feed(Err(FetchError::Status(503)));
    assert_eq!(outcome, Err(CrawlError::Fetch(FetchError::Status(503))));
    assert!(collector.pending_url().is_none());
    assert!(!collector.is_complete());
}

#[test]
fn malformed_page_value_fails_the_walk() {
    let start = "https://x/photos/thumbnails.php?album=5";
    let page1 = album_page(&["A"], &["thumbnails.php?album=not-a-number"]);
    let mut collector = Collector::new(start.to_string(), LinkPattern::ThumbnailImage);
    let outcome = collector.feed(Ok(page1));
    assert_eq!(outcome, Err(CrawlError::PageNumberInvalid));
    assert!(collector.pending_url().is_none());
    assert!(!collector.is_complete());
}

#[test]
fn gap_in_page_numbers_stops_the_walk() {
    let start = "https://x/photos/thumbnails.php?album=5";
    // Only page 3 is on offer from page 1: the exact successor 2 is
    // missing, so the walk ends after page 1.
    let page1 = album_page(&["A"], &["thumbnails.php?album=5&page=3"]);
    let mut collector = Collector::new(start.to_string(), LinkPattern::ThumbnailImage);
    collector.feed(Ok(page1)).unwrap();
    assert!(collector.is_complete());
    assert_eq!(collector.into_links(), vec!["A".to_string()]);
}

#[test]
fn url_without_query_string_gets_question_mark() {
    let start = "https://x/photos/thumbnails.php";
    let page1 = album_page(&["A"], &["thumbnails.php?page=2"]);
    let page2 = album_page(&["B"], &[]);
    let mut collector = Collector::new(start.to_string(), LinkPattern::ThumbnailImage);
    collector.feed(Ok(page1)).unwrap();
    assert_eq!(
        collector.pending_url(),
        Some("https://x/photos/thumbnails.php?page=2".to_string())
    );
    collector.feed(Ok(page2)).unwrap();
    assert!(collector.is_complete());
    assert_eq!(collector.into_links(), vec!["A".to_string(), "B".to_string()]);
}

#[test]
fn category_collection_uses_album_anchors() {
    let start = "https://x/photos/index.php?cat=3";
    let body = "<html><body>\
        <p class=\"alblink\"><a href=\"thumbnails.php?album=1\">One</a></p>\
        <p class=\"alblink\"><a href=\"thumbnails.php?album=2\">Two</a></p>\
        </body></html>";
    let mut collector = Collector::new(start.to_string(), LinkPattern::AlbumAnchor);
    collector.feed(Ok(body.to_string())).unwrap();
    assert!(collector.is_complete());
    assert_eq!(collector.into_links(), vec![
        "thumbnails.php?album=1".to_string(),
        "thumbnails.php?album=2".to_string(),
    ]);
}

#[test]
fn first_matching_successor_wins() {
    let start = "https://x/photos/thumbnails.php?album=5";
    // Both a match and a later malformed value: the scan stops at the
    // first exact successor and never reaches the malformed link.
    let page1 = album_page(&["A"], &["thumbnails.php?album=5&page=2", "broken"]);
    let page2 = album_page(&["B"], &[]);
    let mut collector = Collector::new(start.to_string(), LinkPattern::ThumbnailImage);
    collector.feed(Ok(page1)).unwrap();
    assert_eq!(
        collector.pending_url(),
        Some("https://x/photos/thumbnails.php?album=5&page=2".to_string())
    );
    collector.feed(Ok(page2)).unwrap();
    assert!(collector.is_complete());
    assert_eq!(collector.into_links(), vec!["A".to_string(), "B".to_string()]);
}
