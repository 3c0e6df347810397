use gallery_mirror::text::{
    parse_usize, remove_occurrences, suffix_after_last_eq, usize_to_string,
};

#[test]
fn parses_plain_decimal() {
    assert_eq!(parse_usize("123"), Some(123));
    assert_eq!(parse_usize("0"), Some(0));
}

#[test]
fn rejects_empty_and_non_numeric() {
    assert_eq!(parse_usize(""), None);
    assert_eq!(parse_usize("12a"), None);
    assert_eq!(parse_usize("-3"), None);
}

#[test]
fn rejects_out_of_range_value() {
    assert_eq!(parse_usize("99999999999999999999999999"), None);
}

#[test]
fn writes_decimal() {
    assert_eq!(usize_to_string(0), "0");
    assert_eq!(usize_to_string(12345), "12345");
}

#[test]
fn suffix_after_last_equals_sign() {
    assert_eq!(suffix_after_last_eq("thumbnails.php?album=444&page=2"), "2");
    assert_eq!(suffix_after_last_eq("a=b=c"), "c");
    assert_eq!(suffix_after_last_eq("abc"), "abc");
    assert_eq!(suffix_after_last_eq("a="), "");
}

#[test]
fn removes_non_overlapping_occurrences_left_to_right() {
    assert_eq!(remove_occurrences("thumb_thumb_x.jpg", "thumb_"), "x.jpg");
    assert_eq!(remove_occurrences("a_thumb_b", "thumb_"), "a_b");
    assert_eq!(remove_occurrences("plain.jpg", "thumb_"), "plain.jpg");
}
