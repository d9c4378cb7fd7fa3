use micropub_rs::slug::{Timestamp, get_first_n, get_slug, parse_timestamp};

fn now() -> Timestamp {
    Timestamp { year: 2020, month: 10, day: 24, hour: 15, minute: 32, second: 33 }
}

#[test]
fn it_uses_name_if_name_exists() {
    assert_eq!(get_slug(Some("testing"), &now()), "2020/10/24/testing");
}

#[test]
fn it_replaces_spaces_in_name_with_hyphens() {
    assert_eq!(get_slug(Some("testing stuff"), &now()), "2020/10/24/testing-stuff");
}

#[test]
fn it_removes_non_alpha_numeric_chars_and_truncates() {
    assert_eq!(
        get_slug(Some("testing stuff! This is a really long title."), &now()),
        "2020/10/24/testing-stuff-this-is-a-really-l"
    );
}

#[test]
fn it_uses_content_if_no_name() {
    assert_eq!(get_slug(None, &now()), "2020/10/24/153233");
}

#[test]
fn it_truncates_content_for_slug() {
    assert_eq!(get_slug(None, &now()), "2020/10/24/153233");
}

#[test]
fn get_first_n_lowercases_and_filters() {
    assert_eq!(get_first_n(32, "Hello, World!"), "hello world");
    assert_eq!(get_first_n(5, "abcdefgh"), "abcde");
    assert_eq!(get_first_n(32, ""), "");
}

#[test]
fn slug_pads_single_digit_date_parts() {
    let t = Timestamp { year: 2021, month: 3, day: 7, hour: 4, minute: 5, second: 6 };
    assert_eq!(get_slug(None, &t), "2021/03/07/040506");
    assert_eq!(get_slug(Some("hi"), &t), "2021/03/07/hi");
}

#[test]
fn parse_timestamp_reads_stored_shape() {
    assert_eq!(
        parse_timestamp("2020-04-04 15:30:00"),
        Some(Timestamp { year: 2020, month: 4, day: 4, hour: 15, minute: 30, second: 0 })
    );
    assert_eq!(parse_timestamp("2020-04-04T15:30:00"), None);
    assert_eq!(parse_timestamp("2020-13-04 15:30:00"), None);
    assert_eq!(parse_timestamp("not a date"), None);
}
