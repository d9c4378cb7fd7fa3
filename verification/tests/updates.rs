use micropub_rs::entry::{ContentFormat, Entry};
use micropub_rs::micropub::{MicropubError, PostAction, route_post};
use micropub_rs::slug::Timestamp;
use micropub_rs::update::{UpdateError, apply_update, parse_update_directive};

const HOST: &str = "https://example.com/";

fn now() -> Timestamp {
    Timestamp { year: 2022, month: 4, day: 8, hour: 19, minute: 30, second: 0 }
}

fn stored(categories: Vec<String>) -> Entry {
    Entry {
        access_token: None,
        kind: "entry".into(),
        content: "old content".into(),
        content_format: None,
        title: Some("old title".into()),
        categories,
        created_at: Some("2020-04-04 15:30:00".into()),
        updated_at: Some("2020-04-05 15:30:00".into()),
        slug: Some("my-post".into()),
        bookmark_of: None,
        photos: None,
    }
}

fn directive_from(body: &[u8]) -> micropub_rs::update::UpdateDirective {
    match route_post(Some("application/json"), body, HOST, &now()).unwrap() {
        PostAction::Update(d) => d,
        PostAction::Create(_, _) => panic!("expected an update"),
    }
}

#[test]
fn update_replace_before_add_orders_categories() {
    let body = br#"{"action":"update","url":"https://example.com/my-post","add":{"category":["c3"]},"replace":{"category":["c1","c2"]}}"#;
    let d = directive_from(&body[..]);
    assert_eq!(d.target_slug, String::from("my-post"));
    let (e2, diff) = apply_update(&stored(vec!["zz".into()]), &d).unwrap();
    let want: Vec<String> = vec!["c1".into(), "c2".into(), "c3".into()];
    assert_eq!(e2.categories, want);
    assert_eq!(diff.replace_with, Some(vec!["c1".into(), "c2".into()]));
    assert_eq!(diff.add, vec![String::from("c3")]);
    assert!(!diff.delete_all);
    assert!(diff.delete_values.is_empty());
}

#[test]
fn update_delete_by_object_removes_only_named() {
    let body = br#"{"action":"update","url":"https://example.com/my-post","delete":{"category":["b"]}}"#;
    let d = directive_from(&body[..]);
    let (e2, diff) =
        apply_update(&stored(vec!["a".into(), "b".into(), "c".into()]), &d).unwrap();
    let want: Vec<String> = vec!["a".into(), "c".into()];
    assert_eq!(e2.categories, want);
    assert_eq!(diff.delete_values, vec![String::from("b")]);
    assert!(!diff.delete_all);
}

#[test]
fn update_delete_by_name_removes_all_categories() {
    let body = br#"{"action":"update","url":"https://example.com/my-post","delete":["category"]}"#;
    let d = directive_from(&body[..]);
    let (e2, diff) =
        apply_update(&stored(vec!["a".into(), "b".into()]), &d).unwrap();
    assert_eq!(e2.categories, Vec::<String>::new());
    assert!(diff.delete_all);
}

#[test]
fn update_scalar_not_array_is_rejected() {
    let body = br#"{"action":"update","url":"https://example.com/my-post","replace":{"content":"plain string"}}"#;
    let d = directive_from(&body[..]);
    assert_eq!(apply_update(&stored(vec![]), &d), Err(UpdateError::Protocol));
}

#[test]
fn update_malformed_delete_is_rejected() {
    let body = br#"{"action":"update","url":"https://example.com/my-post","delete":"category"}"#;
    let d = directive_from(&body[..]);
    assert_eq!(apply_update(&stored(vec![]), &d), Err(UpdateError::Protocol));
}

#[test]
fn update_replaces_plain_and_html_content() {
    let plain = br#"{"action":"update","url":"https://example.com/my-post","replace":{"content":["new text"]}}"#;
    let (e2, _) = apply_update(&stored(vec![]), &directive_from(&plain[..])).unwrap();
    assert_eq!(e2.content, String::from("new text"));
    assert_eq!(e2.content_format, None);

    let html = br#"{"action":"update","url":"https://example.com/my-post","replace":{"content":[{"html":"<b>new</b>"}]}}"#;
    let (e3, _) = apply_update(&stored(vec![]), &directive_from(&html[..])).unwrap();
    assert_eq!(e3.content, String::from("<b>new</b>"));
    assert_eq!(e3.content_format, Some(ContentFormat::Html));
}

#[test]
fn update_replace_name_sets_and_clears_title() {
    let set = br#"{"action":"update","url":"https://example.com/my-post","replace":{"name":["new title"]}}"#;
    let (e2, _) = apply_update(&stored(vec![]), &directive_from(&set[..])).unwrap();
    assert_eq!(e2.title, Some("new title".into()));

    let clear = br#"{"action":"update","url":"https://example.com/my-post","replace":{"name":[]}}"#;
    let (e3, _) = apply_update(&stored(vec![]), &directive_from(&clear[..])).unwrap();
    assert_eq!(e3.title, None);
}

#[test]
fn update_without_url_is_rejected() {
    let body = br#"{"action":"update","replace":{"category":["x"]}}"#;
    let r = route_post(Some("application/json"), &body[..], HOST, &now());
    assert!(matches!(r, Err(MicropubError::Update(UpdateError::NoUrl))));
}

#[test]
fn update_url_outside_site_is_rejected() {
    let body = br#"{"action":"update","url":"https://elsewhere.net/my-post","replace":{"category":["x"]}}"#;
    let r = route_post(Some("application/json"), &body[..], HOST, &now());
    assert!(matches!(r, Err(MicropubError::Update(UpdateError::UrlOutsideSite))));
}

#[test]
fn update_leaves_untouched_fields_alone() {
    let body = br#"{"action":"update","url":"https://example.com/my-post","add":{"category":["extra"]}}"#;
    let d = directive_from(&body[..]);
    let cur = stored(vec!["a".into()]);
    let (e2, _) = apply_update(&cur, &d).unwrap();
    assert_eq!(e2.content, cur.content);
    assert_eq!(e2.title, cur.title);
    assert_eq!(e2.slug, cur.slug);
    assert_eq!(e2.created_at, cur.created_at);
    assert_eq!(e2.updated_at, cur.updated_at);
    let want: Vec<String> = vec!["a".into(), "extra".into()];
    assert_eq!(e2.categories, want);
}

#[test]
fn parse_directive_drops_non_object_parts() {
    let body = br#"{"url":"https://example.com/p","replace":"x","add":5,"delete":["category"]}"#;
    let parsed = micropub_rs::json::parse_json(&body[..]).unwrap();
    let d = parse_update_directive(&parsed, HOST).unwrap();
    assert!(d.replace.is_none());
    assert!(d.add.is_none());
    assert!(d.delete.is_some());
}
