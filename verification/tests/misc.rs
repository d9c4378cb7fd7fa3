use micropub_rs::auth::TokenValidateResponse;
use micropub_rs::errors::DBError;
use micropub_rs::media::guess_format;
use micropub_rs::micropub::{PostAction, QueryError, route_post, source_query_slug};
use micropub_rs::model::{NewPostHistory, Post};
use micropub_rs::slug::Timestamp;
use micropub_rs::view_models::Date;

fn token(scope: &str) -> TokenValidateResponse {
    TokenValidateResponse {
        me: "https://example.com/".into(),
        client_id: "https://quill.p3k.io/".into(),
        issued_at: 1603571553,
        scope: scope.into(),
        nonce: 42,
    }
}

#[test]
fn scopes_splits_on_whitespace() {
    let want: Vec<String> = vec!["create".into(), "update".into(), "media".into()];
    assert_eq!(token("create update  media").scopes(), want);
}

#[test]
fn scopes_of_empty_string_is_empty() {
    assert_eq!(token("").scopes(), Vec::<String>::new());
}

#[test]
fn matches_site_compares_me_to_host() {
    assert!(token("create").matches_site("https://example.com/"));
    assert!(!token("create").matches_site("https://other.example/"));
}

#[test]
fn db_error_status_codes() {
    assert_eq!(DBError::new().status_code(), 500);
    assert_eq!(DBError::not_found().status_code(), 404);
    assert!(DBError::not_found().is_not_found());
    assert!(!DBError::default().is_not_found());
}

#[test]
fn guess_format_reads_image_subtype() {
    assert_eq!(guess_format(&Some("image/jpeg")), Some("jpeg".into()));
    assert_eq!(guess_format(&Some("image/*")), None);
    assert_eq!(guess_format(&Some("text/html")), None);
    assert_eq!(guess_format(&Some("not a mime")), None);
    assert_eq!(guess_format(&None), None);
}

#[test]
fn source_query_slug_decodes_and_strips_host() {
    assert_eq!(
        source_query_slug("https%3A%2F%2Fexample.com%2Fmy-post", "https://example.com/"),
        Ok("my-post".into())
    );
    assert_eq!(
        source_query_slug("https%3A%2F%2Felsewhere.net%2Fp", "https://example.com/"),
        Err(QueryError::OutsideSite)
    );
    assert_eq!(
        source_query_slug("%ff%fe", "https://example.com/"),
        Err(QueryError::BadUrl)
    );
}

#[test]
fn route_post_falls_through_to_create() {
    let now = Timestamp { year: 2020, month: 10, day: 24, hour: 15, minute: 32, second: 33 };
    let body = b"h=entry&content=hello+there&name=A+Title";
    match route_post(None, &body[..], "https://example.com/", &now).unwrap() {
        PostAction::Create(entry, slug) => {
            assert_eq!(entry.content, String::from("hello there"));
            assert_eq!(slug, String::from("2020/10/24/a-title"));
        },
        PostAction::Update(_) => panic!("expected a creation"),
    }
}

#[test]
fn route_post_uses_caller_slug_when_present() {
    let now = Timestamp { year: 2020, month: 10, day: 24, hour: 15, minute: 32, second: 33 };
    let body = br#"{"type":["h-entry"],"properties":{"content":["x"],"mp-slug":["chosen"]}}"#;
    match route_post(Some("application/json"), &body[..], "https://example.com/", &now).unwrap() {
        PostAction::Create(_, slug) => assert_eq!(slug, String::from("chosen")),
        PostAction::Update(_) => panic!("expected a creation"),
    }
}

#[test]
fn route_post_non_update_action_creates() {
    let now = Timestamp { year: 2020, month: 10, day: 24, hour: 15, minute: 32, second: 33 };
    let body = br#"{"action":"delete","type":["h-entry"],"properties":{"content":["x"]}}"#;
    match route_post(Some("application/json"), &body[..], "https://example.com/", &now) {
        Ok(PostAction::Create(entry, _)) => assert_eq!(entry.content, String::from("x")),
        _ => panic!("expected a creation"),
    }
}

#[test]
fn date_from_parts_writes_unpadded_strings() {
    let d = Date::from_parts(2020, 10, 24, 15, 32, 33);
    assert_eq!(d.date, String::from("2020-10-24"));
    assert_eq!(d.time, String::from("15:32:33"));
    let d2 = Date::from_parts(2021, 4, 7, 4, 5, 6);
    assert_eq!(d2.date, String::from("2021-4-7"));
    assert_eq!(d2.time, String::from("4:5:6"));
}

#[test]
fn view_post_renders_markdown_content() {
    let post = Post {
        id: 1,
        slug: "p".into(),
        entry_type: "entry".into(),
        name: None,
        content: Some("*hi*".into()),
        client_id: None,
        created_at: "2020-04-04 15:30:00".into(),
        updated_at: "2020-04-04 15:30:00".into(),
        content_type: Some("markdown".into()),
        bookmark_of: None,
    };
    let date = Date::from_parts(2020, 4, 4, 15, 30, 0);
    let view = micropub_rs::view_models::Post::new_from(post, vec![], date, vec![]);
    let rendered = view.content.unwrap();
    assert!(rendered.contains("<em>hi</em>"));
    assert_ne!(rendered, String::from("*hi*"));
}

#[test]
fn view_post_passes_plain_content_through() {
    let post = Post {
        id: 1,
        slug: "p".into(),
        entry_type: "entry".into(),
        name: Some("t".into()),
        content: Some("plain".into()),
        client_id: None,
        created_at: "2020-04-04 15:30:00".into(),
        updated_at: "2020-04-04 15:30:00".into(),
        content_type: None,
        bookmark_of: None,
    };
    let date = Date::from_parts(2020, 4, 4, 15, 30, 0);
    let view = micropub_rs::view_models::Post::new_from(
        post,
        vec!["tag".into()],
        date,
        vec![("u".into(), None)],
    );
    assert_eq!(view.content, Some("plain".into()));
    assert_eq!(view.tags, vec![String::from("tag")]);
    assert_eq!(view.photos.len(), 1);
    assert_eq!(view.photos[0].url, String::from("u"));
}

#[test]
fn post_history_snapshots_every_field() {
    let post = Post {
        id: 9,
        slug: "s".into(),
        entry_type: "entry".into(),
        name: Some("n".into()),
        content: Some("c".into()),
        client_id: Some("cid".into()),
        created_at: "a".into(),
        updated_at: "b".into(),
        content_type: Some("html".into()),
        bookmark_of: Some("u".into()),
    };
    let h = NewPostHistory::from(post.clone());
    assert_eq!(h.post_id, post.id);
    assert_eq!(h.slug, post.slug);
    assert_eq!(h.entry_type, post.entry_type);
    assert_eq!(h.name, post.name);
    assert_eq!(h.content, post.content);
    assert_eq!(h.client_id, post.client_id);
    assert_eq!(h.created_at, post.created_at);
    assert_eq!(h.updated_at, post.updated_at);
    assert_eq!(h.content_type, post.content_type);
    assert_eq!(h.bookmark_of, post.bookmark_of);
}

#[test]
fn configuration_defaults() {
    assert_eq!(
        micropub_rs::config::default_auth_token_endpoint(),
        String::from("https://tokens.indieauth.com/token")
    );
    assert_eq!(
        micropub_rs::config::default_auth_endpoint(),
        String::from("https://indieauth.com/auth")
    );
    assert_eq!(micropub_rs::default_max_upload_length(), 1024 * 1024 * 50);
}
