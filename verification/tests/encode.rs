use micropub_rs::entry::{ContentFormat, Entry, Photo};
use micropub_rs::model::Post;

#[test]
fn micropub_encode_post_to_properties() {
    let post = Post {
        id: 3,
        slug: "slug".into(),
        entry_type: "entry".into(),
        name: Some("title".into()),
        content: Some("test content".into()),
        client_id: None,
        created_at: "2020-04-04 15:30:00".into(),
        updated_at: "2022-04-08 19:30:00".into(),
        content_type: None,
        bookmark_of: None,
    };
    let form = Entry::from_post(&post, &vec![], &vec![]);
    let json_properties = b"{\"type\":[\"h-entry\"],\"properties\":{\"mp-slug\":[\"slug\"],\"name\":[\"title\"],\"content\":[\"test content\"],\"published\":[\"2020-04-04 15:30:00\"],\"updated\":[\"2022-04-08 19:30:00\"]}}";

    assert_eq!(
        Entry::from_json_bytes(form.to_properties_json().as_bytes()).unwrap(),
        Entry::from_json_bytes(json_properties).unwrap()
    );
}

#[test]
fn micropub_encode_post_to_properties_with_html_content() {
    let post = Post {
        id: 3,
        slug: "slug".into(),
        entry_type: "entry".into(),
        name: Some("title".into()),
        content: Some("<b>test content</b>".into()),
        client_id: None,
        created_at: "2020-04-04 15:30:00".into(),
        updated_at: "2022-04-08 19:30:00".into(),
        content_type: Some("html".into()),
        bookmark_of: None,
    };
    let form = Entry::from_post(&post, &vec![], &vec![]);
    let json_properties = b"{\"type\":[\"h-entry\"],\"properties\":{\"mp-slug\":[\"slug\"],\"name\":[\"title\"],\"content\":[{\"html\":\"<b>test content</b>\"}],\"published\":[\"2020-04-04 15:30:00\"],\"updated\":[\"2022-04-08 19:30:00\"]}}";

    assert_eq!(
        Entry::from_json_bytes(form.to_properties_json().as_bytes()).unwrap(),
        Entry::from_json_bytes(json_properties).unwrap()
    );
}

#[test]
fn micropub_encode_post_to_properties_without_name() {
    let post = Post {
        id: 3,
        slug: "slug".into(),
        entry_type: "entry".into(),
        name: None,
        content: Some("test content".into()),
        client_id: None,
        created_at: "2020-04-04 15:30:00".into(),
        updated_at: "2022-04-08 19:30:00".into(),
        content_type: None,
        bookmark_of: None,
    };
    let form = Entry::from_post(&post, &vec![], &vec![]);
    let json_properties = b"{\"type\":[\"h-entry\"],\"properties\":{\"mp-slug\":[\"slug\"],\"content\":[\"test content\"],\"published\":[\"2020-04-04 15:30:00\"],\"updated\":[\"2022-04-08 19:30:00\"]}}";

    assert_eq!(
        Entry::from_json_bytes(form.to_properties_json().as_bytes()).unwrap(),
        Entry::from_json_bytes(json_properties).unwrap()
    );
}

#[test]
fn micropub_encode_post_to_properties_with_categories() {
    let post = Post {
        id: 3,
        slug: "slug".into(),
        entry_type: "entry".into(),
        name: None,
        content: Some("test content".into()),
        client_id: None,
        created_at: "2020-04-04 15:30:00".into(),
        updated_at: "2022-04-08 19:30:00".into(),
        content_type: None,
        bookmark_of: None,
    };
    let categories: Vec<String> = vec!["tag1".into(), "tag2".into()];
    let form = Entry::from_post(&post, &categories, &vec![]);
    let json_properties = b"{\"type\":[\"h-entry\"],\"properties\":{\"mp-slug\":[\"slug\"],\"content\":[\"test content\"],\"published\":[\"2020-04-04 15:30:00\"],\"updated\":[\"2022-04-08 19:30:00\"],\"category\":[\"tag1\",\"tag2\"]}}";

    assert_eq!(
        Entry::from_json_bytes(form.to_properties_json().as_bytes()).unwrap(),
        Entry::from_json_bytes(json_properties).unwrap()
    );
}

#[test]
fn micropub_encode_post_to_properties_with_photos() {
    let post = Post {
        id: 3,
        slug: "slug".into(),
        entry_type: "entry".into(),
        name: None,
        content: Some("test content".into()),
        client_id: None,
        created_at: "2020-04-04 15:30:00".into(),
        updated_at: "2022-04-08 19:30:00".into(),
        content_type: None,
        bookmark_of: None,
    };
    let photos: Vec<(String, Option<String>)> =
        vec![("url1".into(), None), ("url2".into(), Some("alt text".into()))];
    let form = Entry::from_post(&post, &vec![], &photos);
    let json_properties = b"{\"type\":[\"h-entry\"],\"properties\":{\"mp-slug\":[\"slug\"],\"content\":[\"test content\"],\"published\":[\"2020-04-04 15:30:00\"],\"updated\":[\"2022-04-08 19:30:00\"],\"photo\":[{\"value\":\"url1\"},{\"value\":\"url2\",\"alt\":\"alt text\"}]}}";

    assert_eq!(
        Entry::from_json_bytes(form.to_properties_json().as_bytes()).unwrap(),
        Entry::from_json_bytes(json_properties).unwrap()
    );
}

#[test]
fn encode_then_decode_reproduces_canonical_fields() {
    let entry = Entry {
        access_token: None,
        kind: "entry".into(),
        content: "hello world".into(),
        content_format: Some(ContentFormat::Html),
        title: Some("A title".into()),
        categories: vec!["one".into(), "two".into(), "one".into()],
        created_at: Some("2020-04-04 15:30:00".into()),
        updated_at: Some("2022-04-08 19:30:00".into()),
        slug: Some("2020/04/04/a-title".into()),
        bookmark_of: Some("https://example.com/page".into()),
        photos: Some(vec![
            Photo { url: "https://example.com/a.jpg".into(), alt: Some("an a".into()) },
            Photo { url: "https://example.com/b.jpg".into(), alt: None },
        ]),
    };
    let redecoded = Entry::from_json_bytes(entry.to_properties_json().as_bytes()).unwrap();
    assert_eq!(redecoded.content, entry.content);
    assert_eq!(redecoded.content_format, entry.content_format);
    assert_eq!(redecoded.categories, entry.categories);
    assert_eq!(redecoded.photos, entry.photos);
    assert_eq!(redecoded.slug, entry.slug);
    assert_eq!(redecoded.created_at, entry.created_at);
    assert_eq!(redecoded.bookmark_of, entry.bookmark_of);
    assert_eq!(redecoded.title, entry.title);
    assert_eq!(redecoded.updated_at, None);
}
