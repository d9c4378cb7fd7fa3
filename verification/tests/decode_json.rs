use micropub_rs::entry::{ContentFormat, Entry, Photo};
use micropub_rs::normalize::DecodeError;

#[test]
fn micropub_json_decode_post_entry_from_quill() {
    let bytes = b"{\"type\":[\"h-entry\"],\"properties\":{\"name\":[\"Testing quill\"],\"content\":[{\"html\":\"<p>This is a test of https:\\/\\/quill.p3k.io<\\/p>\\n<p>\\n  hello hello\\n  <br \\/>\\n<\\/p>\"}],\"category\":[\"test\"],\"mp-slug\":[\"quill-test\"]}}";
    let form = Entry {
        access_token: None,
        title: Some("Testing quill".into()),
        kind: "entry".into(),
        content: "<p>This is a test of https://quill.p3k.io</p>\n<p>\n  hello hello\n  <br />\n</p>".into(),
        content_format: Some(ContentFormat::Html),
        categories: vec!["test".into()],
        created_at: None,
        updated_at: None,
        slug: Some("quill-test".into()),
        bookmark_of: None,
        photos: None,
    };

    assert_eq!(form, Entry::from_json_bytes(&bytes[..]).unwrap());
}

#[test]
fn micropub_json_decode_bookmark_of_entry() {
    let bytes = b"{\"type\":[\"h-entry\"],\"properties\":{\"name\":[\"Testing bookmarks\"],\"content\":[\"Bookmark test\"],\"bookmark-of\":[\"https://davidwilemski.com\"]}}";
    let form = Entry {
        access_token: None,
        title: Some("Testing bookmarks".into()),
        kind: "entry".into(),
        content: "Bookmark test".into(),
        content_format: None,
        categories: vec![],
        created_at: None,
        updated_at: None,
        slug: None,
        bookmark_of: Some("https://davidwilemski.com".into()),
        photos: None,
    };

    assert_eq!(form, Entry::from_json_bytes(&bytes[..]).unwrap());
}

#[test]
fn micropub_json_decode_post_entry_markdown_format() {
    let bytes = b"{\"type\":[\"h-entry\"],\"properties\":{\"name\":[\"Testing markdown\"],\"content\":[{\"markdown\":\"This _is_ a *markdown* document. \\n # Header 1 \\n normal text\"}],\"category\":[\"markdown\"],\"mp-slug\":[\"markdown-test\"]}}";
    let form = Entry {
        access_token: None,
        title: Some("Testing markdown".into()),
        kind: "entry".into(),
        content: "This _is_ a *markdown* document. \n # Header 1 \n normal text".into(),
        content_format: Some(ContentFormat::Markdown),
        categories: vec!["markdown".into()],
        created_at: None,
        updated_at: None,
        slug: Some("markdown-test".into()),
        bookmark_of: None,
        photos: None,
    };

    assert_eq!(form, Entry::from_json_bytes(&bytes[..]).unwrap());
}

#[test]
fn micropub_json_decode_handles_published_property() {
    let bytes = b"{\"type\":[\"h-entry\"],\"properties\":{\"name\":[\"Testing published\"],\"content\":[{\"html\":\"content!\"}],\"category\":[\"publish-date\"],\"mp-slug\":[\"publish-date-slug\"], \"published\":[\"2020-04-04 15:30:00\"]}}";
    let form = Entry {
        access_token: None,
        title: Some("Testing published".into()),
        kind: "entry".into(),
        content: "content!".into(),
        content_format: Some(ContentFormat::Html),
        categories: vec!["publish-date".into()],
        created_at: Some("2020-04-04 15:30:00".into()),
        updated_at: None,
        slug: Some("publish-date-slug".into()),
        bookmark_of: None,
        photos: None,
    };

    assert_eq!(form, Entry::from_json_bytes(&bytes[..]).unwrap());
}

#[test]
fn micropub_form_decode_photo_property() {
    let bytes = b"{\"type\":[\"h-entry\"],\"properties\":{\"content\":[\"test upload\"],\"photo\":[{\"value\":\"https:\\/\\/davidwilemski.com\\/media\\/2a2ae02f9addf60f708298221e661db15b8afc340d8b934bc94b9e37f293074f\",\"alt\":\"test upload\"}]}}";
    let form = Entry {
        access_token: None,
        title: None,
        kind: "entry".into(),
        content: "test upload".into(),
        content_format: None,
        categories: vec![],
        created_at: None,
        updated_at: None,
        slug: None,
        bookmark_of: None,
        photos: Some(vec![
            Photo {
                url: "https://davidwilemski.com/media/2a2ae02f9addf60f708298221e661db15b8afc340d8b934bc94b9e37f293074f".into(),
                alt: Some("test upload".into()),
            }
        ]),
    };

    assert_eq!(form, Entry::from_json_bytes(&bytes[..]).unwrap());
}

#[test]
fn micropub_form_decode_multiple_photo_property() {
    let bytes = b"{\"type\":[\"h-entry\"],\"properties\":{\"content\":[\"test upload\"],\"photo\":[{\"value\":\"https:\\/\\/davidwilemski.com\\/media\\/2a2ae02f9addf60f708298221e661db15b8afc340d8b934bc94b9e37f293074f\",\"alt\":\"test upload\"},\"https:\\/\\/davidwilemski.com\\/media\\/df1dfea9b0a062e8e27ee6fed1df597995547e16a73570107ff475b33d59f4fb\"]}}";
    let form = Entry {
        access_token: None,
        title: None,
        kind: "entry".into(),
        content: "test upload".into(),
        content_format: None,
        categories: vec![],
        created_at: None,
        updated_at: None,
        slug: None,
        bookmark_of: None,
        photos: Some(vec![
            Photo {
                url: "https://davidwilemski.com/media/2a2ae02f9addf60f708298221e661db15b8afc340d8b934bc94b9e37f293074f".into(),
                alt: Some("test upload".into()),
            },
            Photo {
                url: "https://davidwilemski.com/media/df1dfea9b0a062e8e27ee6fed1df597995547e16a73570107ff475b33d59f4fb".into(),
                alt: None,
            }
        ]),
    };

    assert_eq!(form, Entry::from_json_bytes(&bytes[..]).unwrap());
}

#[test]
fn json_decode_category_scalar_and_array_agree() {
    let scalar = b"{\"type\":[\"h-entry\"],\"properties\":{\"content\":[\"x\"],\"category\":\"x\"}}";
    let array = b"{\"type\":[\"h-entry\"],\"properties\":{\"content\":[\"x\"],\"category\":[\"x\"]}}";
    let a = Entry::from_json_bytes(&scalar[..]).unwrap();
    let b = Entry::from_json_bytes(&array[..]).unwrap();
    let x: String = "x".into();
    assert_eq!(a.categories, b.categories);
    assert_eq!(a.categories, vec![x]);
}

#[test]
fn json_decode_missing_category_is_empty_list() {
    let bytes = b"{\"type\":[\"h-entry\"],\"properties\":{\"content\":[\"x\"]}}";
    let decoded = Entry::from_json_bytes(&bytes[..]).unwrap();
    assert_eq!(decoded.categories, Vec::<String>::new());
}

#[test]
fn json_decode_missing_content_fails() {
    let bytes = b"{\"type\":[\"h-entry\"],\"properties\":{\"name\":[\"A title\"],\"category\":[\"a\",\"b\"],\"mp-slug\":[\"s\"],\"bookmark-of\":[\"https://x\"]}}";
    assert_eq!(Entry::from_json_bytes(&bytes[..]), Err(DecodeError::MissingContent));
}

#[test]
fn json_decode_invalid_bytes_is_parse_error() {
    let bytes = b"this is not json";
    assert_eq!(Entry::from_json_bytes(&bytes[..]), Err(DecodeError::Parse));
}

#[test]
fn json_decode_wrong_shape_is_structure_error() {
    let no_properties = b"{\"type\":[\"h-entry\"]}";
    assert_eq!(Entry::from_json_bytes(&no_properties[..]), Err(DecodeError::Structure));
    let number_in_property = b"{\"type\":[\"h-entry\"],\"properties\":{\"content\":[\"x\"],\"rating\":[3]}}";
    assert_eq!(Entry::from_json_bytes(&number_in_property[..]), Err(DecodeError::Structure));
    let bad_type = b"{\"type\":\"h-entry\",\"properties\":{\"content\":[\"x\"]}}";
    assert_eq!(Entry::from_json_bytes(&bad_type[..]), Err(DecodeError::Structure));
}

#[test]
fn json_decode_missing_type_defaults_to_entry() {
    let bytes = b"{\"properties\":{\"content\":[\"x\"]}}";
    let decoded = Entry::from_json_bytes(&bytes[..]).unwrap();
    assert_eq!(decoded.kind, String::from("entry"));
}

#[test]
fn json_decode_strips_h_prefix_from_kind() {
    let bytes = b"{\"type\":[\"h-food\"],\"properties\":{\"content\":[\"tea\"]}}";
    let decoded = Entry::from_json_bytes(&bytes[..]).unwrap();
    assert_eq!(decoded.kind, String::from("food"));
}
