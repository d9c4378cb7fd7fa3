use micropub_rs::entry::{ContentFormat, Entry};

#[test]
fn micropub_form_decode_category_as_array() {
    let qs = b"h=entry&content=this+is+only+a+test+of+micropub&category%5B%5D=test&category%5B%5D=micropub";
    let form = Entry {
        access_token: None,
        title: None,
        kind: "entry".into(),
        content: "this is only a test of micropub".into(),
        content_format: None,
        categories: vec!["test".into(), "micropub".into()],
        created_at: None,
        updated_at: None,
        slug: None,
        bookmark_of: None,
        photos: None,
    };

    assert_eq!(form, Entry::from_form_bytes(&qs[..]).unwrap());
}

#[test]
fn micropub_form_decode_category_as_single_param_into_vec() {
    let qs = b"h=entry&content=this+is+only+a+test+of+micropub&category=micropub";
    let form = Entry {
        access_token: None,
        title: None,
        kind: "entry".into(),
        content: "this is only a test of micropub".into(),
        content_format: None,
        categories: vec!["micropub".into()],
        created_at: None,
        updated_at: None,
        slug: None,
        bookmark_of: None,
        photos: None,
    };

    assert_eq!(form, Entry::from_form_bytes(&qs[..]).unwrap());
}

#[test]
fn micropub_form_decode_category_missing_empty_vec() {
    let qs = b"h=entry&content=this+is+only+a+test+of+micropub";
    let form = Entry {
        access_token: None,
        title: None,
        kind: "entry".into(),
        content: "this is only a test of micropub".into(),
        content_format: None,
        categories: vec![],
        created_at: None,
        updated_at: None,
        slug: None,
        bookmark_of: None,
        photos: None,
    };

    assert_eq!(form, Entry::from_form_bytes(&qs[..]).unwrap());
}

#[test]
fn micropub_form_decode_content_html() {
    let qs = b"h=entry&name=Test%20Article%20from%20Micropublish.net&content[html]=%3Cdiv%3EThis%20is%20a%20test%20article%3Cbr%3E%3Cbr%3E%3Cstrong%3EIt%20has%20formatting%3Cbr%3E%3Cbr%3E%3C%2Fstrong%3EIt%20can%20%3Ca%20href%3D%22https%3A%2F%2Fdavidwilemski.com%22%3Eembed%20links%3C%2Fa%3E%3C%2Fdiv%3E&category=test&post-status=published&mp-slug=test-article-micropublish-net";
    let form = Entry {
        access_token: None,
        title: Some("Test Article from Micropublish.net".into()),
        kind: "entry".into(),
        content: "<div>This is a test article<br><br><strong>It has formatting<br><br></strong>It can <a href=\"https://davidwilemski.com\">embed links</a></div>".into(),
        content_format: Some(ContentFormat::Html),
        categories: vec!["test".into()],
        created_at: None,
        updated_at: None,
        slug: None,
        bookmark_of: None,
        photos: None,
    };

    assert_eq!(form, Entry::from_form_bytes(&qs[..]).unwrap());
}

#[test]
fn form_decode_missing_content_is_error() {
    let qs = b"h=entry&category=micropub";
    assert_eq!(
        Entry::from_form_bytes(&qs[..]),
        Err(micropub_rs::normalize::DecodeError::MissingContent)
    );
}

#[test]
fn form_decode_keeps_duplicate_categories() {
    let qs = b"h=entry&content=x&category=dup&category=dup";
    let decoded = Entry::from_form_bytes(&qs[..]).unwrap();
    let dup: String = "dup".into();
    assert_eq!(decoded.categories, vec![dup.clone(), dup]);
}

#[test]
fn form_decode_access_token_field() {
    let qs = b"h=entry&content=x&access_token=SECRET-REDACTED";
    let decoded = Entry::from_form_bytes(&qs[..]).unwrap();
    assert_eq!(decoded.access_token, Some("SECRET-REDACTED".into()));
}

#[test]
fn form_decode_empty_body_is_error() {
    let qs = b"";
    assert!(Entry::from_form_bytes(&qs[..]).is_err());
}
