use link_citation::citation::{build, RemoteMessage};

fn remote() -> RemoteMessage {
    RemoteMessage {
        author_name: "Alice".to_string(),
        author_avatar_url: Some("https://cdn.example/alice.png".to_string()),
        content: "hello".to_string(),
        created_at: 1_700_000_000,
        attachment_urls: vec![],
        sticker_image_urls: vec![],
    }
}

#[test]
fn build_without_attachments_or_stickers_leaves_both_urls_absent() {
    let payload = build(remote(), "general".to_string());
    assert_eq!(payload.content, "hello");
    assert_eq!(payload.author_name, "Alice");
    assert_eq!(
        payload.author_icon_url,
        Some("https://cdn.example/alice.png".to_string())
    );
    assert_eq!(payload.channel_name, "general");
    assert_eq!(payload.created_at, 1_700_000_000);
    assert_eq!(payload.attachment_image_url, None);
    assert_eq!(payload.sticker_image_url, None);
}

#[test]
fn build_with_two_attachments_references_exactly_the_first() {
    let mut m = remote();
    m.attachment_urls = vec![
        "https://cdn.example/first.png".to_string(),
        "https://cdn.example/second.png".to_string(),
    ];
    let payload = build(m, "general".to_string());
    assert_eq!(
        payload.attachment_image_url,
        Some("https://cdn.example/first.png".to_string())
    );
}

#[test]
fn build_takes_the_first_sticker_image() {
    let mut m = remote();
    m.sticker_image_urls = vec![
        Some("https://cdn.example/sticker1.png".to_string()),
        Some("https://cdn.example/sticker2.png".to_string()),
    ];
    let payload = build(m, "general".to_string());
    assert_eq!(
        payload.sticker_image_url,
        Some("https://cdn.example/sticker1.png".to_string())
    );
}

#[test]
fn build_keeps_an_absent_avatar_absent() {
    let mut m = remote();
    m.author_avatar_url = None;
    let payload = build(m, "general".to_string());
    assert_eq!(payload.author_icon_url, None);
}
