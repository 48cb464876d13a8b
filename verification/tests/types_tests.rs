use clippo::types::{
    ClipboardContent, ClipboardItem, ItemId, TimestampMillis, FULL_PREVIEW_TEXT_LIMIT,
    PREVIEW_TEXT_LIMIT,
};

#[test]
fn generates_previews_for_supported_clipboard_content_types() {
    let cases = [
        (
            ClipboardContent::Text {
                text: "plain".to_string(),
            },
            "plain",
        ),
        (
            ClipboardContent::RichText {
                plain_text: "rich".to_string(),
                rtf: Some(vec![1, 2, 3]),
                html: None,
            },
            "rich",
        ),
        (
            ClipboardContent::Html {
                plain_text: "html".to_string(),
                html: "<strong>html</strong>".to_string(),
            },
            "html",
        ),
        (
            ClipboardContent::Files {
                paths: vec!["/tmp/a.txt".to_string(), "/tmp/b.txt".to_string()],
            },
            "/tmp/a.txt\n/tmp/b.txt",
        ),
        (
            ClipboardContent::Url {
                url: "https://example.com".to_string(),
                title: Some("Example".to_string()),
            },
            "Example\nhttps://example.com",
        ),
        (
            ClipboardContent::Unsupported {
                format_names: vec!["custom/type".to_string()],
            },
            "custom/type",
        ),
    ];

    for (content, expected_preview) in cases {
        assert_eq!(content.preview_text(), expected_preview);
    }
}

#[test]
fn generates_image_preview_with_dimensions() {
    let content = ClipboardContent::Image {
        bytes: vec![0, 1, 2],
        mime_type: "image/png".to_string(),
        width: Some(10),
        height: Some(20),
    };

    assert_eq!(content.preview_text(), "image/png, 10x20");
}

#[test]
fn rich_content_full_preview_prefers_html() {
    let content = ClipboardContent::RichText {
        plain_text: "plain".to_string(),
        rtf: None,
        html: Some("<p>plain</p>".to_string()),
    };

    assert_eq!(content.full_preview_text(), "<p>plain</p>");
}

#[test]
fn plain_text_for_paste_preserves_whitespace() {
    let content = ClipboardContent::Text {
        text: " one\r\n  two\n".to_string(),
    };

    assert_eq!(content.plain_text_for_paste(), " one\r\n  two\n");
}

#[test]
fn bounds_clipboard_item_preview_text_without_changing_content() {
    let long_text = "a".repeat(PREVIEW_TEXT_LIMIT + 100);
    let content = ClipboardContent::Text {
        text: long_text.clone(),
    };
    let item = ClipboardItem::new(ItemId(1), content, TimestampMillis(1), None);

    assert!(item.preview_text.len() < long_text.len());
    assert!(item.preview_text.ends_with("..."));
    assert!(item.preview_truncated);
    assert_eq!(item.content, ClipboardContent::Text { text: long_text });
}

#[test]
fn reports_bounded_full_preview_truncation() {
    let content = ClipboardContent::Html {
        plain_text: "plain".to_string(),
        html: "<p>".to_string() + &"a".repeat(FULL_PREVIEW_TEXT_LIMIT + 100),
    };

    let preview = content.bounded_full_preview_text();

    assert!(preview.truncated);
    assert!(preview.text.ends_with("..."));
}
