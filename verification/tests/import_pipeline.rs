use newsroom::assets::AssetMap;
use newsroom::assets::StoredImage;
use newsroom::content::ArticleContent;
use newsroom::content::SpanContent;
use newsroom::error::ImportError;
use newsroom::html::parse_html;
use newsroom::import::import_article;
use newsroom::import::import_article_now;
use newsroom::richtext::build_article;

fn make_zip(entries: &[(&str, &[u8])]) -> Vec<u8> {
    let mut writer = zip::ZipWriter::new(std::io::Cursor::new(Vec::new()));
    let options = zip::write::SimpleFileOptions::default();
    for (name, data) in entries {
        writer.start_file(*name, options).unwrap();
        std::io::Write::write_all(&mut writer, data).unwrap();
    }
    writer.finish().unwrap().into_inner()
}

fn build_from_html(html: &str) -> Result<ArticleContent, ImportError> {
    let nodes = parse_html(html);
    let assets = AssetMap::empty();
    build_article(&nodes, &assets)
}

#[test]
fn plain_text_paragraph() {
    let html = "<p><span>Headline</span></p>\
                <p style=\"text-align:center;\"><span style=\"color:#ff0000;\">Hello</span></p>";
    let content = build_from_html(html).unwrap();
    assert_eq!(content.headline, "Headline");
    assert_eq!(content.paragraphs.len(), 1);
    let para = &content.paragraphs[0];
    assert_eq!(para.text_alignment, "center");
    assert_eq!(para.text_indent, "0");
    assert_eq!(para.margin_left, "0");
    assert_eq!(para.margin_right, "0");
    assert_eq!(para.spans.len(), 1);
    let span = &para.spans[0];
    assert_eq!(span.color, "#ff0000");
    assert_eq!(span.font_style, "normal");
    assert_eq!(span.text_decoration, "none");
    assert_eq!(span.font_weight, "400");
    assert_eq!(span.content.len(), 1);
    match &span.content[0] {
        SpanContent::text { content } => assert_eq!(content, "Hello"),
        other => panic!("expected a text run, got {:?}", variant_name(other)),
    }
}

fn variant_name(c: &SpanContent) -> &'static str {
    match c {
        SpanContent::text { .. } => "text",
        SpanContent::anchor { .. } => "anchor",
        SpanContent::image { .. } => "image",
    }
}

#[test]
fn anchor_span() {
    let html = "<p><span>H</span></p>\
                <p><span><a href=\"https://x.test\">link</a></span></p>";
    let content = build_from_html(html).unwrap();
    let span = &content.paragraphs[0].spans[0];
    assert_eq!(span.content.len(), 1);
    match &span.content[0] {
        SpanContent::anchor { href, content } => {
            assert_eq!(href, "https://x.test");
            assert_eq!(content, "link");
        },
        other => panic!("expected an anchor, got {}", variant_name(other)),
    }
}

#[test]
fn image_rewrite() {
    let html = "<p><span>H</span></p>\
                <p><span><img src=\"images/pic.png\" alt=\"a pic\"></span></p>";
    let nodes = parse_html(html);
    let mut assets = AssetMap::empty();
    assets.insert(
        "images/pic.png".to_owned(),
        StoredImage {
            year: 2024,
            month: 3,
            name: "abc123".to_owned(),
            ext: "png".to_owned(),
        },
    );
    let content = build_article(&nodes, &assets).unwrap();
    match &content.paragraphs[0].spans[0].content[0] {
        SpanContent::image { src, alt, width, height } => {
            assert_eq!(src, "/image/2024/3/abc123.png");
            assert_eq!(alt, "a pic");
            assert_eq!(width, "");
            assert_eq!(height, "");
        },
        other => panic!("expected an image, got {}", variant_name(other)),
    }
}

#[test]
fn image_not_in_map_keeps_src() {
    let html = "<p><span>H</span></p>\
                <p><span><img src=\"images/pic.png\"></span></p>";
    let content = build_from_html(html).unwrap();
    match &content.paragraphs[0].spans[0].content[0] {
        SpanContent::image { src, .. } => assert_eq!(src, "images/pic.png"),
        other => panic!("expected an image, got {}", variant_name(other)),
    }
}

#[test]
fn image_size_from_inline_style() {
    let html = "<p><span>H</span></p>\
                <p><span><img src=\"x.png\" style=\"width: 10px; height: 20px;\"></span></p>";
    let content = build_from_html(html).unwrap();
    match &content.paragraphs[0].spans[0].content[0] {
        SpanContent::image { width, height, .. } => {
            assert_eq!(width, "10px");
            assert_eq!(height, "20px");
        },
        other => panic!("expected an image, got {}", variant_name(other)),
    }
}

#[test]
fn missing_first_paragraph_is_hard_failure() {
    assert_eq!(build_from_html("<div>no paragraphs here</div>"), Err(ImportError::Format));
    assert_eq!(build_from_html(""), Err(ImportError::Format));
}

#[test]
fn empty_first_paragraph_is_hard_failure() {
    assert_eq!(build_from_html("<p></p><p><span>x</span></p>"), Err(ImportError::Format));
}

#[test]
fn order_preservation() {
    let html = "<p><span>Head</span></p>\
                <p style=\"text-align:one;\"><span>a</span><span>b</span></p>\
                <p style=\"text-align:two;\"><span>c</span></p>\
                <p style=\"text-align:three;\"></p>";
    let content = build_from_html(html).unwrap();
    assert_eq!(content.headline, "Head");
    assert_eq!(content.paragraphs.len(), 3);
    assert_eq!(content.paragraphs[0].text_alignment, "one");
    assert_eq!(content.paragraphs[1].text_alignment, "two");
    assert_eq!(content.paragraphs[2].text_alignment, "three");
    assert_eq!(content.paragraphs[0].spans.len(), 2);
    match &content.paragraphs[0].spans[0].content[0] {
        SpanContent::text { content } => assert_eq!(content, "a"),
        other => panic!("expected a text run, got {}", variant_name(other)),
    }
    match &content.paragraphs[0].spans[1].content[0] {
        SpanContent::text { content } => assert_eq!(content, "b"),
        other => panic!("expected a text run, got {}", variant_name(other)),
    }
    assert_eq!(content.paragraphs[1].spans.len(), 1);
    assert_eq!(content.paragraphs[2].spans.len(), 0);
}

#[test]
fn style_defaulting() {
    let html = "<p><span>H</span></p><p><span>plain</span></p>";
    let content = build_from_html(html).unwrap();
    let span = &content.paragraphs[0].spans[0];
    assert_eq!(span.font_style, "normal");
    assert_eq!(span.text_decoration, "none");
    assert_eq!(span.color, "#000000");
    assert_eq!(span.font_weight, "400");
}

#[test]
fn other_span_children_are_skipped() {
    let html = "<p><span>H</span></p>\
                <p><span>before<b>bold</b>after</span></p>";
    let content = build_from_html(html).unwrap();
    let span = &content.paragraphs[0].spans[0];
    assert_eq!(span.content.len(), 2);
    match (&span.content[0], &span.content[1]) {
        (SpanContent::text { content: a }, SpanContent::text { content: b }) => {
            assert_eq!(a, "before");
            assert_eq!(b, "after");
        },
        _ => panic!("expected two text runs"),
    }
}

#[test]
fn comments_produce_no_nodes() {
    let html = "<p><!-- note --><span>Title</span></p><p><span>x</span></p>";
    let content = build_from_html(html).unwrap();
    assert_eq!(content.headline, "Title");
}

#[test]
fn import_end_to_end() {
    let html = "<p><span>Head</span></p>\
                <p><span><img src=\"images/pic.png\"></span></p>";
    let bytes = make_zip(&[("index.html", html.as_bytes()), ("images/pic.png", b"PNGDATA")]);
    let outcome = import_article(&bytes, 2024, 3).unwrap();
    assert_eq!(outcome.content.headline, "Head");
    assert_eq!(outcome.writes.len(), 1);
    let write = &outcome.writes[0];
    assert_eq!(write.path.year, 2024);
    assert_eq!(write.path.month, 3);
    assert_eq!(write.path.ext, "png");
    assert_eq!(write.data, b"PNGDATA");
    let expected_src = format!("/image/2024/3/{}.png", write.path.name);
    match &outcome.content.paragraphs[0].spans[0].content[0] {
        SpanContent::image { src, .. } => assert_eq!(src, &expected_src),
        other => panic!("expected an image, got {}", variant_name(other)),
    }
    assert_eq!(write.path.rel_path(), format!("2024/3/{}.png", write.path.name));
}

#[test]
fn idempotent_asset_naming() {
    let html = "<p><span>H</span></p>";
    let bytes = make_zip(&[("index.html", html.as_bytes()), ("images/pic.png", b"SAMEBYTES")]);
    let first = import_article(&bytes, 2024, 3).unwrap();
    let second = import_article(&bytes, 2024, 3).unwrap();
    assert_eq!(first.writes.len(), 1);
    assert_eq!(second.writes.len(), 1);
    assert_eq!(first.writes[0].path.rel_path(), second.writes[0].path.rel_path());
    assert_eq!(first.writes[0].data, second.writes[0].data);
}

#[test]
fn identical_bytes_identical_name() {
    let html = "<p><span>H</span></p>";
    let bytes = make_zip(&[
        ("index.html", html.as_bytes()),
        ("images/a.png", b"SAMEBYTES"),
        ("images/b.png", b"SAMEBYTES"),
        ("images/c.jpg", b"SAMEBYTES"),
        ("images/d.png", b"OTHERBYTES"),
    ]);
    let outcome = import_article(&bytes, 2024, 3).unwrap();
    assert_eq!(outcome.writes.len(), 4);
    let names: Vec<&str> = outcome.writes.iter().map(|w| w.path.name.as_str()).collect();
    assert_eq!(names[0], names[1]);
    assert_eq!(names[0], names[2]);
    assert_ne!(names[0], names[3]);
    assert_eq!(outcome.writes[2].path.ext, "jpg");
    assert_eq!(
        outcome.writes[0].path.rel_path(),
        outcome.writes[1].path.rel_path(),
    );
}

#[test]
fn content_name_matches_uuid_v3() {
    let ours = newsroom::assets::content_name(b"SAMEBYTES");
    let theirs = uuid::Uuid::new_v3(&uuid::Uuid::NAMESPACE_URL, b"SAMEBYTES").to_string();
    assert_eq!(ours, theirs);
    assert_ne!(ours, newsroom::assets::content_name(b"OTHERBYTES"));
}

#[test]
fn multiple_html_entries_concatenate_in_archive_order() {
    let bytes = make_zip(&[
        ("a.html", b"<p><span>Head</span></p>" as &[u8]),
        ("b.html", b"<p><span>Body</span></p>"),
    ]);
    let outcome = import_article(&bytes, 2024, 3).unwrap();
    assert_eq!(outcome.content.headline, "Head");
    assert_eq!(outcome.content.paragraphs.len(), 1);
}

#[test]
fn invalid_archive_is_format_error() {
    assert!(matches!(import_article(b"this is not a zip", 2024, 3), Err(ImportError::Format)));
}

#[test]
fn archive_without_html_is_format_error() {
    let bytes = make_zip(&[("images/pic.png", b"PNGDATA" as &[u8])]);
    assert!(matches!(import_article(&bytes, 2024, 3), Err(ImportError::Format)));
}

#[test]
fn html_entry_with_invalid_utf8_is_format_error() {
    let bytes = make_zip(&[("index.html", &[0xff, 0xfe, 0x01][..])]);
    assert!(matches!(import_article(&bytes, 2024, 3), Err(ImportError::Format)));
}

#[test]
fn import_now_uses_calendar_month() {
    let html = "<p><span>H</span></p>";
    let bytes = make_zip(&[("index.html", html.as_bytes()), ("images/pic.png", b"PNGDATA")]);
    let outcome = import_article_now(&bytes).unwrap();
    assert_eq!(outcome.writes.len(), 1);
    assert!((1u32..=12u32).contains(&outcome.writes[0].path.month));
}

#[test]
fn extension_defaults_and_extraction() {
    let html = "<p><span>H</span></p>";
    let bytes = make_zip(&[
        ("index.html", html.as_bytes()),
        ("images/noext", b"A"),
        ("images/archive.tar.gz", b"B"),
        ("images/.hidden", b"C"),
    ]);
    let outcome = import_article(&bytes, 2024, 3).unwrap();
    let exts: Vec<&str> = outcome.writes.iter().map(|w| w.path.ext.as_str()).collect();
    assert_eq!(exts, vec!["png", "gz", "png"]);
}

#[test]
fn single_quoted_and_unquoted_attributes() {
    let html = "<p><span>H</span></p>\
                <p><span><a href='https://x.test'>q</a><img src=images/pic.png></span></p>";
    let content = build_from_html(html).unwrap();
    let span = &content.paragraphs[0].spans[0];
    assert_eq!(span.content.len(), 2);
    match &span.content[0] {
        SpanContent::anchor { href, .. } => assert_eq!(href, "https://x.test"),
        other => panic!("expected an anchor, got {}", variant_name(other)),
    }
    match &span.content[1] {
        SpanContent::image { src, .. } => assert_eq!(src, "images/pic.png"),
        other => panic!("expected an image, got {}", variant_name(other)),
    }
}

#[test]
fn duplicate_attribute_first_wins() {
    let html = "<p><span>H</span></p>\
                <p><span><a href=\"first\" href=\"second\">x</a></span></p>";
    let content = build_from_html(html).unwrap();
    match &content.paragraphs[0].spans[0].content[0] {
        SpanContent::anchor { href, .. } => assert_eq!(href, "first"),
        other => panic!("expected an anchor, got {}", variant_name(other)),
    }
}

#[test]
fn nested_spans_each_become_a_span() {
    let html = "<p><span>H</span></p>\
                <p><span>outer<span>inner</span></span></p>";
    let content = build_from_html(html).unwrap();
    let spans = &content.paragraphs[0].spans;
    assert_eq!(spans.len(), 2);
    assert_eq!(spans[0].content.len(), 1);
    match &spans[0].content[0] {
        SpanContent::text { content } => assert_eq!(content, "outer"),
        other => panic!("expected a text run, got {}", variant_name(other)),
    }
    match &spans[1].content[0] {
        SpanContent::text { content } => assert_eq!(content, "inner"),
        other => panic!("expected a text run, got {}", variant_name(other)),
    }
}

#[test]
fn stray_closing_tag_is_skipped() {
    let html = "</div><p><span>H</span></p><p><span>x</span></p>";
    let content = build_from_html(html).unwrap();
    assert_eq!(content.headline, "H");
    assert_eq!(content.paragraphs.len(), 1);
}

#[test]
fn anchor_text_flattens_nested_markup() {
    let html = "<p><span>H</span></p>\
                <p><span><a href=\"u\">one <b>two</b> three</a></span></p>";
    let content = build_from_html(html).unwrap();
    match &content.paragraphs[0].spans[0].content[0] {
        SpanContent::anchor { content, .. } => assert_eq!(content, "one two three"),
        other => panic!("expected an anchor, got {}", variant_name(other)),
    }
}

#[test]
fn stored_image_paths() {
    let stored = StoredImage {
        year: 2024,
        month: 12,
        name: "abc".to_owned(),
        ext: "jpeg".to_owned(),
    };
    assert_eq!(stored.public_src(), "/image/2024/12/abc.jpeg");
    assert_eq!(stored.rel_path(), "2024/12/abc.jpeg");
}
