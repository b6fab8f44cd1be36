//! The rendering engine: tables, images, suppression, custom tags.

use ssg_core::content::Content;
use ssg_core::engine::GenerateHtmlError;
use ssg_core::events::{MdAlignment, MdEvent, MdTag, MdTagEnd};
use ssg_core::metadata::MetadataList;
use ssg_core::render::{
    escape_attr, first_match, CustomComponent, CustomHandler, ImageGridSource, RenderContext,
};

fn make_content(events: Vec<MdEvent>, assets: Option<String>) -> Content {
    let header = vec![
        MdEvent::Start(MdTag::MetadataBlock),
        MdEvent::Text(
            "title = \"T\"\ndate = 2024-03-05T10:00:00+01:00[Europe/Paris]\nuuid = \"67e55044-10b1-426f-9247-bb680e5fe0c8\""
                .to_string(),
        ),
        MdEvent::End(MdTagEnd::MetadataBlock),
    ];
    let mut evs = header;
    evs.extend(events);
    let meta = MetadataList::from_markdown(&evs).unwrap();
    Content {
        path: "content/2024-03-05-t.md".to_string(),
        raw: String::new(),
        events: evs,
        meta,
        slug: "t".to_string(),
        assets,
        previous: None,
        next: None,
    }
}

fn empty_ctx() -> RenderContext {
    RenderContext { grids: Vec::new() }
}

#[test]
fn table_with_right_aligned_second_column() {
    let aligns = vec![MdAlignment::Unaligned, MdAlignment::Right];
    let events = vec![
        MdEvent::Start(MdTag::Table(aligns)),
        MdEvent::Start(MdTag::TableHead),
        MdEvent::Start(MdTag::TableCell),
        MdEvent::Text("H1".to_string()),
        MdEvent::End(MdTagEnd::TableCell),
        MdEvent::Start(MdTag::TableCell),
        MdEvent::Text("H2".to_string()),
        MdEvent::End(MdTagEnd::TableCell),
        MdEvent::End(MdTagEnd::TableHead),
        MdEvent::Start(MdTag::TableRow),
        MdEvent::Start(MdTag::TableCell),
        MdEvent::Text("B1".to_string()),
        MdEvent::End(MdTagEnd::TableCell),
        MdEvent::Start(MdTag::TableCell),
        MdEvent::Text("B2".to_string()),
        MdEvent::End(MdTagEnd::TableCell),
        MdEvent::End(MdTagEnd::TableRow),
        MdEvent::Start(MdTag::TableRow),
        MdEvent::Start(MdTag::TableCell),
        MdEvent::Text("B3".to_string()),
        MdEvent::End(MdTagEnd::TableCell),
        MdEvent::Start(MdTag::TableCell),
        MdEvent::Text("B4".to_string()),
        MdEvent::End(MdTagEnd::TableCell),
        MdEvent::End(MdTagEnd::TableRow),
        MdEvent::End(MdTagEnd::Table),
    ];
    let c = make_content(events, None);
    let html = c.generate_html(&empty_ctx()).unwrap();

    // exactly one head/body pair
    assert_eq!(html.matches("<thead>").count(), 1);
    assert_eq!(html.matches("</thead>").count(), 1);
    assert_eq!(html.matches("<tbody").count(), 1);
    assert_eq!(html.matches("</tbody>").count(), 1);

    // the second column is right-aligned on every row, the first never
    assert_eq!(html.matches(" text-right").count(), 3);
    assert!(html.contains("text-right\">H2"));
    assert!(html.contains("text-right\">B2"));
    assert!(html.contains("text-right\">B4"));
    assert!(!html.contains("text-right\">B1"));
    assert!(!html.contains("text-right\">B3"));

    // header cells are <th>, body cells <td>
    assert_eq!(html.matches("<th ").count(), 2);
    assert_eq!(html.matches("<td ").count(), 4);
}

#[test]
fn image_caption_becomes_a_blockquote() {
    let events = vec![
        MdEvent::Start(MdTag::Paragraph),
        MdEvent::Start(MdTag::Image("pic.png".to_string())),
        MdEvent::Text("caption".to_string()),
        MdEvent::End(MdTagEnd::Image),
        MdEvent::End(MdTagEnd::Paragraph),
    ];
    let c = make_content(events, None);
    let html = c.generate_html(&empty_ctx()).unwrap();
    assert!(html.contains("<img loading=\"lazy\" src=pic.png class=\"my-4\" />"));
    assert!(html.contains(
        "<blockquote class=\"p-4 mb-4 border-l-8 border-solid border-gray-500 bg-gray-800\">caption</blockquote>"
    ));
}

#[test]
fn text_after_the_image_is_ordinary_again() {
    let events = vec![
        MdEvent::Start(MdTag::Paragraph),
        MdEvent::Start(MdTag::Image("p.png".to_string())),
        MdEvent::End(MdTagEnd::Image),
        MdEvent::Text("plain".to_string()),
        MdEvent::End(MdTagEnd::Paragraph),
    ];
    let c = make_content(events, None);
    let html = c.generate_html(&empty_ctx()).unwrap();
    assert!(html.contains("/>plain</p>"));
    assert!(!html.contains("<blockquote class=\"p-4 mb-4"));
}

#[test]
fn unknown_event_fails_the_document_only() {
    let bad = vec![MdEvent::Other("InlineMath".to_string())];
    let c_bad = make_content(bad, None);
    let err = c_bad.generate_html(&empty_ctx()).unwrap_err();
    match err {
        GenerateHtmlError::UnknownMarkdownEvent(MdEvent::Other(d)) => {
            assert_eq!(d, "InlineMath")
        },
        _ => panic!("expected the unknown-event error"),
    }

    // another document renders untouched before and after
    let good = vec![
        MdEvent::Start(MdTag::Paragraph),
        MdEvent::Text("fine".to_string()),
        MdEvent::End(MdTagEnd::Paragraph),
    ];
    let c_good = make_content(good, None);
    let first = c_good.generate_html(&empty_ctx()).unwrap();
    let _ = c_bad.generate_html(&empty_ctx());
    let second = c_good.generate_html(&empty_ctx()).unwrap();
    assert_eq!(first, second);
    assert!(first.contains("<p class=\"my-1.5 text-justify\">fine</p>"));
}

#[test]
fn unknown_start_tag_fails_too() {
    let events = vec![MdEvent::Start(MdTag::Other("Strikethrough".to_string()))];
    let c = make_content(events, None);
    assert!(c.generate_html(&empty_ctx()).is_err());
}

#[test]
fn header_block_is_suppressed_in_output() {
    let events = vec![
        MdEvent::Start(MdTag::Paragraph),
        MdEvent::Text("visible".to_string()),
        MdEvent::End(MdTagEnd::Paragraph),
    ];
    let c = make_content(events, None);
    let html = c.generate_html(&empty_ctx()).unwrap();
    assert!(!html.contains("title ="));
    assert!(html.contains("visible"));
}

#[test]
fn unknown_events_inside_the_header_are_discarded() {
    let evs = vec![
        MdEvent::Start(MdTag::MetadataBlock),
        MdEvent::Other("anything".to_string()),
        MdEvent::End(MdTagEnd::MetadataBlock),
    ];
    let meta_events = vec![
        MdEvent::Start(MdTag::MetadataBlock),
        MdEvent::Text(
            "title = \"T\"\ndate = 2024-03-05T10:00:00+01:00[Europe/Paris]\nuuid = \"67e55044-10b1-426f-9247-bb680e5fe0c8\""
                .to_string(),
        ),
        MdEvent::End(MdTagEnd::MetadataBlock),
    ];
    let meta = MetadataList::from_markdown(&meta_events).unwrap();
    let c = Content {
        path: "p.md".to_string(),
        raw: String::new(),
        events: evs,
        meta,
        slug: "p".to_string(),
        assets: None,
        previous: None,
        next: None,
    };
    assert_eq!(c.generate_html(&empty_ctx()).unwrap(), "");
}

#[test]
fn checkbox_list_renders() {
    let events = vec![
        MdEvent::Start(MdTag::List(false)),
        MdEvent::Start(MdTag::Item),
        MdEvent::TaskListMarker(true),
        MdEvent::Text("done".to_string()),
        MdEvent::End(MdTagEnd::Item),
        MdEvent::End(MdTagEnd::List(false)),
    ];
    let c = make_content(events, None);
    let html = c.generate_html(&empty_ctx()).unwrap();
    assert!(html.contains("<ul class=\"ml-4 pl-4 list-disc\">"));
    assert!(html.contains("<input type=\"checkbox\" checked class=\"accent-yellow-600\" />"));
    assert!(html.contains("<li>"));
}

#[test]
fn code_block_language_is_mapped_for_highlighting() {
    let events = vec![
        MdEvent::Start(MdTag::CodeBlock(Some("html".to_string()))),
        MdEvent::Text("<b>".to_string()),
        MdEvent::End(MdTagEnd::CodeBlock),
        MdEvent::Start(MdTag::CodeBlock(Some("rust".to_string()))),
        MdEvent::Text("fn".to_string()),
        MdEvent::End(MdTagEnd::CodeBlock),
    ];
    let c = make_content(events, None);
    let html = c.generate_html(&empty_ctx()).unwrap();
    assert!(html.contains("<code class=\"language-xml\">"));
    assert!(html.contains("<code class=\"language-rust\">"));

    let langs = c.code_block_languages();
    assert_eq!(langs, vec!["xml".to_string(), "rust".to_string()]);
}

#[test]
fn image_grid_renders_sorted_thumbnails() {
    let events = vec![MdEvent::Html("<ImageGrid src=\"pics\" />".to_string())];
    let c = make_content(events, Some("2024-03-05-t".to_string()));
    let ctx = RenderContext {
        grids: vec![ImageGridSource {
            directory: "pics".to_string(),
            images: vec!["pics/b.png".to_string(), "pics/a.png".to_string()],
        }],
    };
    let html = c.generate_html(&ctx).unwrap();
    assert!(html.contains("<div class=\"my-4 grid grid-cols-2 gap-5\">"));
    let a = html.find("href=\"pics/a.png\"").expect("a.png thumbnail");
    let b = html.find("href=\"pics/b.png\"").expect("b.png thumbnail");
    assert!(a < b, "images must be sorted by relative path");
    assert!(html.contains("alt=\"a.png\""));
}

#[test]
fn image_grid_without_assets_renders_nothing() {
    let events = vec![MdEvent::Html("<ImageGrid src=\"pics\" />".to_string())];
    let c = make_content(events, None);
    let html = c.generate_html(&empty_ctx()).unwrap();
    assert_eq!(html, "");
}

#[test]
fn unregistered_raw_html_is_dropped() {
    let events = vec![MdEvent::Html("<div>raw</div>".to_string())];
    let c = make_content(events, None);
    let html = c.generate_html(&empty_ctx()).unwrap();
    assert_eq!(html, "");
}

#[test]
fn first_matching_component_wins_in_table_order() {
    let comps_ab = vec![
        CustomComponent {
            tag: "Alpha".to_string(),
            attribute: "src".to_string(),
            handler: CustomHandler::ImageGrid,
        },
        CustomComponent {
            tag: "Beta".to_string(),
            attribute: "src".to_string(),
            handler: CustomHandler::ImageGrid,
        },
    ];
    let comps_ba = vec![
        CustomComponent {
            tag: "Beta".to_string(),
            attribute: "src".to_string(),
            handler: CustomHandler::ImageGrid,
        },
        CustomComponent {
            tag: "Alpha".to_string(),
            attribute: "src".to_string(),
            handler: CustomHandler::ImageGrid,
        },
    ];
    let html = "<Alpha src=\"one\" /><Beta src=\"two\" />";
    let (attr, _) = first_match(html, &comps_ab).expect("a component must match");
    assert_eq!(attr, "one");
    let (attr, _) = first_match(html, &comps_ba).expect("a component must match");
    assert_eq!(attr, "two");
}

#[test]
fn matching_tag_without_attribute_matches_nothing() {
    let comps = vec![CustomComponent {
        tag: "ImageGrid".to_string(),
        attribute: "src".to_string(),
        handler: CustomHandler::ImageGrid,
    }];
    assert!(first_match("<ImageGrid other=\"x\" />", &comps).is_none());
}

#[test]
fn attribute_text_is_escaped() {
    assert_eq!(escape_attr("a&\"<>b"), "a&amp;&quot;&lt;&gt;b");
    assert_eq!(escape_attr("plain"), "plain");
}

#[test]
fn grid_directories_are_collected_in_order() {
    let events = vec![
        MdEvent::Html("<ImageGrid src=\"one\" />".to_string()),
        MdEvent::Text("x".to_string()),
        MdEvent::Html("<ImageGrid src=\"two\" />".to_string()),
        MdEvent::Html("<div>plain</div>".to_string()),
    ];
    let c = make_content(events, Some("b".to_string()));
    assert_eq!(
        c.image_grid_directories(),
        vec!["one".to_string(), "two".to_string()]
    );
}

#[test]
fn fragments_join_with_single_newlines() {
    let events = vec![
        MdEvent::Start(MdTag::Paragraph),
        MdEvent::Text("one".to_string()),
        MdEvent::End(MdTagEnd::Paragraph),
        MdEvent::Start(MdTag::Paragraph),
        MdEvent::Text("two".to_string()),
        MdEvent::End(MdTagEnd::Paragraph),
    ];
    let c = make_content(events, None);
    let html = c.generate_html(&empty_ctx()).unwrap();
    assert_eq!(
        html,
        "<p class=\"my-1.5 text-justify\">one</p>\n\n<p class=\"my-1.5 text-justify\">two</p>\n"
    );
}

#[test]
fn inline_and_block_constructs_render_with_their_classes() {
    let events = vec![
        MdEvent::Start(MdTag::Heading(ssg_core::events::MdHeading::H2)),
        MdEvent::Text("Head".to_string()),
        MdEvent::End(MdTagEnd::Heading(ssg_core::events::MdHeading::H2)),
        MdEvent::Start(MdTag::Paragraph),
        MdEvent::Start(MdTag::Emphasis),
        MdEvent::Text("it".to_string()),
        MdEvent::End(MdTagEnd::Emphasis),
        MdEvent::Start(MdTag::Strong),
        MdEvent::Text("bold".to_string()),
        MdEvent::End(MdTagEnd::Strong),
        MdEvent::Code("x + y".to_string()),
        MdEvent::HardBreak,
        MdEvent::Start(MdTag::Link("https://example.org".to_string())),
        MdEvent::Text("link".to_string()),
        MdEvent::End(MdTagEnd::Link),
        MdEvent::End(MdTagEnd::Paragraph),
        MdEvent::Start(MdTag::BlockQuote),
        MdEvent::Text("quote".to_string()),
        MdEvent::End(MdTagEnd::BlockQuote),
        MdEvent::Rule,
        MdEvent::Start(MdTag::List(true)),
        MdEvent::Start(MdTag::Item),
        MdEvent::Text("one".to_string()),
        MdEvent::End(MdTagEnd::Item),
        MdEvent::End(MdTagEnd::List(true)),
    ];
    let c = make_content(events, None);
    let html = c.generate_html(&empty_ctx()).unwrap();
    assert!(html.contains("<h2 class=\"my-6 font-bold text-3xl\">Head</h2>"));
    assert!(html.contains("<em class=\"italic\">it</em>"));
    assert!(html.contains("<strong class=\"font-bold\">bold</strong>"));
    assert!(html.contains("<code class=\"font-mono bg-white text-black px-1 py-0.5\">x + y</code>"));
    assert!(html.contains("<br />"));
    assert!(html.contains("<a href=\"https://example.org\" class=\"underline text-yellow-400 break-all\">link</a>"));
    assert!(html.contains("<blockquote class=\"p-4 my-4 border-l-8 border-solid border-gray-500 bg-gray-800\">quote</blockquote>"));
    assert!(html.contains("<hr />"));
    assert!(html.contains("<ol class=\"ml-4 pl-4 list-decimal\">"));
    assert!(html.contains("<li>one</li>"));
}
