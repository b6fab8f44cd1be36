//! Ordering, navigation, feed synthesis and configuration.

use ssg_core::config::{BuildConfig, BuildConfigError, Styles, TIMESTAMP_MAX_SECOND, TIMESTAMP_MIN_SECOND};
use ssg_core::content::Content;
use ssg_core::events::{MdEvent, MdTag, MdTagEnd};
use ssg_core::feed::create_feed;
use ssg_core::metadata::MetadataList;
use ssg_core::ordering::{link_navigation, sort_desc};

fn header(date: &str, title: &str, uuid: &str) -> String {
    format!("title = \"{title}\"\ndate = {date}\nuuid = \"{uuid}\"")
}

fn make_item(slug: &str, date: &str, title: &str, uuid: &str) -> Content {
    let events = vec![
        MdEvent::Start(MdTag::MetadataBlock),
        MdEvent::Text(header(date, title, uuid)),
        MdEvent::End(MdTagEnd::MetadataBlock),
    ];
    let meta = MetadataList::from_markdown(&events).unwrap();
    Content {
        path: format!("content/{slug}.md"),
        raw: format!("# {title}"),
        events,
        meta,
        slug: slug.to_string(),
        assets: None,
        previous: None,
        next: None,
    }
}

fn config() -> BuildConfig {
    BuildConfig::new(
        "https://example.org".to_string(),
        "/blog/".to_string(),
        1700000000,
        Styles { website: "style.css".to_string() },
        "./assets/".to_string(),
        "logo.svg".to_string(),
        "Example".to_string(),
        "a test site".to_string(),
        "The Author".to_string(),
        Some("https://example.org/about".to_string()),
        "00000000-0000-4000-0000-000000000000",
    )
    .unwrap()
}

#[test]
fn from_source_builds_a_validated_item() {
    let raw = "+++\ntitle...\n+++\nbody";
    let events = vec![
        MdEvent::Start(MdTag::MetadataBlock),
        MdEvent::Text(header(
            "2024-03-05T10:00:00+01:00[Europe/Paris]",
            "Hello World",
            "67e55044-10b1-426f-9247-bb680e5fe0c8",
        )),
        MdEvent::End(MdTagEnd::MetadataBlock),
    ];
    let c = Content::from_source("content/2024-03-05-Hello World.md", raw.to_string(), events)
        .unwrap();
    assert_eq!(c.slug(), "hello-world");
    assert!(c.assets().is_none());
    assert!(c.previous().is_none() && c.next().is_none());

    // an index file carries its folder as asset bundle
    let events2 = vec![
        MdEvent::Start(MdTag::MetadataBlock),
        MdEvent::Text(header(
            "2024-03-05T10:00:00+01:00[Europe/Paris]",
            "Hello",
            "67e55044-10b1-426f-9247-bb680e5fe0c8",
        )),
        MdEvent::End(MdTagEnd::MetadataBlock),
    ];
    let c2 = Content::from_source(
        "content/2024-03-05-bundle/index.md",
        String::new(),
        events2,
    )
    .unwrap();
    assert_eq!(c2.assets(), Some("2024-03-05-bundle"));
}

#[test]
fn from_source_rejects_a_date_prefix_mismatch() {
    let events = vec![
        MdEvent::Start(MdTag::MetadataBlock),
        MdEvent::Text(header(
            "2024-03-06T10:00:00+01:00[Europe/Paris]",
            "Hello",
            "67e55044-10b1-426f-9247-bb680e5fe0c8",
        )),
        MdEvent::End(MdTagEnd::MetadataBlock),
    ];
    let err =
        Content::from_source("content/2024-03-05-hello.md", String::new(), events).unwrap_err();
    assert!(matches!(
        err,
        ssg_core::content::ContentListError::ContentSlug(
            ssg_core::content_id::SlugFromContentIdError::DayMismatchWithMetadata
        )
    ));
}

#[test]
fn sort_is_newest_first_and_navigation_forms_a_chain() {
    let a = make_item("a", "2024-01-01T00:00:00+00:00[UTC]", "A", "67e55044-10b1-426f-9247-bb680e5fe0c1");
    let b = make_item("b", "2024-02-01T00:00:00+00:00[UTC]", "B", "67e55044-10b1-426f-9247-bb680e5fe0c2");
    let c = make_item("c", "2024-03-01T00:00:00+00:00[UTC]", "C", "67e55044-10b1-426f-9247-bb680e5fe0c3");

    let sorted = sort_desc(vec![a, c, b]);
    let slugs: Vec<_> = sorted.iter().map(|x| x.slug()).collect();
    assert_eq!(slugs, vec!["c".to_string(), "b".to_string(), "a".to_string()]);

    let linked = link_navigation(sorted);
    assert!(linked[0].previous().is_none());
    assert_eq!(linked[0].next(), Some("b"));
    assert_eq!(linked[1].previous(), Some("c"));
    assert_eq!(linked[1].next(), Some("a"));
    assert_eq!(linked[2].previous(), Some("b"));
    assert!(linked[2].next().is_none());

    // the links form a single chain: each `next` resolves to exactly the
    // following item, so following them visits each item once
    let mut visited = vec![linked[0].slug()];
    let mut idx = 0;
    while let Some(nx) = linked[idx].next() {
        idx = linked.iter().position(|x| x.slug() == nx).unwrap();
        visited.push(linked[idx].slug());
    }
    assert_eq!(visited, vec!["c".to_string(), "b".to_string(), "a".to_string()]);
}

#[test]
fn equal_dates_keep_their_scan_order() {
    let a = make_item("first", "2024-01-01T00:00:00+00:00[UTC]", "A", "67e55044-10b1-426f-9247-bb680e5fe0c1");
    let b = make_item("second", "2024-01-01T00:00:00+00:00[UTC]", "B", "67e55044-10b1-426f-9247-bb680e5fe0c2");
    let sorted = sort_desc(vec![a, b]);
    assert_eq!(sorted[0].slug(), "first");
    assert_eq!(sorted[1].slug(), "second");
}

#[test]
fn dates_order_by_instant_not_by_civil_fields() {
    // 10:00+02:00 is 08:00 UTC; 09:30+00:00 is later in civil terms of
    // its own zone but earlier than 10:30+02:00 on the timeline
    let early = make_item("early", "2024-01-01T10:00:00+02:00[+02:00]", "E", "67e55044-10b1-426f-9247-bb680e5fe0c1");
    let late = make_item("late", "2024-01-01T09:30:00+00:00[UTC]", "L", "67e55044-10b1-426f-9247-bb680e5fe0c2");
    let sorted = sort_desc(vec![early, late]);
    assert_eq!(sorted[0].slug(), "late");
}

#[test]
fn empty_feed_has_no_updated_and_no_entries() {
    let cfg = config();
    let feed = create_feed(&cfg, &Vec::new());
    assert!(feed.updated.is_none());
    assert!(feed.entries.is_empty());
    assert_eq!(feed.lang, "en");
    assert_eq!(feed.title, "Example");
    assert_eq!(feed.link_self, "https://example.org/blog/atom.xml");
    assert_eq!(feed.link_alternate, "https://example.org/blog/");
    assert_eq!(
        feed.id,
        uuid::Uuid::parse_str("00000000-0000-4000-0000-000000000000")
            .unwrap()
            .as_hyphenated()
            .to_string()
    );
}

#[test]
fn feed_entries_are_deterministic_and_distinct() {
    let cfg = config();
    let items = vec![
        make_item("one", "2024-02-01T00:00:00+00:00[UTC]", "One", "67e55044-10b1-426f-9247-bb680e5fe0c1"),
        make_item("two", "2024-01-01T00:00:00+00:00[UTC]", "Two", "67e55044-10b1-426f-9247-bb680e5fe0c2"),
    ];
    let feed1 = create_feed(&cfg, &items);
    let feed2 = create_feed(&cfg, &items);

    assert_eq!(feed1.entries.len(), 2);
    assert_ne!(feed1.entries[0].id, feed1.entries[1].id);
    assert_eq!(feed1.entries[0].id, feed2.entries[0].id);
    assert_eq!(feed1.entries[1].id, feed2.entries[1].id);

    // the identifier is the namespace hash of feed and content identifiers
    let fu = uuid::Uuid::parse_str("00000000-0000-4000-0000-000000000000").unwrap();
    let cu = uuid::Uuid::parse_str("67e55044-10b1-426f-9247-bb680e5fe0c1").unwrap();
    let expected = format!(
        "urn:uuid:{}",
        uuid::Uuid::new_v5(&fu, cu.as_bytes()).as_hyphenated()
    );
    assert_eq!(feed1.entries[0].id, expected);

    // updated is the newest item's date, in the feed's timestamp form
    assert_eq!(feed1.updated.as_deref(), Some("2024-02-01T00:00:00+00:00"));
    assert_eq!(feed1.entries[0].published, "2024-02-01T00:00:00+00:00");

    // the entry links back at the canonical page
    assert_eq!(feed1.entries[0].link_href, "https://example.org/blog/one/");

    // the body is rendered markdown with the reader disclaimer
    assert!(feed1.entries[0].content_html.contains("<h1>One</h1>"));
    assert!(feed1.entries[0]
        .content_html
        .contains("https://example.org/blog/one/"));
    assert!(feed1.entries[0].content_html.contains("feed reader"));
}

#[test]
fn timestamp_form_matches_the_calendar_library() {
    let z: jiff::Zoned = "2024-03-05T10:11:12+01:00[Europe/Paris]".parse().unwrap();
    let expected = z.strftime("%FT%T%:z").to_string();
    let d = ssg_core::datetime::parse_zoned("2024-03-05T10:11:12+01:00[Europe/Paris]").unwrap();
    assert_eq!(ssg_core::datetime::format_rfc3339(&d), expected);
    assert_eq!(expected, "2024-03-05T10:11:12+01:00");
}

#[test]
fn negative_offsets_format_correctly() {
    let d = ssg_core::datetime::parse_zoned("2024-03-05T10:11:12-05:30[-05:30]").unwrap();
    assert_eq!(ssg_core::datetime::format_rfc3339(&d), "2024-03-05T10:11:12-05:30");
}

#[test]
fn config_requires_trailing_slashes() {
    let err = BuildConfig::new(
        "h".to_string(),
        "/blog".to_string(),
        0,
        Styles { website: "s".to_string() },
        "./a/".to_string(),
        "l".to_string(),
        "n".to_string(),
        "t".to_string(),
        "a".to_string(),
        None,
        "00000000-0000-4000-0000-000000000000",
    )
    .unwrap_err();
    match err {
        BuildConfigError::TrailingSlashRequired(s) => assert_eq!(s, "/blog"),
        _ => panic!("expected the trailing-slash error"),
    }

    let err = BuildConfig::new(
        "h".to_string(),
        "/blog/".to_string(),
        0,
        Styles { website: "s".to_string() },
        "./a".to_string(),
        "l".to_string(),
        "n".to_string(),
        "t".to_string(),
        "a".to_string(),
        None,
        "00000000-0000-4000-0000-000000000000",
    )
    .unwrap_err();
    match err {
        BuildConfigError::TrailingSlashRequired(s) => assert_eq!(s, "./a"),
        _ => panic!("expected the trailing-slash error"),
    }
}

#[test]
fn config_rejects_a_bad_feed_identifier() {
    let err = BuildConfig::new(
        "h".to_string(),
        "/b/".to_string(),
        0,
        Styles { website: "s".to_string() },
        "./a/".to_string(),
        "l".to_string(),
        "n".to_string(),
        "t".to_string(),
        "a".to_string(),
        None,
        "not-a-uuid",
    )
    .unwrap_err();
    assert!(matches!(err, BuildConfigError::Uuid));
}

#[test]
fn timestamp_bounds_match_the_calendar_library() {
    for ts in [
        TIMESTAMP_MIN_SECOND - 1,
        TIMESTAMP_MIN_SECOND,
        0,
        TIMESTAMP_MAX_SECOND,
        TIMESTAMP_MAX_SECOND + 1,
    ] {
        let ours = BuildConfig::new(
            "h".to_string(),
            "/b/".to_string(),
            ts,
            Styles { website: "s".to_string() },
            "./a/".to_string(),
            "l".to_string(),
            "n".to_string(),
            "t".to_string(),
            "a".to_string(),
            None,
            "00000000-0000-4000-0000-000000000000",
        )
        .is_ok();
        let theirs = jiff::Timestamp::from_second(ts).is_ok();
        assert_eq!(ours, theirs, "second {ts}");
    }
}

#[test]
fn absolute_url_joins_host_and_base() {
    let cfg = config();
    assert_eq!(cfg.absolute_url(), "https://example.org/blog/");
}

#[test]
fn raw_html_appends_the_disclaimer_before_rendering() {
    let item = make_item("post", "2024-01-01T00:00:00+00:00[UTC]", "Post", "67e55044-10b1-426f-9247-bb680e5fe0c1");
    let html = item.raw_html("https://example.org/blog/");
    assert!(html.contains("<h1>Post</h1>"));
    assert!(html.contains("visit the original article"));
    assert!(html.contains("https://example.org/blog/post/"));
}

#[test]
fn pre_epoch_fractional_instants_order_correctly() {
    let older = make_item("older", "1969-12-31T23:59:58.5+00:00[UTC]", "O", "67e55044-10b1-426f-9247-bb680e5fe0c1");
    let newer = make_item("newer", "1969-12-31T23:59:59.5+00:00[UTC]", "N", "67e55044-10b1-426f-9247-bb680e5fe0c2");
    let sorted = sort_desc(vec![older, newer]);
    assert_eq!(sorted[0].slug(), "newer");
    assert_eq!(sorted[1].slug(), "older");
}
