//! Header-block extraction and validation.

use ssg_core::events::{MdEvent, MdTag, MdTagEnd};
use ssg_core::metadata::{Metadata, MetadataList, MetadataParseError, ParseValueError};

fn header_events(text: &str) -> Vec<MdEvent> {
    vec![
        MdEvent::Start(MdTag::MetadataBlock),
        MdEvent::Text(text.to_string()),
        MdEvent::End(MdTagEnd::MetadataBlock),
        MdEvent::Text("body text is ignored".to_string()),
    ]
}

#[test]
fn full_header_parses() {
    let events = header_events(
        "title = \"Hello\"\ndate = 2024-03-05T10:00:00+01:00[Europe/Paris]\nuuid = \"67e55044-10b1-426f-9247-bb680e5fe0c8\"",
    );
    let list = MetadataList::from_markdown(&events).unwrap();
    assert!(list.has_title() && list.has_date() && list.has_uuid());
    assert_eq!(list.title(), "Hello");
    let d = list.datetime();
    assert_eq!((d.year, d.month, d.day), (2024, 3, 5));
    assert_eq!((d.hour, d.minute, d.second), (10, 0, 0));
    assert_eq!(d.offset_second, 3600);
    assert_eq!(
        list.uuid(),
        uuid::Uuid::parse_str("67e55044-10b1-426f-9247-bb680e5fe0c8")
            .unwrap()
            .as_u128()
    );
}

#[test]
fn keys_are_case_insensitive_and_values_trimmed() {
    let m = Metadata::from_str("  TITLE =   \"Spaced\"  ").unwrap();
    match m {
        Metadata::Title(t) => assert_eq!(t, "Spaced"),
        _ => panic!("expected a title"),
    }
}

#[test]
fn missing_delimiter_is_reported_with_the_line() {
    let err = Metadata::from_str("just some text").unwrap_err();
    match err {
        MetadataParseError::NoDelimeter(line) => assert_eq!(line, "just some text"),
        _ => panic!("expected the delimiter error"),
    }
}

#[test]
fn unknown_key_is_reported_with_the_key() {
    let err = Metadata::from_str("author = me").unwrap_err();
    match err {
        MetadataParseError::UnknownTag(key) => assert_eq!(key, "author"),
        _ => panic!("expected the unknown-key error"),
    }
}

#[test]
fn bad_date_value_is_reported() {
    let err = Metadata::from_str("date = not-a-date").unwrap_err();
    match err {
        MetadataParseError::Value(key, ParseValueError::DateTime) => assert_eq!(key, "date"),
        _ => panic!("expected the date value error"),
    }
}

#[test]
fn date_without_zone_annotation_is_rejected() {
    // the zoned form requires the time zone annotation
    let err = Metadata::from_str("date = 2024-03-05T10:00:00").unwrap_err();
    assert!(matches!(err, MetadataParseError::Value(_, ParseValueError::DateTime)));
}

#[test]
fn bad_uuid_value_is_reported() {
    let err = Metadata::from_str("uuid = \"zz\"").unwrap_err();
    match err {
        MetadataParseError::Value(key, ParseValueError::Uuid) => assert_eq!(key, "uuid"),
        _ => panic!("expected the uuid value error"),
    }
}

#[test]
fn text_outside_the_block_is_ignored() {
    let events = vec![
        MdEvent::Text("not = metadata".to_string()),
        MdEvent::Start(MdTag::MetadataBlock),
        MdEvent::Text("title = \"T\"".to_string()),
        MdEvent::End(MdTagEnd::MetadataBlock),
    ];
    let list = MetadataList::from_markdown(&events).unwrap();
    assert!(list.has_title());
    assert!(!list.has_date());
}

#[test]
fn scan_stops_at_the_first_block_end() {
    let events = vec![
        MdEvent::Start(MdTag::MetadataBlock),
        MdEvent::Text("title = \"T\"".to_string()),
        MdEvent::End(MdTagEnd::MetadataBlock),
        MdEvent::Start(MdTag::MetadataBlock),
        MdEvent::Text("bogus line".to_string()),
        MdEvent::End(MdTagEnd::MetadataBlock),
    ];
    // the bogus line after the first block's end is never parsed
    let list = MetadataList::from_markdown(&events).unwrap();
    assert!(list.has_title());
}

#[test]
fn blank_lines_inside_the_block_are_skipped() {
    let events = header_events("title = \"T\"\n\n   \ndate = 2024-03-05T10:00:00+01:00[Europe/Paris]");
    let list = MetadataList::from_markdown(&events).unwrap();
    assert!(list.has_title() && list.has_date());
}

#[test]
fn first_bad_line_aborts_the_document() {
    let events = header_events("title = \"T\"\nbroken line\ndate = 2024-03-05T10:00:00+01:00[Europe/Paris]");
    let err = MetadataList::from_markdown(&events).unwrap_err();
    assert!(matches!(err, MetadataParseError::NoDelimeter(_)));
}

#[test]
fn quotes_are_stripped_from_title_and_uuid_only() {
    let m = Metadata::from_str("title = \"\"doubly quoted\"\"").unwrap();
    match m {
        Metadata::Title(t) => assert_eq!(t, "doubly quoted"),
        _ => panic!("expected a title"),
    }
}

#[test]
fn exactly_one_of_each_field_is_valid() {
    let events = header_events(
        "title = \"Hello\"\ndate = 2024-03-05T10:00:00+01:00[Europe/Paris]\nuuid = \"67e55044-10b1-426f-9247-bb680e5fe0c8\"",
    );
    let list = MetadataList::from_markdown(&events).unwrap();
    assert!(list.is_valid());
}

#[test]
fn a_duplicate_field_violates_the_header_invariant() {
    let events = header_events(
        "title = \"Hello\"\ndate = 2024-03-05T10:00:00+01:00[Europe/Paris]\ndate = 2024-03-05T11:00:00+01:00[Europe/Paris]\nuuid = \"67e55044-10b1-426f-9247-bb680e5fe0c8\"",
    );
    let list = MetadataList::from_markdown(&events).unwrap();
    assert!(!list.is_valid());
}

#[test]
fn a_missing_field_violates_the_header_invariant() {
    let events = header_events("title = \"Hello\"\nuuid = \"67e55044-10b1-426f-9247-bb680e5fe0c8\"");
    let list = MetadataList::from_markdown(&events).unwrap();
    assert!(!list.is_valid());
    assert!(!list.has_date());
}

#[test]
fn pre_epoch_fractional_seconds_carry_a_negative_remainder() {
    // the instant half a second before the epoch splits by truncation
    // toward zero: second 0, nanosecond -500000000
    let d = ssg_core::datetime::parse_zoned("1969-12-31T23:59:59.5+00:00[UTC]").unwrap();
    assert_eq!(d.ts_second, 0);
    assert_eq!(d.ts_nanosecond, -500_000_000);
    let z: jiff::Zoned = "1969-12-31T23:59:59.5+00:00[UTC]".parse().unwrap();
    assert_eq!(d.ts_second, z.timestamp().as_second());
    assert_eq!(d.ts_nanosecond, z.timestamp().subsec_nanosecond());
}
