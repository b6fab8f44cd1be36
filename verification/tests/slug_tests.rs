//! Identity resolution and slug derivation.

use ssg_core::content_id::{ContentId, GetContentIdError, SlugFromContentIdError};
use ssg_core::datetime::parse_zoned;
use ssg_core::post_id::{get_post_id, get_slug_from_post_id, GetPostIdError, SlugFromPostIdError};

fn date(s: &str) -> ssg_core::datetime::ZonedDate {
    parse_zoned(s).expect("test date must parse")
}

#[test]
fn standalone_file_uses_its_stem() {
    let id = ContentId::from_path("content/2024-03-05-hello.md").unwrap();
    match id {
        ContentId::Standalone(s) => assert_eq!(s, "2024-03-05-hello"),
        _ => panic!("expected a standalone identity"),
    }
}

#[test]
fn index_file_uses_parent_folder() {
    let id = ContentId::from_path("content/2024-03-05-hello/index.md").unwrap();
    match id {
        ContentId::WithAssets(s) => assert_eq!(s, "2024-03-05-hello"),
        _ => panic!("expected an asset-bundle identity"),
    }
}

#[test]
fn index_without_parent_fails() {
    let err = ContentId::from_path("index.md").unwrap_err();
    assert!(matches!(err, GetContentIdError::InvalidParentDirectory));
}

#[test]
fn empty_path_fails() {
    let err = ContentId::from_path("").unwrap_err();
    assert!(matches!(err, GetContentIdError::InvalidFilename));
}

#[test]
fn parent_stem_strips_extension_like_std() {
    // std's file_stem applies to the folder name too
    let id = ContentId::from_path("a/2024-01-01-pics.bundle/index.md").unwrap();
    match id {
        ContentId::WithAssets(s) => assert_eq!(s, "2024-01-01-pics"),
        _ => panic!("expected an asset-bundle identity"),
    }
}

#[test]
fn matching_date_gives_slug_without_prefix() {
    let z = date("2024-03-05T10:00:00+01:00[Europe/Paris]");
    let slug =
        ssg_core::content_id::get_slug_from_content_id("2024-03-05-My Test Post!", &z).unwrap();
    assert_eq!(slug, "my-test-post");
}

#[test]
fn slug_lowercases_and_hyphenates() {
    let z = date("2024-03-05T10:00:00+01:00[Europe/Paris]");
    let slug =
        ssg_core::content_id::get_slug_from_content_id("2024-03-05-You & Me 2", &z).unwrap();
    assert_eq!(slug, "you-me-2");
    // same answer as the slug library itself
    assert_eq!(slug, slug::slugify("You & Me 2"));
}

#[test]
fn day_mismatch_is_reported_as_such() {
    let z = date("2024-03-06T10:00:00+01:00[Europe/Paris]");
    let err =
        ssg_core::content_id::get_slug_from_content_id("2024-03-05-post", &z).unwrap_err();
    assert!(matches!(err, SlugFromContentIdError::DayMismatchWithMetadata));
}

#[test]
fn month_mismatch_is_reported_as_such() {
    let z = date("2024-04-05T10:00:00+02:00[Europe/Paris]");
    let err =
        ssg_core::content_id::get_slug_from_content_id("2024-03-05-post", &z).unwrap_err();
    assert!(matches!(err, SlugFromContentIdError::MonthMismatchWithMetadata));
}

#[test]
fn year_mismatch_is_reported_as_such() {
    let z = date("2025-03-05T10:00:00+01:00[Europe/Paris]");
    let err =
        ssg_core::content_id::get_slug_from_content_id("2024-03-05-post", &z).unwrap_err();
    assert!(matches!(err, SlugFromContentIdError::YearMismatchWithMetadata));
}

#[test]
fn unparseable_year_is_reported() {
    let z = date("2024-03-05T10:00:00+01:00[Europe/Paris]");
    let err = ssg_core::content_id::get_slug_from_content_id("20x4-03-05-post", &z).unwrap_err();
    assert!(matches!(err, SlugFromContentIdError::ConvertYear));
}

#[test]
fn missing_month_is_reported() {
    let z = date("2024-03-05T10:00:00+01:00[Europe/Paris]");
    let err = ssg_core::content_id::get_slug_from_content_id("2024", &z).unwrap_err();
    assert!(matches!(err, SlugFromContentIdError::NoMonth));
}

#[test]
fn missing_day_is_reported() {
    let z = date("2024-03-05T10:00:00+01:00[Europe/Paris]");
    let err = ssg_core::content_id::get_slug_from_content_id("2024-03", &z).unwrap_err();
    assert!(matches!(err, SlugFromContentIdError::NoDay));
}

#[test]
fn unparseable_month_and_day_are_reported() {
    let z = date("2024-03-05T10:00:00+01:00[Europe/Paris]");
    let err = ssg_core::content_id::get_slug_from_content_id("2024-3a-05-x", &z).unwrap_err();
    assert!(matches!(err, SlugFromContentIdError::ConvertMonth));
    let err = ssg_core::content_id::get_slug_from_content_id("2024-03-5b-x", &z).unwrap_err();
    assert!(matches!(err, SlugFromContentIdError::ConvertDay));
}

#[test]
fn post_id_twin_decides_identically() {
    let z = date("2024-03-05T10:00:00+01:00[Europe/Paris]");
    assert_eq!(
        get_slug_from_post_id("2024-03-05-Hello World", &z).unwrap(),
        "hello-world"
    );
    assert!(matches!(
        get_slug_from_post_id("2024-03-04-x", &z).unwrap_err(),
        SlugFromPostIdError::DayMismatchWithMetadata
    ));
    assert_eq!(get_post_id("c/2024-03-05-a.md").unwrap(), "2024-03-05-a");
    assert_eq!(get_post_id("c/2024-03-05-a/index.md").unwrap(), "2024-03-05-a");
    assert!(matches!(
        get_post_id("index.md").unwrap_err(),
        GetPostIdError::InvalidParentDirectory
    ));
}

#[test]
fn empty_title_gives_empty_slug() {
    let z = date("2024-03-05T10:00:00+01:00[Europe/Paris]");
    let slug = ssg_core::content_id::get_slug_from_content_id("2024-03-05", &z).unwrap();
    assert_eq!(slug, "");
}
