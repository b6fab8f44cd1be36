//! The earlier, string-returning form of identity resolution and slug
//! derivation.  It decides exactly as `content_id` does; only the shapes
//! of its results differ.

use vstd::prelude::*;

use crate::content_id::{
    spec_content_id, spec_get_slug, ContentId, ContentIdView, GetContentIdError,
    SlugFromContentIdError,
};
use crate::datetime::ZonedDate;

verus! {

/// Why a slug could not be derived from a post id.
#[derive(Clone, Copy, PartialEq, Eq, Structural, Debug)]
pub enum SlugFromPostIdError {
    NoYear,
    ConvertYear,
    YearMismatchWithMetadata,
    NoMonth,
    ConvertMonth,
    MonthMismatchWithMetadata,
    NoDay,
    ConvertDay,
    DayMismatchWithMetadata,
}

/// The post-id reading of a slug error.
pub open spec fn spec_as_post_err(e: SlugFromContentIdError) -> SlugFromPostIdError {
    match e {
        SlugFromContentIdError::NoYear => SlugFromPostIdError::NoYear,
        SlugFromContentIdError::ConvertYear => SlugFromPostIdError::ConvertYear,
        SlugFromContentIdError::YearMismatchWithMetadata => SlugFromPostIdError::YearMismatchWithMetadata,
        SlugFromContentIdError::NoMonth => SlugFromPostIdError::NoMonth,
        SlugFromContentIdError::ConvertMonth => SlugFromPostIdError::ConvertMonth,
        SlugFromContentIdError::MonthMismatchWithMetadata => SlugFromPostIdError::MonthMismatchWithMetadata,
        SlugFromContentIdError::NoDay => SlugFromPostIdError::NoDay,
        SlugFromContentIdError::ConvertDay => SlugFromPostIdError::ConvertDay,
        SlugFromContentIdError::DayMismatchWithMetadata => SlugFromPostIdError::DayMismatchWithMetadata,
    }
}

/// Derives the slug for a post id, deciding as `get_slug_from_content_id`
/// does and reporting the same cause under this module's error type.
pub fn get_slug_from_post_id(post_id: &str, z: &ZonedDate) -> (r: Result<
    String,
    SlugFromPostIdError,
>)
    ensures
        match r {
            Ok(out) => spec_get_slug(post_id@, *z) matches Ok(s) && s == out@,
            Err(e) => spec_get_slug(post_id@, *z) matches Err(c) && spec_as_post_err(c) == e,
        },
{
    match crate::content_id::get_slug_from_content_id(post_id, z) {
        Ok(s) => Ok(s),
        Err(e) => Err(
            match e {
                SlugFromContentIdError::NoYear => SlugFromPostIdError::NoYear,
                SlugFromContentIdError::ConvertYear => SlugFromPostIdError::ConvertYear,
                SlugFromContentIdError::YearMismatchWithMetadata => SlugFromPostIdError::YearMismatchWithMetadata,
                SlugFromContentIdError::NoMonth => SlugFromPostIdError::NoMonth,
                SlugFromContentIdError::ConvertMonth => SlugFromPostIdError::ConvertMonth,
                SlugFromContentIdError::MonthMismatchWithMetadata => SlugFromPostIdError::MonthMismatchWithMetadata,
                SlugFromContentIdError::NoDay => SlugFromPostIdError::NoDay,
                SlugFromContentIdError::ConvertDay => SlugFromPostIdError::ConvertDay,
                SlugFromContentIdError::DayMismatchWithMetadata => SlugFromPostIdError::DayMismatchWithMetadata,
            },
        ),
    }
}

/// Why no post id could be read off a path.
#[derive(Clone, Copy, PartialEq, Eq, Structural, Debug)]
pub enum GetPostIdError {
    InvalidFilename,
    InvalidParentDirectory,
}

/// Reads the post id off a `/`-separated path: the file's stem, or the
/// parent folder's stem when the file is named `index`, deciding exactly
/// as `ContentId::from_path` does.
pub fn get_post_id(path: &str) -> (r: Result<String, GetPostIdError>)
    ensures
        match r {
            Ok(id) => (spec_content_id(path@) matches Ok(v) && match v {
                ContentIdView::Standalone(s) => s == id@,
                ContentIdView::WithAssets(s) => s == id@,
            }),
            Err(e) => (spec_content_id(path@) matches Err(c) && match c {
                GetContentIdError::InvalidFilename => e == GetPostIdError::InvalidFilename,
                GetContentIdError::InvalidParentDirectory => e
                    == GetPostIdError::InvalidParentDirectory,
            }),
        },
{
    match ContentId::from_path(path) {
        Ok(ContentId::Standalone(s)) => Ok(s),
        Ok(ContentId::WithAssets(s)) => Ok(s),
        Err(GetContentIdError::InvalidFilename) => Err(GetPostIdError::InvalidFilename),
        Err(GetContentIdError::InvalidParentDirectory) => Err(
            GetPostIdError::InvalidParentDirectory,
        ),
    }
}

} // verus!
