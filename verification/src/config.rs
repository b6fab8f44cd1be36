//! The build's configuration: one validated value object handed to
//! every component.

use vstd::prelude::*;

use crate::metadata::{parse_uuid, uuid_parse_of};
use crate::strutil::{ends_with_char, spec_ends_with_char};

verus! {

/// The smallest second the calendar library represents as a timestamp.
pub const TIMESTAMP_MIN_SECOND: i64 = -377705023201;

/// The largest second the calendar library represents as a timestamp.
pub const TIMESTAMP_MAX_SECOND: i64 = 253402207200;

/// The stylesheet names a build uses.
#[derive(Debug)]
pub struct Styles {
    pub website: String,
}

/// Configuration for a build.
#[derive(Debug)]
pub struct BuildConfig {
    pub host: String,
    pub base_url: String,
    /// The build instant, in whole seconds since the Unix epoch.
    pub timestamp: i64,
    pub styles: Styles,
    pub assets: String,
    pub logo: String,
    pub website_name: String,
    pub website_tagline: String,
    pub content_author: String,
    pub external_url: Option<String>,
    /// The feed's own identifier.
    pub feed_uuid: u128,
}

/// Why a configuration was rejected.
#[derive(Debug)]
pub enum BuildConfigError {
    /// The named value must end with `/`; carries it.
    TrailingSlashRequired(String),
    /// The build timestamp does not round to a whole second.  Whole
    /// seconds always do, so validation never reports this; the variant
    /// mirrors the error taxonomy.
    RoundTimestampToSecond,
    /// The build timestamp lies outside the representable range.
    ParseTimestamp,
    /// The feed identifier does not parse.
    Uuid,
}

impl BuildConfig {
    /// The site's absolute URL: host and base path joined.
    pub open spec fn spec_absolute_url(self) -> Seq<char> {
        self.host@ + self.base_url@
    }

    /// Validates and assembles a configuration: `base_url` and `assets`
    /// must end in `/`, the timestamp must be a representable instant
    /// (rounding a whole second to second precision is the identity),
    /// and the feed identifier must parse.
    pub fn new(
        host: String,
        base_url: String,
        timestamp: i64,
        styles: Styles,
        assets: String,
        logo: String,
        website_name: String,
        website_tagline: String,
        content_author: String,
        external_url: Option<String>,
        feed_uuid: &str,
    ) -> (r: Result<BuildConfig, BuildConfigError>)
        ensures
            ({
                let slash_base = spec_ends_with_char(base_url@, '/');
                let ts_ok = TIMESTAMP_MIN_SECOND <= timestamp <= TIMESTAMP_MAX_SECOND;
                let slash_assets = spec_ends_with_char(assets@, '/');
                let uuid_ok = uuid_parse_of(feed_uuid@) is Some;
                match r {
                    Ok(c) => {
                        &&& slash_base
                        &&& ts_ok
                        &&& slash_assets
                        &&& uuid_ok
                        &&& c.host == host
                        &&& c.base_url == base_url
                        &&& c.timestamp == timestamp
                        &&& c.styles.website == styles.website
                        &&& c.assets == assets
                        &&& c.logo == logo
                        &&& c.website_name == website_name
                        &&& c.website_tagline == website_tagline
                        &&& c.content_author == content_author
                        &&& c.external_url == external_url
                        &&& c.feed_uuid == uuid_parse_of(feed_uuid@)->Some_0
                    },
                    Err(BuildConfigError::TrailingSlashRequired(s)) => (!slash_base && s@
                        == base_url@) || (slash_base && ts_ok && !slash_assets && s@ == assets@),
                    Err(BuildConfigError::ParseTimestamp) => slash_base && !ts_ok,
                    Err(BuildConfigError::Uuid) => slash_base && ts_ok && slash_assets && !uuid_ok,
                    Err(BuildConfigError::RoundTimestampToSecond) => false,
                }
            }),
    {
        if !ends_with_char(base_url.as_str(), '/') {
            return Err(BuildConfigError::TrailingSlashRequired(base_url));
        }
        if timestamp < TIMESTAMP_MIN_SECOND || timestamp > TIMESTAMP_MAX_SECOND {
            return Err(BuildConfigError::ParseTimestamp);
        }
        if !ends_with_char(assets.as_str(), '/') {
            return Err(BuildConfigError::TrailingSlashRequired(assets));
        }
        let feed_uuid = match parse_uuid(feed_uuid) {
            Some(u) => u,
            None => {
                return Err(BuildConfigError::Uuid);
            },
        };
        Ok(
            BuildConfig {
                host,
                base_url,
                timestamp,
                styles,
                assets,
                logo,
                website_name,
                website_tagline,
                content_author,
                external_url,
                feed_uuid,
            },
        )
    }

    /// The site's absolute URL.
    pub fn absolute_url(&self) -> (r: String)
        ensures
            r@ == self.spec_absolute_url(),
    {
        let mut s = self.host.clone();
        s.append(self.base_url.as_str());
        s
    }
}

} // verus!
