//! Feed synthesis: one syndication document for the whole collection.
//!
//! Every content item becomes one entry whose identifier is a
//! deterministic, namespace-based hash of the feed's identifier and the
//! item's own, so regeneration yields the same identifiers without any
//! persisted state.

use vstd::prelude::*;

use crate::config::BuildConfig;
use crate::content::{cmark_html_of, spec_disclaimer, Content};
use crate::datetime::{format_rfc3339, spec_rfc3339};
use crate::metadata::{spec_first_date, spec_first_title, spec_first_uuid};
use crate::strutil::{spec_uuid_hyphenated, uuid_hyphenated};

verus! {

/// The version-5 identifier the identifier library derives from a
/// namespace identifier and a name; here the name is the 16 big-endian
/// bytes of another 128-bit identifier.
pub uninterp spec fn uuid_v5_of(namespace: u128, name: u128) -> u128;

/// Relies on `uuid::Uuid::new_v5` (with `from_u128` and `as_bytes` for
/// the conversions): a pure function of namespace and name.
#[verifier::external_body]
fn uuid_v5(namespace: u128, name: u128) -> (r: u128)
    ensures
        r == uuid_v5_of(namespace, name),
{
    uuid::Uuid::new_v5(
        &uuid::Uuid::from_u128(namespace),
        uuid::Uuid::from_u128(name).as_bytes(),
    ).as_u128()
}

/// One entry of the feed.
#[derive(Debug)]
pub struct FeedEntry {
    pub title: String,
    /// The item's date, in the feed's timestamp form.
    pub published: String,
    /// Equal to `published`: entries are not revised independently.
    pub updated: String,
    /// `urn:uuid:` followed by the entry's derived identifier.
    pub id: String,
    /// The canonical page of the item.
    pub link_href: String,
    /// The item's body as feed HTML, disclaimer included.
    pub content_html: String,
}

/// The feed document, ready for serialization.
#[derive(Debug)]
pub struct FeedDocument {
    /// The feed identifier, hyphenated.
    pub id: String,
    pub lang: String,
    pub title: String,
    pub subtitle: String,
    /// The feed's own address.
    pub link_self: String,
    /// The site the feed mirrors.
    pub link_alternate: String,
    pub generator_value: String,
    pub generator_version: String,
    /// A page describing the generator; this build names none.
    pub generator_uri: Option<String>,
    pub author_name: String,
    pub author_uri: Option<String>,
    /// The newest item's date; absent for an empty collection.
    pub updated: Option<String>,
    pub entries: Vec<FeedEntry>,
}

/// The identifier text of one entry, as a spec value.
pub open spec fn spec_entry_id(feed_uuid: u128, item_uuid: u128) -> Seq<char> {
    "urn:uuid:"@ + spec_uuid_hyphenated(uuid_v5_of(feed_uuid, item_uuid))
}

/// What one item contributes to the feed.
pub open spec fn spec_entry_ok(e: FeedEntry, c: Content, cfg: BuildConfig) -> bool {
    &&& e.title@ == spec_first_title(c.meta@)->Some_0
    &&& e.published@ == spec_rfc3339(c.spec_date())
    &&& e.updated@ == spec_rfc3339(c.spec_date())
    &&& e.id@ == spec_entry_id(cfg.feed_uuid, spec_first_uuid(c.meta@)->Some_0)
    &&& e.link_href@ == cfg.spec_absolute_url() + c.slug@ + "/"@
    &&& e.content_html@ == cmark_html_of(
        c.raw@ + spec_disclaimer(cfg.spec_absolute_url(), c.slug@),
    )
}

/// Builds the feed for an ordered collection (newest first): feed-level
/// identity, links and generator data, the newest item's date as
/// `updated` (absent when the collection is empty), and one entry per
/// item with a deterministic identifier.
///
/// Every item must satisfy the header invariant (exactly one title,
/// date and identifier); the caller checks it, as a violation is a
/// programming error upstream of feed synthesis.
pub fn create_feed(config: &BuildConfig, content: &Vec<Content>) -> (r: FeedDocument)
    requires
        forall|i: int| 0 <= i < content@.len() ==> (#[trigger] content@[i]).wf(),
    ensures
        r.id@ == spec_uuid_hyphenated(config.feed_uuid),
        r.lang@ == "en"@,
        r.title@ == config.website_name@,
        r.subtitle@ == config.website_tagline@,
        r.link_self@ == config.spec_absolute_url() + "atom.xml"@,
        r.link_alternate@ == config.spec_absolute_url(),
        r.generator_value@ == "ssg_core"@,
        r.generator_version@ == "0.1.0"@,
        r.generator_uri is None,
        r.author_name@ == config.content_author@,
        match r.author_uri {
            Some(u) => config.external_url matches Some(e) && u@ == e@,
            None => config.external_url is None,
        },
        match r.updated {
            Some(u) => content@.len() > 0 && u@ == spec_rfc3339(content@[0].spec_date()),
            None => content@.len() == 0,
        },
        r.entries@.len() == content@.len(),
        forall|i: int|
            0 <= i < content@.len() ==> spec_entry_ok(
                #[trigger] r.entries@[i],
                content@[i],
                *config,
            ),
{
    let absolute_url = config.absolute_url();

    let mut link_self = absolute_url.clone();
    link_self.append("atom.xml");

    let updated: Option<String> = if content.len() > 0 {
        let d = content[0].meta().datetime();
        proof {
            crate::metadata::lemma_first_date_wf(content@[0].meta@);
        }
        Some(format_rfc3339(&d))
    } else {
        None
    };

    let author_uri: Option<String> = match &config.external_url {
        Some(u) => Some(u.clone()),
        None => None,
    };

    let mut entries: Vec<FeedEntry> = Vec::new();
    let mut i: usize = 0;
    while i < content.len()
        invariant
            i <= content@.len(),
            absolute_url@ == config.spec_absolute_url(),
            forall|k: int| 0 <= k < content@.len() ==> (#[trigger] content@[k]).wf(),
            entries@.len() == i,
            forall|k: int|
                0 <= k < i ==> spec_entry_ok(#[trigger] entries@[k], content@[k], *config),
        decreases content@.len() - i,
    {
        let c = &content[i];
        let date = c.meta().datetime();
        proof {
            crate::metadata::lemma_first_date_wf(content@[i as int].meta@);
        }
        let stamp = format_rfc3339(&date);

        let mut id = String::from_str("urn:uuid:");
        let derived = uuid_v5(config.feed_uuid, c.meta().uuid());
        let hyph = uuid_hyphenated(derived);
        id.append(hyph.as_str());

        let mut link_href = absolute_url.clone();
        link_href.append(c.slug().as_str());
        link_href.append("/");

        let entry = FeedEntry {
            title: String::from_str(c.meta().title()),
            published: stamp.clone(),
            updated: stamp,
            id,
            link_href,
            content_html: c.raw_html(absolute_url.as_str()),
        };
        entries.push(entry);
        i = i + 1;
    }

    FeedDocument {
        id: uuid_hyphenated(config.feed_uuid),
        lang: String::from_str("en"),
        title: config.website_name.clone(),
        subtitle: config.website_tagline.clone(),
        link_self,
        link_alternate: absolute_url,
        generator_value: String::from_str("ssg_core"),
        generator_version: String::from_str("0.1.0"),
        generator_uri: None,
        author_name: config.content_author.clone(),
        author_uri,
        updated,
        entries,
    }
}

} // verus!
