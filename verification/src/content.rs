//! One content item: its source text, parsed header, identity-derived
//! slug, asset bundle, and navigation links.

use vstd::prelude::*;

use crate::content_id::{
    spec_content_id, spec_get_slug, ContentId, ContentIdView, GetContentIdError,
    SlugFromContentIdError,
};
use crate::datetime::ZonedDate;
use crate::events::{MdEvent, MdTag};
use crate::metadata::{
    lemma_exactly_one_presence, spec_extract_admits, spec_first_date, spec_first_title,
    spec_first_uuid, spec_meta_exactly_one, spec_meta_wf, MetaErrView, MetaView, MetadataList,
    MetadataParseError,
};

verus! {

/// A URL-safe identifier for one content item.
pub type Slug = String;

/// Why a source document could not become a content item.
#[derive(Debug)]
pub enum ContentListError {
    /// Its header block was rejected.
    ParseMetadata(MetadataParseError),
    /// Its path yields no identity.
    ContentId(GetContentIdError),
    /// Its identity and header date disagree, or the identity has no
    /// date prefix.
    ContentSlug(SlugFromContentIdError),
}

/// One document, after validation and before rendering.
#[derive(Debug)]
pub struct Content {
    /// The path the document was read from.
    pub path: String,
    /// The raw source text.
    pub raw: String,
    /// The document's markdown event stream.
    pub events: Vec<MdEvent>,
    /// The validated header fields.
    pub meta: MetadataList,
    /// The derived slug.
    pub slug: Slug,
    /// The asset-bundle directory, when the identity carries one.
    pub assets: Option<String>,
    /// The slug of the next-newer item, set by the navigation linker.
    pub previous: Option<Slug>,
    /// The slug of the next-older item, set by the navigation linker.
    pub next: Option<Slug>,
}

impl Content {
    /// Every content item satisfies the header invariant: exactly one
    /// title, one date and one identifier, each date field within the
    /// calendar library's ranges.  The presence conjuncts follow from
    /// the counts and are carried for direct use.
    pub open spec fn wf(self) -> bool {
        &&& spec_meta_exactly_one(self.meta@)
        &&& spec_meta_wf(self.meta@)
        &&& spec_first_title(self.meta@) is Some
        &&& spec_first_date(self.meta@) is Some
        &&& spec_first_uuid(self.meta@) is Some
    }

    /// The date declared in the item's header.
    pub open spec fn spec_date(self) -> ZonedDate {
        spec_first_date(self.meta@)->Some_0
    }

    /// The identity text a path yields, when it yields one.
    pub open spec fn spec_id_text(path: Seq<char>) -> Seq<char> {
        match spec_content_id(path) {
            Ok(ContentIdView::Standalone(s)) => s,
            Ok(ContentIdView::WithAssets(s)) => s,
            Err(_) => Seq::empty(),
        }
    }

    /// Builds a content item out of a document's path, source text and
    /// event stream: extracts and validates the header, resolves the
    /// identity, checks the date prefix, and derives the slug.
    ///
    /// A header that parses but breaks the exactly-one invariant —
    /// a missing or duplicated title, date or identifier — is a contract
    /// violation of the caller, who checks `MetadataList::is_valid`
    /// first: the reference design treats absence as a programming
    /// error, and duplicates are rejected here rather than resolved
    /// silently in favour of the first occurrence.
    pub fn from_source(path: &str, raw: String, events: Vec<MdEvent>) -> (r: Result<
        Content,
        ContentListError,
    >)
        requires
            forall|ms: Seq<MetaView>|
                #[trigger] spec_extract_admits(events@, Ok::<Seq<MetaView>, MetaErrView>(ms))
                    ==> spec_meta_exactly_one(ms),
        ensures
            match r {
                Ok(c) => {
                    &&& spec_extract_admits(events@, Ok::<Seq<MetaView>, MetaErrView>(c.meta@))
                    &&& c.wf()
                    &&& spec_content_id(path@) matches Ok(idv)
                    &&& match spec_content_id(path@)->Ok_0 {
                        ContentIdView::Standalone(_) => c.assets is None,
                        ContentIdView::WithAssets(s) => c.assets matches Some(a) && a@ == s,
                    }
                    &&& spec_get_slug(Self::spec_id_text(path@), c.spec_date()) matches Ok(s) && s
                        == c.slug@
                    &&& c.path@ == path@
                    &&& c.raw@ == raw@
                    &&& c.events == events
                    &&& c.previous is None
                    &&& c.next is None
                },
                Err(e) => match e {
                    ContentListError::ParseMetadata(pe) => spec_extract_admits(
                        events@,
                        Err::<Seq<MetaView>, MetaErrView>(pe@),
                    ),
                    ContentListError::ContentId(ie) => (exists|ms: Seq<MetaView>|
                        #[trigger] spec_extract_admits(
                            events@,
                            Ok::<Seq<MetaView>, MetaErrView>(ms),
                        )) && spec_content_id(path@) == Err::<ContentIdView, GetContentIdError>(ie),
                    ContentListError::ContentSlug(se) => spec_content_id(path@) is Ok && (exists|
                        ms: Seq<MetaView>,
                    |
                        #[trigger] spec_extract_admits(
                            events@,
                            Ok::<Seq<MetaView>, MetaErrView>(ms),
                        ) && spec_get_slug(
                            Self::spec_id_text(path@),
                            spec_first_date(ms)->Some_0,
                        ) == Err::<Seq<char>, SlugFromContentIdError>(se)),
                },
            },
    {
        let meta = match MetadataList::from_markdown(&events) {
            Ok(m) => m,
            Err(e) => {
                return Err(ContentListError::ParseMetadata(e));
            },
        };
        proof {
            assert(spec_meta_exactly_one(meta@));
            lemma_exactly_one_presence(meta@);
        }
        let content_id = match ContentId::from_path(path) {
            Ok(id) => id,
            Err(e) => {
                return Err(ContentListError::ContentId(e));
            },
        };
        let date = meta.datetime();
        let slug = match crate::content_id::get_slug_from_content_id(content_id.as_str(), &date) {
            Ok(s) => s,
            Err(e) => {
                return Err(ContentListError::ContentSlug(e));
            },
        };
        let assets = match content_id {
            ContentId::WithAssets(folder) => Some(folder),
            ContentId::Standalone(_) => None,
        };
        Ok(
            Content {
                path: crate::strutil::chars_to_string(&crate::strutil::str_to_chars(path)),
                raw,
                events,
                meta,
                slug,
                assets,
                previous: None,
                next: None,
            },
        )
    }

    /// The item's slug.
    pub fn slug(&self) -> (r: Slug)
        ensures
            r@ == self.slug@,
    {
        self.slug.clone()
    }

    /// The item's validated header fields.
    pub fn meta(&self) -> (r: &MetadataList)
        ensures
            r == &self.meta,
    {
        &self.meta
    }

    /// The asset-bundle directory, when there is one.
    pub fn assets(&self) -> (r: Option<&str>)
        ensures
            match r {
                Some(a) => self.assets matches Some(x) && x@ == a@,
                None => self.assets is None,
            },
    {
        match &self.assets {
            Some(a) => Some(a.as_str()),
            None => None,
        }
    }

    /// The slug of the next-newer item, once linked.
    pub fn previous(&self) -> (r: Option<&str>)
        ensures
            match r {
                Some(a) => self.previous matches Some(x) && x@ == a@,
                None => self.previous is None,
            },
    {
        match &self.previous {
            Some(a) => Some(a.as_str()),
            None => None,
        }
    }

    /// The slug of the next-older item, once linked.
    pub fn next(&self) -> (r: Option<&str>)
        ensures
            match r {
                Some(a) => self.next matches Some(x) && x@ == a@,
                None => self.next is None,
            },
    {
        match &self.next {
            Some(a) => Some(a.as_str()),
            None => None,
        }
    }
}

/// The highlighting name for a fenced-code language: `html` is
/// highlighted as `xml`, everything else under its own name.
pub open spec fn spec_map_lang(l: Seq<char>) -> Seq<char> {
    if l.len() == 4 && l[0] == 'h' && l[1] == 't' && l[2] == 'm' && l[3] == 'l' {
        seq!['x', 'm', 'l']
    } else {
        l
    }
}

/// Maps a fenced-code language to the name the highlighter knows.
pub fn syntax_highlight_mapping(language: &str) -> (r: String)
    ensures
        r@ == spec_map_lang(language@),
{
    let v = crate::strutil::str_to_chars(language);
    if v.len() == 4 && v[0] == 'h' && v[1] == 't' && v[2] == 'm' && v[3] == 'l' {
        let mut s = String::new();
        crate::strutil::push_char(&mut s, 'x');
        crate::strutil::push_char(&mut s, 'm');
        crate::strutil::push_char(&mut s, 'l');
        proof {
            assert(s@ =~= seq!['x', 'm', 'l']);
        }
        s
    } else {
        crate::strutil::chars_to_string(&v)
    }
}

/// The fenced-code languages of an event stream, in order, mapped for
/// the highlighter, duplicates kept.
pub open spec fn spec_code_langs(evs: Seq<MdEvent>) -> Seq<Seq<char>>
    decreases evs.len(),
{
    if evs.len() == 0 {
        Seq::empty()
    } else {
        let rest = spec_code_langs(evs.skip(1));
        match evs[0] {
            MdEvent::Start(MdTag::CodeBlock(Some(l))) => seq![spec_map_lang(l@)] + rest,
            _ => rest,
        }
    }
}

impl Content {
    /// Collects the languages of the item's fenced code blocks.
    pub fn code_block_languages(&self) -> (r: Vec<String>)
        ensures
            r@.len() == spec_code_langs(self.events@).len(),
            forall|i: int|
                0 <= i < r@.len() ==> r@[i]@ == spec_code_langs(self.events@)[i],
    {
        let mut r: Vec<String> = Vec::new();
        let mut i: usize = 0;
        let ghost evs = self.events@;
        proof {
            assert(evs.skip(0) =~= evs);
        }
        while i < self.events.len()
            invariant
                i <= evs.len(),
                evs == self.events@,
                spec_code_langs(evs) == r@.map_values(|s: String| s@) + spec_code_langs(
                    evs.skip(i as int),
                ),
                r@.len() == spec_code_langs(evs).len() - spec_code_langs(evs.skip(i as int)).len(),
                forall|k: int|
                    0 <= k < r@.len() ==> r@[k]@ == spec_code_langs(evs)[k],
            decreases evs.len() - i,
        {
            let ghost prev = r@.map_values(|s: String| s@);
            proof {
                assert(evs.skip(i as int).skip(1) =~= evs.skip(i + 1));
            }
            match &self.events[i] {
                MdEvent::Start(MdTag::CodeBlock(Some(l))) => {
                    let mapped = syntax_highlight_mapping(l.as_str());
                    r.push(mapped);
                    proof {
                        assert(r@.map_values(|s: String| s@) =~= prev + seq![
                            spec_map_lang(l@),
                        ]);
                    }
                },
                _ => {},
            }
            i = i + 1;
        }
        proof {
            assert(spec_code_langs(evs.skip(evs.len() as int)) =~= Seq::<Seq<char>>::empty());
            assert(spec_code_langs(evs) =~= r@.map_values(|s: String| s@));
        }
        r
    }
}

/// What the external markdown-to-HTML renderer makes of a document, with
/// the same extensions enabled as for the event stream.
pub uninterp spec fn cmark_html_of(s: Seq<char>) -> Seq<char>;

/// Relies on pulldown-cmark's parser (pluses-delimited metadata blocks,
/// tables and task lists enabled) and its `push_html` renderer: together
/// a pure function of the source text.
#[verifier::external_body]
fn markdown_to_html(s: &str) -> (r: String)
    ensures
        r@ == cmark_html_of(s@),
{
    let mut options = pulldown_cmark::Options::empty();
    options.insert(pulldown_cmark::Options::ENABLE_PLUSES_DELIMITED_METADATA_BLOCKS);
    options.insert(pulldown_cmark::Options::ENABLE_TABLES);
    options.insert(pulldown_cmark::Options::ENABLE_TASKLISTS);
    let parser = pulldown_cmark::Parser::new_ext(s, options);
    let events: Vec<pulldown_cmark::Event> =
        pulldown_cmark::TextMergeStream::new(parser).collect();
    let mut html = String::new();
    pulldown_cmark::html::push_html(&mut html, events.into_iter());
    html
}

/// The note appended to a feed body, pointing readers whose feed reader
/// mangles the styling back at the canonical page.
pub open spec fn spec_disclaimer(url: Seq<char>, slug: Seq<char>) -> Seq<char> {
    "\n\n[If the formatting of this post looks odd in your feed reader, [visit the original article]("@
        + url + slug + "/)]\n"@
}

impl Content {
    /// The item's body as plain markdown-rendered HTML for the feed,
    /// with the reader disclaimer appended before rendering.
    pub fn raw_html(&self, absolute_url: &str) -> (r: String)
        ensures
            r@ == cmark_html_of(
                self.raw@ + spec_disclaimer(absolute_url@, self.slug@),
            ),
    {
        let mut text = self.raw.clone();
        text.append(
            "\n\n[If the formatting of this post looks odd in your feed reader, [visit the original article](",
        );
        text.append(absolute_url);
        text.append(self.slug.as_str());
        text.append("/)]\n");
        proof {
            assert(text@ =~= self.raw@ + spec_disclaimer(absolute_url@, self.slug@));
        }
        markdown_to_html(text.as_str())
    }
}

} // verus!
