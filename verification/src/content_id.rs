//! Identity resolution and slug derivation.
//!
//! A content item's identity comes from its path: a file named `index`
//! takes the enclosing folder's name (and owns that folder as an asset
//! bundle), any other file uses its own stem.  The slug is the identity
//! minus a mandatory `YYYY-MM-DD-` prefix whose date must agree with the
//! document's own metadata date.

use vstd::prelude::*;

use crate::datetime::ZonedDate;
use crate::strutil::{
    find_from, parse_int_in_range, spec_find, spec_parse_int, str_to_chars, sub_chars,
};

verus! {

/// How a content item relates to the file system: a lone file, or an
/// `index` file whose enclosing folder is an asset bundle.
#[derive(Debug)]
pub enum ContentId {
    Standalone(String),
    WithAssets(String),
}

impl ContentId {
    /// The identity text itself, independent of the variant.
    pub open spec fn spec_text(&self) -> Seq<char> {
        match self {
            ContentId::Standalone(s) => s@,
            ContentId::WithAssets(s) => s@,
        }
    }

    /// The identity text itself, independent of the variant.
    pub fn as_str(&self) -> (r: &str)
        ensures
            r@ == self.spec_text(),
    {
        match self {
            ContentId::Standalone(s) => s.as_str(),
            ContentId::WithAssets(s) => s.as_str(),
        }
    }
}

/// Why no identity could be read off a path.
#[derive(Clone, Copy, PartialEq, Eq, Structural, Debug)]
pub enum GetContentIdError {
    /// The path has no usable file name.
    InvalidFilename,
    /// The file is named `index` but the parent folder has no usable name.
    InvalidParentDirectory,
}

/// The non-empty, non-`.` segments of a `/`-separated path.
pub open spec fn spec_segments(s: Seq<char>) -> Seq<Seq<char>>
    decreases s.len(),
    via spec_segments_dec
{
    if s.len() == 0 {
        Seq::empty()
    } else {
        let i = spec_find(s, 0, '/');
        let head = s.take(i);
        let tail = if i == s.len() {
            Seq::<Seq<char>>::empty()
        } else {
            spec_segments(s.skip(i + 1))
        };
        if head.len() == 0 || (head.len() == 1 && head[0] == '.') {
            tail
        } else {
            seq![head] + tail
        }
    }
}

#[via_fn]
proof fn spec_segments_dec(s: Seq<char>) {
    crate::strutil::lemma_spec_find_bounds(s, 0, '/');
}

/// Whether `s` is the reserved file stem `index`.
pub open spec fn spec_is_index(s: Seq<char>) -> bool {
    s.len() == 5 && s[0] == 'i' && s[1] == 'n' && s[2] == 'd' && s[3] == 'e' && s[4] == 'x'
}

/// Whether `s` is the parent-directory marker `..`.
pub open spec fn spec_is_dotdot(s: Seq<char>) -> bool {
    s.len() == 2 && s[0] == '.' && s[1] == '.'
}

/// The position after the last `.` of `s`, or `0` when the name has no
/// extension to strip (no dot, or only the leading dot of a hidden file).
pub open spec fn spec_last_dot(s: Seq<char>) -> int
    decreases s.len(),
{
    if s.len() == 0 {
        -1
    } else if s[s.len() - 1] == '.' {
        s.len() - 1
    } else {
        spec_last_dot(s.take(s.len() - 1))
    }
}

/// A file name without its extension, as std's `file_stem` strips it: the
/// part before the final `.`, unless that dot leads the name.
pub open spec fn spec_stem(s: Seq<char>) -> Seq<char> {
    let d = spec_last_dot(s);
    if d <= 0 {
        s
    } else {
        s.take(d)
    }
}

/// The identity the path denotes, or the reason it has none.
pub open spec fn spec_content_id(path: Seq<char>) -> Result<ContentIdView, GetContentIdError> {
    let segs = spec_segments(path);
    if segs.len() == 0 || spec_is_dotdot(segs.last()) {
        Err(GetContentIdError::InvalidFilename)
    } else {
        let stem = spec_stem(segs.last());
        if spec_is_index(stem) {
            if segs.len() < 2 || spec_is_dotdot(segs[segs.len() - 2]) {
                Err(GetContentIdError::InvalidParentDirectory)
            } else {
                Ok(ContentIdView::WithAssets(spec_stem(segs[segs.len() - 2])))
            }
        } else {
            Ok(ContentIdView::Standalone(stem))
        }
    }
}

/// The mathematical shape of a `ContentId`: the variant and its text.
pub ghost enum ContentIdView {
    Standalone(Seq<char>),
    WithAssets(Seq<char>),
}

impl View for ContentId {
    type V = ContentIdView;

    open spec fn view(&self) -> ContentIdView {
        match self {
            ContentId::Standalone(s) => ContentIdView::Standalone(s@),
            ContentId::WithAssets(s) => ContentIdView::WithAssets(s@),
        }
    }
}

/// Splits a path into its non-empty, non-`.` segments.
fn path_segments(v: &Vec<char>) -> (r: Vec<Vec<char>>)
    ensures
        r@.len() == spec_segments(v@).len(),
        forall|i: int| 0 <= i < r@.len() ==> r@[i]@ == spec_segments(v@)[i],
{
    let mut r: Vec<Vec<char>> = Vec::new();
    let mut pos: usize = 0;
    proof {
        assert(v@.skip(0) =~= v@);
        assert(r@.map_values(|x: Vec<char>| x@) + spec_segments(v@) =~= spec_segments(v@));
    }
    while pos < v.len()
        invariant
            pos <= v@.len(),
            spec_segments(v@) == r@.map_values(|x: Vec<char>| x@) + spec_segments(
                v@.skip(pos as int),
            ),
        decreases v@.len() - pos,
    {
        let ghost rest = v@.skip(pos as int);
        let ghost prev = r@.map_values(|x: Vec<char>| x@);
        let sl = find_from(v, pos, '/');
        proof {
            crate::strutil::lemma_find_shift(v@, pos as int, '/');
        }
        let seg = sub_chars(v, pos, sl);
        proof {
            let fi = spec_find(rest, 0, '/');
            assert(fi == sl - pos);
            assert(rest.take(fi) =~= v@.subrange(pos as int, sl as int));
            if sl < v@.len() {
                assert(rest.skip(fi + 1) =~= v@.skip(sl + 1));
            }
        }
        let keep = !(seg.len() == 0 || (seg.len() == 1 && seg[0] == '.'));
        if keep {
            r.push(seg);
            proof {
                assert(r@.map_values(|x: Vec<char>| x@) =~= prev + seq![
                    v@.subrange(pos as int, sl as int),
                ]);
            }
        }
        proof {
            let tail = if sl == v@.len() {
                Seq::<Seq<char>>::empty()
            } else {
                spec_segments(v@.skip(sl + 1))
            };
            assert(spec_segments(rest) == if !keep {
                tail
            } else {
                seq![rest.take(sl - pos)] + tail
            });
            if sl == v@.len() {
                assert(spec_segments(v@.skip(v@.len() as int)) =~= Seq::<Seq<char>>::empty());
                assert(r@.map_values(|x: Vec<char>| x@) + spec_segments(v@.skip(v@.len() as int))
                    =~= prev + spec_segments(rest));
            } else {
                assert(r@.map_values(|x: Vec<char>| x@) + spec_segments(v@.skip(sl + 1)) =~= prev
                    + spec_segments(rest));
            }
        }
        if sl == v.len() {
            pos = sl;
        } else {
            pos = sl + 1;
        }
    }
    proof {
        assert(spec_segments(v@.skip(pos as int)) =~= Seq::<Seq<char>>::empty());
        assert(spec_segments(v@) =~= r@.map_values(|x: Vec<char>| x@));
    }
    r
}

/// The index of the last `.` in `seg`, if any.
fn last_dot_pos(seg: &Vec<char>) -> (r: Option<usize>)
    ensures
        match r {
            Some(d) => spec_last_dot(seg@) == d as int && d < seg@.len(),
            None => spec_last_dot(seg@) == -1,
        },
{
    let mut d: usize = seg.len();
    proof {
        assert(seg@.take(seg@.len() as int) =~= seg@);
    }
    while d > 0
        invariant
            d <= seg@.len(),
            spec_last_dot(seg@) == spec_last_dot(seg@.take(d as int)),
        decreases d,
    {
        proof {
            assert(seg@.take(d as int).take(d - 1) =~= seg@.take(d - 1));
        }
        if seg[d - 1] == '.' {
            proof {
                assert(seg@.take(d as int)[d - 1] == '.');
            }
            return Some(d - 1);
        }
        d = d - 1;
    }
    proof {
        assert(seg@.take(0) =~= Seq::<char>::empty());
    }
    None
}

/// Strips the extension from a file name, as std's `file_stem` does.
fn stem_of(seg: &Vec<char>) -> (r: Vec<char>)
    ensures
        r@ == spec_stem(seg@),
{
    proof {
        assert(seg@.take(seg@.len() as int) =~= seg@);
    }
    match last_dot_pos(seg) {
        Some(d) if d > 0 => sub_chars(seg, 0, d),
        _ => sub_chars(seg, 0, seg.len()),
    }
}

fn is_index_chars(v: &Vec<char>) -> (r: bool)
    ensures
        r == spec_is_index(v@),
{
    v.len() == 5 && v[0] == 'i' && v[1] == 'n' && v[2] == 'd' && v[3] == 'e' && v[4] == 'x'
}

fn is_dotdot_chars(v: &Vec<char>) -> (r: bool)
    ensures
        r == spec_is_dotdot(v@),
{
    v.len() == 2 && v[0] == '.' && v[1] == '.'
}

impl ContentId {
    /// Reads the identity off a `/`-separated path: the file's stem, or
    /// the parent folder's stem when the file is named `index`.
    pub fn from_path(path: &str) -> (r: Result<ContentId, GetContentIdError>)
        ensures
            match r {
                Ok(id) => spec_content_id(path@) == Ok::<ContentIdView, GetContentIdError>(id@),
                Err(e) => spec_content_id(path@) == Err::<ContentIdView, GetContentIdError>(e),
            },
    {
        let chars = str_to_chars(path);
        let segs = path_segments(&chars);
        if segs.len() == 0 {
            return Err(GetContentIdError::InvalidFilename);
        }
        let last = &segs[segs.len() - 1];
        if is_dotdot_chars(last) {
            return Err(GetContentIdError::InvalidFilename);
        }
        let stem = stem_of(last);
        if is_index_chars(&stem) {
            if segs.len() < 2 {
                return Err(GetContentIdError::InvalidParentDirectory);
            }
            let parent = &segs[segs.len() - 2];
            if is_dotdot_chars(parent) {
                return Err(GetContentIdError::InvalidParentDirectory);
            }
            let pstem = stem_of(parent);
            Ok(ContentId::WithAssets(crate::strutil::chars_to_string(&pstem)))
        } else {
            Ok(ContentId::Standalone(crate::strutil::chars_to_string(&stem)))
        }
    }
}

/// Why a slug could not be derived from an identity.  The date prefix is
/// checked segment by segment, so each field has its own missing,
/// unparseable and mismatching cause.
#[derive(Clone, Copy, PartialEq, Eq, Structural, Debug)]
pub enum SlugFromContentIdError {
    NoYear,
    ConvertYear,
    YearMismatchWithMetadata,
    NoMonth,
    ConvertMonth,
    MonthMismatchWithMetadata,
    NoDay,
    ConvertDay,
    DayMismatchWithMetadata,
}

/// What the slug library makes of a string.  The exact transliteration
/// rules fill pages; the shape of every result is pinned below.
pub uninterp spec fn slug_of(s: Seq<char>) -> Seq<char>;

/// Whether `c` may appear in a slug.
pub open spec fn spec_is_slug_char(c: char) -> bool {
    ('a' <= c && c <= 'z') || ('0' <= c && c <= '9') || c == '-'
}

/// The shape `slug::slugify` documents: only `a-z`, `0-9` and `-`, never
/// two `-` in a row, never a leading or trailing `-`.
pub open spec fn spec_slug_shaped(s: Seq<char>) -> bool {
    (forall|i: int| 0 <= i < s.len() ==> spec_is_slug_char(s[i])) && (s.len() > 0 ==> s[0] != '-'
        && s[s.len() - 1] != '-') && (forall|i: int|
        0 <= i < s.len() - 1 ==> !(#[trigger] s[i] == '-' && s[i + 1] == '-'))
}

/// Relies on `slug::slugify`: a pure function of its input whose result,
/// as its documentation states, consists of `a-z`, `0-9` and `-`, with no
/// run of hyphens and none at either end.
#[verifier::external_body]
pub fn slugify(s: &str) -> (r: String)
    ensures
        r@ == slug_of(s@),
        spec_slug_shaped(r@),
{
    slug::slugify(s)
}

/// The slug an identity and a metadata date yield: the identity must
/// begin with `YYYY-MM-DD-` matching the date's own fields, and the rest,
/// slugified, is the slug.  Errors mirror the first check that fails.
pub open spec fn spec_get_slug(s: Seq<char>, z: ZonedDate) -> Result<
    Seq<char>,
    SlugFromContentIdError,
> {
    let d1 = spec_find(s, 0, '-');
    let y = spec_parse_int(s.take(d1));
    if y is None || !(-32768 <= y->Some_0 <= 32767) {
        Err(SlugFromContentIdError::ConvertYear)
    } else if y->Some_0 != z.year as int {
        Err(SlugFromContentIdError::YearMismatchWithMetadata)
    } else if d1 == s.len() {
        Err(SlugFromContentIdError::NoMonth)
    } else {
        let d2 = spec_find(s, d1 + 1, '-');
        let m = spec_parse_int(s.subrange(d1 + 1, d2));
        if m is None || !(-128 <= m->Some_0 <= 127) {
            Err(SlugFromContentIdError::ConvertMonth)
        } else if m->Some_0 != z.month as int {
            Err(SlugFromContentIdError::MonthMismatchWithMetadata)
        } else if d2 == s.len() {
            Err(SlugFromContentIdError::NoDay)
        } else {
            let d3 = spec_find(s, d2 + 1, '-');
            let d = spec_parse_int(s.subrange(d2 + 1, d3));
            if d is None || !(-128 <= d->Some_0 <= 127) {
                Err(SlugFromContentIdError::ConvertDay)
            } else if d->Some_0 != z.day as int {
                Err(SlugFromContentIdError::DayMismatchWithMetadata)
            } else {
                let title = if d3 == s.len() {
                    Seq::<char>::empty()
                } else {
                    s.skip(d3 + 1)
                };
                Ok(slug_of(title))
            }
        }
    }
}

/// Derives the slug for `content_id` under the date `z`: checks the
/// `YYYY-MM-DD-` prefix against the date and slugifies the remainder.
/// The result is exactly `spec_get_slug`, and a successful slug has the
/// shape `spec_slug_shaped` describes.
pub fn get_slug_from_content_id(content_id: &str, z: &ZonedDate) -> (r: Result<
    String,
    SlugFromContentIdError,
>)
    ensures
        match r {
            Ok(out) => spec_get_slug(content_id@, *z) == Ok::<Seq<char>, SlugFromContentIdError>(
                out@,
            ) && spec_slug_shaped(out@),
            Err(e) => spec_get_slug(content_id@, *z) == Err::<Seq<char>, SlugFromContentIdError>(e),
        },
{
    let v = str_to_chars(content_id);
    let d1 = find_from(&v, 0, '-');
    proof {
        assert(v@.subrange(0, d1 as int) =~= v@.take(d1 as int));
    }
    let year = match parse_int_in_range(&v, 0, d1, -32768, 32767) {
        Some(y) => y,
        None => {
            return Err(SlugFromContentIdError::ConvertYear);
        },
    };
    if year != z.year as i32 {
        return Err(SlugFromContentIdError::YearMismatchWithMetadata);
    }
    if d1 == v.len() {
        return Err(SlugFromContentIdError::NoMonth);
    }
    let d2 = find_from(&v, d1 + 1, '-');
    let month = match parse_int_in_range(&v, d1 + 1, d2, -128, 127) {
        Some(m) => m,
        None => {
            return Err(SlugFromContentIdError::ConvertMonth);
        },
    };
    if month != z.month as i32 {
        return Err(SlugFromContentIdError::MonthMismatchWithMetadata);
    }
    if d2 == v.len() {
        return Err(SlugFromContentIdError::NoDay);
    }
    let d3 = find_from(&v, d2 + 1, '-');
    let day = match parse_int_in_range(&v, d2 + 1, d3, -128, 127) {
        Some(d) => d,
        None => {
            return Err(SlugFromContentIdError::ConvertDay);
        },
    };
    if day != z.day as i32 {
        return Err(SlugFromContentIdError::DayMismatchWithMetadata);
    }
    let title = if d3 == v.len() {
        Vec::new()
    } else {
        sub_chars(&v, d3 + 1, v.len())
    };
    proof {
        if d3 < v@.len() {
            assert(v@.subrange(d3 + 1, v@.len() as int) =~= v@.skip(d3 + 1));
        }
    }
    let title_str = crate::strutil::chars_to_string(&title);
    Ok(slugify(title_str.as_str()))
}

/// For every identity of the shape `YYYY-MM-DD-title` whose three date
/// fields parse and equal the metadata date's own, slug derivation
/// succeeds, and the result is the slugified title with the date prefix
/// gone.
pub proof fn lemma_slug_of_matching_date(s: Seq<char>, z: ZonedDate, d1: int, d2: int, d3: int)
    requires
        d1 == spec_find(s, 0, '-'),
        d2 == spec_find(s, d1 + 1, '-'),
        d3 == spec_find(s, d2 + 1, '-'),
        d1 < s.len(),
        d2 < s.len(),
        d3 < s.len(),
        spec_parse_int(s.take(d1)) == Some(z.year as int),
        spec_parse_int(s.subrange(d1 + 1, d2)) == Some(z.month as int),
        spec_parse_int(s.subrange(d2 + 1, d3)) == Some(z.day as int),
    ensures
        spec_get_slug(s, z) == Ok::<Seq<char>, SlugFromContentIdError>(slug_of(s.skip(d3 + 1))),
{
}

/// For an identity whose year parses but disagrees with the metadata
/// date, derivation fails with the year mismatch.
pub proof fn lemma_slug_year_mismatch(s: Seq<char>, z: ZonedDate, y: int)
    requires
        spec_parse_int(s.take(spec_find(s, 0, '-'))) == Some(y),
        -32768 <= y <= 32767,
        y != z.year as int,
    ensures
        spec_get_slug(s, z) == Err::<Seq<char>, SlugFromContentIdError>(
            SlugFromContentIdError::YearMismatchWithMetadata,
        ),
{
}

/// For an identity whose year matches but whose month parses to a
/// different value than the metadata date's, derivation fails with the
/// month mismatch.
pub proof fn lemma_slug_month_mismatch(s: Seq<char>, z: ZonedDate, d1: int, m: int)
    requires
        d1 == spec_find(s, 0, '-'),
        d1 < s.len(),
        spec_parse_int(s.take(d1)) == Some(z.year as int),
        spec_parse_int(s.subrange(d1 + 1, spec_find(s, d1 + 1, '-'))) == Some(m),
        -128 <= m <= 127,
        m != z.month as int,
    ensures
        spec_get_slug(s, z) == Err::<Seq<char>, SlugFromContentIdError>(
            SlugFromContentIdError::MonthMismatchWithMetadata,
        ),
{
}

/// For an identity whose year and month match but whose day parses to a
/// different value than the metadata date's, derivation fails with the
/// day mismatch.
pub proof fn lemma_slug_day_mismatch(s: Seq<char>, z: ZonedDate, d1: int, d2: int, d: int)
    requires
        d1 == spec_find(s, 0, '-'),
        d2 == spec_find(s, d1 + 1, '-'),
        d1 < s.len(),
        d2 < s.len(),
        spec_parse_int(s.take(d1)) == Some(z.year as int),
        spec_parse_int(s.subrange(d1 + 1, d2)) == Some(z.month as int),
        spec_parse_int(s.subrange(d2 + 1, spec_find(s, d2 + 1, '-'))) == Some(d),
        -128 <= d <= 127,
        d != z.day as int,
    ensures
        spec_get_slug(s, z) == Err::<Seq<char>, SlugFromContentIdError>(
            SlugFromContentIdError::DayMismatchWithMetadata,
        ),
{
}

} // verus!
