//! The document header block: extraction and validation.
//!
//! A document declares its title, date and identifier in a structured
//! header block.  The scan walks the event stream, reads every line of
//! the first such block, and stops at the block's end; text outside the
//! block is ignored.

use vstd::prelude::*;

use crate::datetime::{parse_zoned, ZonedDate};
use crate::events::{MdEvent, MdTag, MdTagEnd};
use crate::strutil::{
    chars_to_string, find_from, spec_find, spec_is_ws, spec_lines, spec_trim, spec_trim_matches,
    split_lines, str_to_chars, sub_chars, trim_chars, trim_matches_char,
};

verus! {

/// One field read out of the header block.
#[derive(Debug)]
pub enum Metadata {
    Title(String),
    Date(ZonedDate),
    Uuid(u128),
}

/// The mathematical shape of a header field.
pub ghost enum MetaView {
    Title(Seq<char>),
    Date(ZonedDate),
    Uuid(u128),
}

impl View for Metadata {
    type V = MetaView;

    open spec fn view(&self) -> MetaView {
        match self {
            Metadata::Title(t) => MetaView::Title(t@),
            Metadata::Date(z) => MetaView::Date(*z),
            Metadata::Uuid(u) => MetaView::Uuid(*u),
        }
    }
}

/// Which typed value of a header line failed to parse.
#[derive(Clone, Copy, PartialEq, Eq, Structural, Debug)]
pub enum ParseValueError {
    DateTime,
    Uuid,
}

/// Why a header line was rejected.
#[derive(Debug)]
pub enum MetadataParseError {
    /// The line has no `=` separator; carries the line.
    NoDelimeter(String),
    /// The key names no known field; carries the key.
    UnknownTag(String),
    /// The value failed to parse as the key's type; carries the key.
    Value(String, ParseValueError),
}

/// The mathematical shape of a header error.
pub ghost enum MetaErrView {
    NoDelimeter(Seq<char>),
    UnknownTag(Seq<char>),
    Value(Seq<char>, ParseValueError),
}

impl View for MetadataParseError {
    type V = MetaErrView;

    open spec fn view(&self) -> MetaErrView {
        match self {
            MetadataParseError::NoDelimeter(l) => MetaErrView::NoDelimeter(l@),
            MetadataParseError::UnknownTag(k) => MetaErrView::UnknownTag(k@),
            MetadataParseError::Value(k, e) => MetaErrView::Value(k@, *e),
        }
    }
}

/// What a well-formed textual identifier reads as, if it is one: the
/// parser accepts the standard hyphenated form and its common variants.
pub uninterp spec fn uuid_parse_of(s: Seq<char>) -> Option<u128>;

/// Relies on `uuid::Uuid::parse_str` (the same parser `FromStr` uses) to
/// read a 128-bit identifier out of text.
#[verifier::external_body]
pub fn parse_uuid(s: &str) -> (r: Option<u128>)
    ensures
        r == uuid_parse_of(s@),
{
    uuid::Uuid::parse_str(s).ok().map(|u| u.as_u128())
}

/// Whether `key` spells `title`, ignoring ASCII case.
pub open spec fn spec_is_title_key(s: Seq<char>) -> bool {
    s.len() == 5 && (s[0] == 't' || s[0] == 'T') && (s[1] == 'i' || s[1] == 'I') && (s[2] == 't'
        || s[2] == 'T') && (s[3] == 'l' || s[3] == 'L') && (s[4] == 'e' || s[4] == 'E')
}

/// Whether `key` spells `date`, ignoring ASCII case.
pub open spec fn spec_is_date_key(s: Seq<char>) -> bool {
    s.len() == 4 && (s[0] == 'd' || s[0] == 'D') && (s[1] == 'a' || s[1] == 'A') && (s[2] == 't'
        || s[2] == 'T') && (s[3] == 'e' || s[3] == 'E')
}

/// Whether `key` spells `uuid`, ignoring ASCII case.
pub open spec fn spec_is_uuid_key(s: Seq<char>) -> bool {
    s.len() == 4 && (s[0] == 'u' || s[0] == 'U') && (s[1] == 'u' || s[1] == 'U') && (s[2] == 'i'
        || s[2] == 'I') && (s[3] == 'd' || s[3] == 'D')
}

fn is_title_key(v: &Vec<char>) -> (r: bool)
    ensures
        r == spec_is_title_key(v@),
{
    v.len() == 5 && (v[0] == 't' || v[0] == 'T') && (v[1] == 'i' || v[1] == 'I') && (v[2] == 't'
        || v[2] == 'T') && (v[3] == 'l' || v[3] == 'L') && (v[4] == 'e' || v[4] == 'E')
}

fn is_date_key(v: &Vec<char>) -> (r: bool)
    ensures
        r == spec_is_date_key(v@),
{
    v.len() == 4 && (v[0] == 'd' || v[0] == 'D') && (v[1] == 'a' || v[1] == 'A') && (v[2] == 't'
        || v[2] == 'T') && (v[3] == 'e' || v[3] == 'E')
}

fn is_uuid_key(v: &Vec<char>) -> (r: bool)
    ensures
        r == spec_is_uuid_key(v@),
{
    v.len() == 4 && (v[0] == 'u' || v[0] == 'U') && (v[1] == 'u' || v[1] == 'U') && (v[2] == 'i'
        || v[2] == 'I') && (v[3] == 'd' || v[3] == 'D')
}

/// How a header line reads before any value parser is consulted: the
/// `=` separator found, the key matched ignoring ASCII case, the value
/// trimmed, and for `title` and `uuid` stripped of surrounding quotes.
pub ghost enum LineClass {
    /// No separator; carries the whole line.
    NoDelimiter(Seq<char>),
    /// A title line; carries the value.
    Title(Seq<char>),
    /// A date line; carries the key as written and the value.
    Date(Seq<char>, Seq<char>),
    /// An identifier line; carries the key as written and the value.
    Uuid(Seq<char>, Seq<char>),
    /// An unrecognized key; carries it.
    Unknown(Seq<char>),
}

/// Classifies one header line by its text alone.
pub open spec fn spec_classify_line(line: Seq<char>) -> LineClass {
    let eq = spec_find(line, 0, '=');
    if eq == line.len() {
        LineClass::NoDelimiter(line)
    } else {
        let key = spec_trim(line.take(eq));
        let val = spec_trim(line.skip(eq + 1));
        if spec_is_title_key(key) {
            LineClass::Title(spec_trim_matches(val, '"'))
        } else if spec_is_date_key(key) {
            LineClass::Date(key, val)
        } else if spec_is_uuid_key(key) {
            LineClass::Uuid(key, spec_trim_matches(val, '"'))
        } else {
            LineClass::Unknown(key)
        }
    }
}

/// Whether `r` is a reading the line admits.  The text pins everything
/// except whether a date value parses: the calendar library resolves
/// time-zone annotations through the machine's time-zone database, so
/// for a date line the relation fixes the error exactly but of a success
/// only that the fields are well formed.
pub open spec fn spec_line_admits(line: Seq<char>, r: Result<MetaView, MetaErrView>) -> bool {
    match spec_classify_line(line) {
        LineClass::NoDelimiter(l) => r == Err::<MetaView, MetaErrView>(MetaErrView::NoDelimeter(l)),
        LineClass::Title(t) => r == Ok::<MetaView, MetaErrView>(MetaView::Title(t)),
        LineClass::Date(k, _) => (r matches Ok(m) && m matches MetaView::Date(z) && z.wf()) || r
            == Err::<MetaView, MetaErrView>(MetaErrView::Value(k, ParseValueError::DateTime)),
        LineClass::Uuid(k, u) => match uuid_parse_of(u) {
            Some(x) => r == Ok::<MetaView, MetaErrView>(MetaView::Uuid(x)),
            None => r == Err::<MetaView, MetaErrView>(
                MetaErrView::Value(k, ParseValueError::Uuid),
            ),
        },
        LineClass::Unknown(k) => r == Err::<MetaView, MetaErrView>(MetaErrView::UnknownTag(k)),
    }
}

/// Whether a date field carries the ranges the calendar library
/// guarantees.
pub open spec fn spec_meta_field_wf(m: MetaView) -> bool {
    m matches MetaView::Date(z) ==> z.wf()
}

/// Whether every date field of the list is well formed.
pub open spec fn spec_meta_wf(s: Seq<MetaView>) -> bool {
    forall|i: int| 0 <= i < s.len() ==> spec_meta_field_wf(#[trigger] s[i])
}

/// The first date of a well-formed list is well formed.
pub proof fn lemma_first_date_wf(s: Seq<MetaView>)
    requires
        spec_meta_wf(s),
        spec_first_date(s) is Some,
    ensures
        spec_first_date(s)->Some_0.wf(),
    decreases s.len(),
{
    if s.len() > 0 {
        match s[0] {
            MetaView::Date(_) => {},
            _ => {
                assert(spec_meta_wf(s.skip(1))) by {
                    assert(forall|i: int|
                        0 <= i < s.skip(1).len() ==> spec_meta_field_wf(#[trigger] s.skip(1)[i]));
                }
                lemma_first_date_wf(s.skip(1));
            },
        }
    }
}

impl Metadata {
    /// Reads one header line.
    pub fn from_str(s: &str) -> (r: Result<Metadata, MetadataParseError>)
        ensures
            spec_line_admits(
                s@,
                match r {
                    Ok(m) => Ok::<MetaView, MetaErrView>(m@),
                    Err(e) => Err::<MetaView, MetaErrView>(e@),
                },
            ),
            r matches Ok(m) ==> spec_meta_field_wf(m@),
    {
        let v = str_to_chars(s);
        parse_line_chars(&v)
    }
}

/// Reads one header line given as characters.
fn parse_line_chars(v: &Vec<char>) -> (r: Result<Metadata, MetadataParseError>)
    ensures
        spec_line_admits(
            v@,
            match r {
                Ok(m) => Ok::<MetaView, MetaErrView>(m@),
                Err(e) => Err::<MetaView, MetaErrView>(e@),
            },
        ),
        r matches Ok(m) ==> spec_meta_field_wf(m@),
{
    let eq = find_from(v, 0, '=');
    if eq == v.len() {
        proof {
            assert(v@.subrange(0, v@.len() as int) =~= v@);
        }
        let line = sub_chars(v, 0, v.len());
        return Err(MetadataParseError::NoDelimeter(chars_to_string(&line)));
    }
    let key = trim_chars(v, 0, eq);
    proof {
        assert(v@.subrange(0, eq as int) =~= v@.take(eq as int));
    }
    let val = trim_chars(v, eq + 1, v.len());
    proof {
        assert(v@.subrange(eq + 1, v@.len() as int) =~= v@.skip(eq + 1));
    }
    if is_title_key(&key) {
        let t = trim_matches_char(&val, '"');
        Ok(Metadata::Title(chars_to_string(&t)))
    } else if is_date_key(&key) {
        let vs = chars_to_string(&val);
        match parse_zoned(vs.as_str()) {
            Some(z) => Ok(Metadata::Date(z)),
            None => Err(MetadataParseError::Value(chars_to_string(&key), ParseValueError::DateTime)),
        }
    } else if is_uuid_key(&key) {
        let u = trim_matches_char(&val, '"');
        let us = chars_to_string(&u);
        match parse_uuid(us.as_str()) {
            Some(x) => Ok(Metadata::Uuid(x)),
            None => Err(MetadataParseError::Value(chars_to_string(&key), ParseValueError::Uuid)),
        }
    } else {
        Err(MetadataParseError::UnknownTag(chars_to_string(&key)))
    }
}

/// Whether a line holds only white space.
pub open spec fn spec_is_blank(l: Seq<char>) -> bool {
    forall|i: int| 0 <= i < l.len() ==> spec_is_ws(l[i])
}

fn is_blank_line(v: &Vec<char>) -> (r: bool)
    ensures
        r == spec_is_blank(v@),
{
    let mut i: usize = 0;
    while i < v.len()
        invariant
            i <= v@.len(),
            forall|k: int| 0 <= k < i ==> spec_is_ws(v@[k]),
        decreases v@.len() - i,
    {
        if !crate::strutil::is_ws(v[i]) {
            return false;
        }
        i = i + 1;
    }
    true
}

/// Whether `out` is an outcome the lines from `j` on admit, starting
/// from the fields already in `acc`: blank lines are skipped, each
/// other line contributes an admissible reading in order, and the first
/// error ends the document.
pub open spec fn spec_fold_admits(
    lines: Seq<Seq<char>>,
    j: int,
    acc: Seq<MetaView>,
    out: Result<Seq<MetaView>, MetaErrView>,
) -> bool
    decreases lines.len() - j,
{
    if j < 0 || j >= lines.len() {
        out == Ok::<Seq<MetaView>, MetaErrView>(acc)
    } else if spec_is_blank(lines[j]) {
        spec_fold_admits(lines, j + 1, acc, out)
    } else {
        exists|lr: Result<MetaView, MetaErrView>|
            #[trigger] spec_line_admits(lines[j], lr) && match lr {
                Ok(m) => spec_fold_admits(lines, j + 1, acc.push(m), out),
                Err(e) => out == Err::<Seq<MetaView>, MetaErrView>(e),
            }
    }
}

/// Whether `out` is an outcome the events from `i` on admit: text inside
/// the first header block is read line by line, the block's end stops
/// the scan, and everything else is ignored.
pub open spec fn spec_scan_admits(
    events: Seq<MdEvent>,
    i: int,
    inside: bool,
    acc: Seq<MetaView>,
    out: Result<Seq<MetaView>, MetaErrView>,
) -> bool
    decreases events.len() - i,
{
    if i < 0 || i >= events.len() {
        out == Ok::<Seq<MetaView>, MetaErrView>(acc)
    } else {
        match events[i] {
            MdEvent::Text(t) => if inside {
                exists|mid: Result<Seq<MetaView>, MetaErrView>|
                    #[trigger] spec_fold_admits(spec_lines(t@), 0, acc, mid) && match mid {
                        Ok(acc2) => spec_scan_admits(events, i + 1, inside, acc2, out),
                        Err(e) => out == Err::<Seq<MetaView>, MetaErrView>(e),
                    }
            } else {
                spec_scan_admits(events, i + 1, inside, acc, out)
            },
            MdEvent::End(MdTagEnd::MetadataBlock) => out == Ok::<Seq<MetaView>, MetaErrView>(acc),
            MdEvent::Start(MdTag::MetadataBlock) => spec_scan_admits(events, i + 1, true, acc, out),
            _ => spec_scan_admits(events, i + 1, inside, acc, out),
        }
    }
}

/// Whether `out` is an outcome the whole extraction admits for an event
/// stream.  The outcome is pinned by the stream except where a date
/// value's parse depends on the machine's time-zone data.
pub open spec fn spec_extract_admits(
    events: Seq<MdEvent>,
    out: Result<Seq<MetaView>, MetaErrView>,
) -> bool {
    spec_scan_admits(events, 0, false, Seq::empty(), out)
}

/// The fields read out of one document's header block, in order.
#[derive(Debug)]
pub struct MetadataList(Vec<Metadata>);

impl View for MetadataList {
    type V = Seq<MetaView>;

    closed spec fn view(&self) -> Seq<MetaView> {
        self.0@.map_values(|m: Metadata| m@)
    }
}

impl MetadataList {
    /// Extracts the header fields from a document's event stream.  The
    /// returned list (or error) is one the stream admits; every date
    /// field carries the calendar library's ranges.
    pub fn from_markdown(events: &Vec<MdEvent>) -> (r: Result<MetadataList, MetadataParseError>)
        ensures
            match r {
                Ok(list) => spec_extract_admits(
                    events@,
                    Ok::<Seq<MetaView>, MetaErrView>(list@),
                ) && spec_meta_wf(list@),
                Err(e) => spec_extract_admits(events@, Err::<Seq<MetaView>, MetaErrView>(e@)),
            },
    {
        let mut list = MetadataList(Vec::new());
        let mut inside = false;
        let mut i: usize = 0;
        proof {
            assert(list@ =~= Seq::<MetaView>::empty());
        }
        while i < events.len()
            invariant
                i <= events@.len(),
                spec_meta_wf(list@),
                forall|out: Result<Seq<MetaView>, MetaErrView>|
                    #[trigger] spec_scan_admits(events@, i as int, inside, list@, out)
                        ==> spec_extract_admits(events@, out),
            decreases events@.len() - i,
        {
            let ghost acc0 = list@;
            match &events[i] {
                MdEvent::Text(t) => {
                    if inside {
                        proof {
                            assert(events@[i as int] matches MdEvent::Text(tt) && tt@ == t@);
                        }
                        let chars = str_to_chars(t.as_str());
                        let lines = split_lines(&chars);
                        let ghost ls = spec_lines(t@);
                        let mut j: usize = 0;
                        while j < lines.len()
                            invariant
                                j <= lines@.len(),
                                i < events@.len(),
                                inside,
                                events@[i as int] matches MdEvent::Text(tt) && tt@ == t@,
                                ls == spec_lines(t@),
                                lines@.len() == ls.len(),
                                forall|k: int| 0 <= k < lines@.len() ==> lines@[k]@ == ls[k],
                                spec_meta_wf(list@),
                                forall|out: Result<Seq<MetaView>, MetaErrView>|
                                    #[trigger] spec_scan_admits(events@, i as int, true, acc0, out)
                                        ==> spec_extract_admits(events@, out),
                                forall|mid: Result<Seq<MetaView>, MetaErrView>|
                                    #[trigger] spec_fold_admits(ls, j as int, list@, mid)
                                        ==> spec_fold_admits(ls, 0, acc0, mid),
                            decreases lines@.len() - j,
                        {
                            let line = &lines[j];
                            let ghost before = list@;
                            if is_blank_line(line) {
                                proof {
                                    assert forall|mid: Result<Seq<MetaView>, MetaErrView>|
                                        #[trigger] spec_fold_admits(
                                            ls,
                                            j + 1,
                                            list@,
                                            mid,
                                        ) implies spec_fold_admits(ls, 0, acc0, mid) by {
                                        assert(spec_fold_admits(ls, j as int, list@, mid));
                                    }
                                }
                            } else {
                                match parse_line_chars(line) {
                                    Ok(m) => {
                                        let ghost prev = list@;
                                        list.0.push(m);
                                        proof {
                                            assert(list@ =~= prev.push(m@));
                                            assert forall|mid: Result<Seq<MetaView>, MetaErrView>|
                                                #[trigger] spec_fold_admits(
                                                    ls,
                                                    j + 1,
                                                    list@,
                                                    mid,
                                                ) implies spec_fold_admits(ls, 0, acc0, mid) by {
                                                assert(spec_line_admits(
                                                    ls[j as int],
                                                    Ok::<MetaView, MetaErrView>(m@),
                                                ));
                                                assert(spec_fold_admits(ls, j as int, before, mid));
                                            }
                                        }
                                    },
                                    Err(e) => {
                                        proof {
                                            assert(spec_line_admits(
                                                ls[j as int],
                                                Err::<MetaView, MetaErrView>(e@),
                                            ));
                                            assert(spec_fold_admits(
                                                ls,
                                                j as int,
                                                before,
                                                Err::<Seq<MetaView>, MetaErrView>(e@),
                                            ));
                                            assert(spec_fold_admits(
                                                ls,
                                                0,
                                                acc0,
                                                Err::<Seq<MetaView>, MetaErrView>(e@),
                                            ));
                                            assert(spec_scan_admits(
                                                events@,
                                                i as int,
                                                true,
                                                acc0,
                                                Err::<Seq<MetaView>, MetaErrView>(e@),
                                            ));
                                        }
                                        return Err(e);
                                    },
                                }
                            }
                            j = j + 1;
                        }
                        proof {
                            assert(spec_fold_admits(
                                ls,
                                ls.len() as int,
                                list@,
                                Ok::<Seq<MetaView>, MetaErrView>(list@),
                            ));
                            assert(spec_fold_admits(
                                ls,
                                0,
                                acc0,
                                Ok::<Seq<MetaView>, MetaErrView>(list@),
                            ));
                            assert forall|out: Result<Seq<MetaView>, MetaErrView>|
                                #[trigger] spec_scan_admits(
                                    events@,
                                    i + 1,
                                    true,
                                    list@,
                                    out,
                                ) implies spec_extract_admits(events@, out) by {
                                assert(spec_scan_admits(events@, i as int, true, acc0, out));
                            }
                        }
                    } else {
                        proof {
                            assert forall|out: Result<Seq<MetaView>, MetaErrView>|
                                #[trigger] spec_scan_admits(
                                    events@,
                                    i + 1,
                                    false,
                                    list@,
                                    out,
                                ) implies spec_extract_admits(events@, out) by {
                                assert(spec_scan_admits(events@, i as int, false, list@, out));
                            }
                        }
                    }
                },
                MdEvent::End(MdTagEnd::MetadataBlock) => {
                    proof {
                        assert(spec_scan_admits(
                            events@,
                            i as int,
                            inside,
                            list@,
                            Ok::<Seq<MetaView>, MetaErrView>(list@),
                        ));
                    }
                    return Ok(list);
                },
                MdEvent::Start(MdTag::MetadataBlock) => {
                    proof {
                        assert forall|out: Result<Seq<MetaView>, MetaErrView>|
                            #[trigger] spec_scan_admits(
                                events@,
                                i + 1,
                                true,
                                list@,
                                out,
                            ) implies spec_extract_admits(events@, out) by {
                            assert(spec_scan_admits(events@, i as int, inside, list@, out));
                        }
                    }
                    inside = true;
                },
                _ => {
                    proof {
                        assert forall|out: Result<Seq<MetaView>, MetaErrView>|
                            #[trigger] spec_scan_admits(
                                events@,
                                i + 1,
                                inside,
                                list@,
                                out,
                            ) implies spec_extract_admits(events@, out) by {
                            assert(spec_scan_admits(events@, i as int, inside, list@, out));
                        }
                    }
                },
            }
            i = i + 1;
        }
        proof {
            assert(spec_scan_admits(
                events@,
                events@.len() as int,
                inside,
                list@,
                Ok::<Seq<MetaView>, MetaErrView>(list@),
            ));
        }
        Ok(list)
    }
}

/// The first `Title` field of the list, if any.
pub open spec fn spec_first_title(s: Seq<MetaView>) -> Option<Seq<char>>
    decreases s.len(),
{
    if s.len() == 0 {
        None
    } else {
        match s[0] {
            MetaView::Title(t) => Some(t),
            _ => spec_first_title(s.skip(1)),
        }
    }
}

/// The first `Date` field of the list, if any.
pub open spec fn spec_first_date(s: Seq<MetaView>) -> Option<ZonedDate>
    decreases s.len(),
{
    if s.len() == 0 {
        None
    } else {
        match s[0] {
            MetaView::Date(z) => Some(z),
            _ => spec_first_date(s.skip(1)),
        }
    }
}

/// The first `Uuid` field of the list, if any.
pub open spec fn spec_first_uuid(s: Seq<MetaView>) -> Option<u128>
    decreases s.len(),
{
    if s.len() == 0 {
        None
    } else {
        match s[0] {
            MetaView::Uuid(u) => Some(u),
            _ => spec_first_uuid(s.skip(1)),
        }
    }
}

/// How many `Title` fields the list holds.
pub open spec fn spec_count_title(s: Seq<MetaView>) -> int
    decreases s.len(),
{
    if s.len() == 0 {
        0
    } else {
        (if s[0] is Title {
            1int
        } else {
            0int
        }) + spec_count_title(s.skip(1))
    }
}

/// How many `Date` fields the list holds.
pub open spec fn spec_count_date(s: Seq<MetaView>) -> int
    decreases s.len(),
{
    if s.len() == 0 {
        0
    } else {
        (if s[0] is Date {
            1int
        } else {
            0int
        }) + spec_count_date(s.skip(1))
    }
}

/// How many `Uuid` fields the list holds.
pub open spec fn spec_count_uuid(s: Seq<MetaView>) -> int
    decreases s.len(),
{
    if s.len() == 0 {
        0
    } else {
        (if s[0] is Uuid {
            1int
        } else {
            0int
        }) + spec_count_uuid(s.skip(1))
    }
}

/// The header invariant: exactly one title, one date and one identifier
/// must be present after parsing a document's header block.
pub open spec fn spec_meta_exactly_one(s: Seq<MetaView>) -> bool {
    spec_count_title(s) == 1 && spec_count_date(s) == 1 && spec_count_uuid(s) == 1
}

proof fn lemma_count_title_first(s: Seq<MetaView>)
    requires
        spec_count_title(s) >= 1,
    ensures
        spec_first_title(s) is Some,
    decreases s.len(),
{
    if s.len() > 0 && !(s[0] is Title) {
        lemma_count_title_first(s.skip(1));
    }
}

proof fn lemma_count_date_first(s: Seq<MetaView>)
    requires
        spec_count_date(s) >= 1,
    ensures
        spec_first_date(s) is Some,
    decreases s.len(),
{
    if s.len() > 0 && !(s[0] is Date) {
        lemma_count_date_first(s.skip(1));
    }
}

proof fn lemma_count_uuid_first(s: Seq<MetaView>)
    requires
        spec_count_uuid(s) >= 1,
    ensures
        spec_first_uuid(s) is Some,
    decreases s.len(),
{
    if s.len() > 0 && !(s[0] is Uuid) {
        lemma_count_uuid_first(s.skip(1));
    }
}

/// A list holding exactly one of each field has each of them present.
pub proof fn lemma_exactly_one_presence(s: Seq<MetaView>)
    requires
        spec_meta_exactly_one(s),
    ensures
        spec_first_title(s) is Some,
        spec_first_date(s) is Some,
        spec_first_uuid(s) is Some,
{
    lemma_count_title_first(s);
    lemma_count_date_first(s);
    lemma_count_uuid_first(s);
}

impl MetadataList {
    /// Whether the list satisfies the header invariant: exactly one
    /// title, one date and one identifier.
    pub fn is_valid(&self) -> (r: bool)
        ensures
            r == spec_meta_exactly_one(self@),
    {
        let mut titles: usize = 0;
        let mut dates: usize = 0;
        let mut uuids: usize = 0;
        let mut i: usize = 0;
        proof {
            assert(self@.skip(0) =~= self@);
        }
        while i < self.0.len()
            invariant
                i <= self@.len(),
                self@.len() == self.0@.len(),
                forall|k: int| 0 <= k < self@.len() ==> self@[k] == self.0@[k]@,
                titles <= i && dates <= i && uuids <= i,
                spec_count_title(self@) == titles + spec_count_title(self@.skip(i as int)),
                spec_count_date(self@) == dates + spec_count_date(self@.skip(i as int)),
                spec_count_uuid(self@) == uuids + spec_count_uuid(self@.skip(i as int)),
            decreases self@.len() - i,
        {
            proof {
                assert(self@.skip(i as int).skip(1) =~= self@.skip(i + 1));
                assert(self@.skip(i as int)[0] == self@[i as int]);
            }
            match &self.0[i] {
                Metadata::Title(_) => {
                    titles = titles + 1;
                },
                Metadata::Date(_) => {
                    dates = dates + 1;
                },
                Metadata::Uuid(_) => {
                    uuids = uuids + 1;
                },
            }
            i = i + 1;
        }
        proof {
            assert(self@.skip(self@.len() as int) =~= Seq::<MetaView>::empty());
        }
        titles == 1 && dates == 1 && uuids == 1
    }
}

impl MetadataList {
    /// Whether a title was declared.
    pub fn has_title(&self) -> (r: bool)
        ensures
            r == (spec_first_title(self@) is Some),
    {
        let mut i: usize = 0;
        proof {
            assert(self@.skip(0) =~= self@);
        }
        while i < self.0.len()
            invariant
                i <= self@.len(),
                self@.len() == self.0@.len(),
                forall|k: int| 0 <= k < self@.len() ==> self@[k] == self.0@[k]@,
                spec_first_title(self@) == spec_first_title(self@.skip(i as int)),
            decreases self@.len() - i,
        {
            proof {
                assert(self@.skip(i as int).skip(1) =~= self@.skip(i + 1));
            }
            match &self.0[i] {
                Metadata::Title(_) => {
                    return true;
                },
                _ => {},
            }
            i = i + 1;
        }
        false
    }

    /// Whether a date was declared.
    pub fn has_date(&self) -> (r: bool)
        ensures
            r == (spec_first_date(self@) is Some),
    {
        let mut i: usize = 0;
        proof {
            assert(self@.skip(0) =~= self@);
        }
        while i < self.0.len()
            invariant
                i <= self@.len(),
                self@.len() == self.0@.len(),
                forall|k: int| 0 <= k < self@.len() ==> self@[k] == self.0@[k]@,
                spec_first_date(self@) == spec_first_date(self@.skip(i as int)),
            decreases self@.len() - i,
        {
            proof {
                assert(self@.skip(i as int).skip(1) =~= self@.skip(i + 1));
            }
            match &self.0[i] {
                Metadata::Date(_) => {
                    return true;
                },
                _ => {},
            }
            i = i + 1;
        }
        false
    }

    /// Whether an identifier was declared.
    pub fn has_uuid(&self) -> (r: bool)
        ensures
            r == (spec_first_uuid(self@) is Some),
    {
        let mut i: usize = 0;
        proof {
            assert(self@.skip(0) =~= self@);
        }
        while i < self.0.len()
            invariant
                i <= self@.len(),
                self@.len() == self.0@.len(),
                forall|k: int| 0 <= k < self@.len() ==> self@[k] == self.0@[k]@,
                spec_first_uuid(self@) == spec_first_uuid(self@.skip(i as int)),
            decreases self@.len() - i,
        {
            proof {
                assert(self@.skip(i as int).skip(1) =~= self@.skip(i + 1));
            }
            match &self.0[i] {
                Metadata::Uuid(_) => {
                    return true;
                },
                _ => {},
            }
            i = i + 1;
        }
        false
    }

    /// The declared title.  The caller must have checked it is present;
    /// a document without one is a contract violation upstream.
    pub fn title(&self) -> (r: &str)
        requires
            spec_first_title(self@) is Some,
        ensures
            Some(r@) == spec_first_title(self@),
    {
        let mut i: usize = 0;
        proof {
            assert(self@.skip(0) =~= self@);
        }
        while i < self.0.len()
            invariant
                i <= self@.len(),
                self@.len() == self.0@.len(),
                forall|k: int| 0 <= k < self@.len() ==> self@[k] == self.0@[k]@,
                spec_first_title(self@) == spec_first_title(self@.skip(i as int)),
                spec_first_title(self@) is Some,
            decreases self@.len() - i,
        {
            proof {
                assert(self@.skip(i as int).skip(1) =~= self@.skip(i + 1));
            }
            match &self.0[i] {
                Metadata::Title(t) => {
                    return t.as_str();
                },
                _ => {},
            }
            i = i + 1;
        }
        proof {
            assert(self@.skip(self@.len() as int).len() == 0);
            assert(false);
        }
        ""
    }

    /// The declared date.  The caller must have checked it is present.
    pub fn datetime(&self) -> (r: ZonedDate)
        requires
            spec_first_date(self@) is Some,
        ensures
            Some(r) == spec_first_date(self@),
    {
        let mut i: usize = 0;
        proof {
            assert(self@.skip(0) =~= self@);
        }
        while i < self.0.len()
            invariant
                i <= self@.len(),
                self@.len() == self.0@.len(),
                forall|k: int| 0 <= k < self@.len() ==> self@[k] == self.0@[k]@,
                spec_first_date(self@) == spec_first_date(self@.skip(i as int)),
                spec_first_date(self@) is Some,
            decreases self@.len() - i,
        {
            proof {
                assert(self@.skip(i as int).skip(1) =~= self@.skip(i + 1));
            }
            match &self.0[i] {
                Metadata::Date(z) => {
                    return *z;
                },
                _ => {},
            }
            i = i + 1;
        }
        proof {
            assert(self@.skip(self@.len() as int).len() == 0);
            assert(false);
        }
        ZonedDate {
            year: 0,
            month: 1,
            day: 1,
            hour: 0,
            minute: 0,
            second: 0,
            offset_second: 0,
            ts_second: 0,
            ts_nanosecond: 0,
        }
    }

    /// The declared identifier.  The caller must have checked it is
    /// present.
    pub fn uuid(&self) -> (r: u128)
        requires
            spec_first_uuid(self@) is Some,
        ensures
            Some(r) == spec_first_uuid(self@),
    {
        let mut i: usize = 0;
        proof {
            assert(self@.skip(0) =~= self@);
        }
        while i < self.0.len()
            invariant
                i <= self@.len(),
                self@.len() == self.0@.len(),
                forall|k: int| 0 <= k < self@.len() ==> self@[k] == self.0@[k]@,
                spec_first_uuid(self@) == spec_first_uuid(self@.skip(i as int)),
                spec_first_uuid(self@) is Some,
            decreases self@.len() - i,
        {
            proof {
                assert(self@.skip(i as int).skip(1) =~= self@.skip(i + 1));
            }
            match &self.0[i] {
                Metadata::Uuid(u) => {
                    return *u;
                },
                _ => {},
            }
            i = i + 1;
        }
        proof {
            assert(self@.skip(self@.len() as int).len() == 0);
            assert(false);
        }
        0
    }
}

} // verus!
