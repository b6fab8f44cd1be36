//! The markdown-event-to-HTML rendering engine.
//!
//! A single pass over the event stream drives a small state machine:
//! a suppression flag for the header block, table alignment and cell
//! position, an inside-image flag for captions, a working buffer, and
//! the list of completed fragments.  Rendering is all-or-nothing per
//! document: any event category outside the handled set fails the whole
//! document.

use vstd::prelude::*;

use crate::content::{spec_map_lang, syntax_highlight_mapping, Content};
use crate::events::{MdAlignment, MdEvent, MdHeading, MdTag, MdTagEnd};
use crate::render::{
    comp_views, first_match, run_handler, spec_first_match, spec_run_handler,
    spec_standard_components, standard_components, CustomComponent, RenderContext,
};

verus! {

/// Why a document failed to render.
#[derive(Debug)]
pub enum GenerateHtmlError {
    /// An event category the engine does not handle; carries the event.
    UnknownMarkdownEvent(MdEvent),
}

/// The renderer's state between events.
#[verifier::ext_equal]
pub ghost struct RState {
    /// Inside the header block: everything is discarded.
    pub suppressed: bool,
    /// The current table's column alignments.
    pub alignments: Seq<MdAlignment>,
    /// The index of the next table cell.
    pub cell: int,
    /// Whether table cells are headers right now.
    pub in_head: bool,
    /// Between an image's start and end: text becomes a caption.
    pub inside_image: bool,
    /// The fragment being built.
    pub buf: Seq<char>,
    /// The completed fragments, in order.
    pub frags: Seq<Seq<char>>,
}

/// The state the engine starts each document in.
pub open spec fn init_rstate() -> RState {
    RState {
        suppressed: false,
        alignments: Seq::empty(),
        cell: 0,
        in_head: true,
        inside_image: false,
        buf: Seq::empty(),
        frags: Seq::empty(),
    }
}

/// Appends to the working buffer.
pub open spec fn st_emit(st: RState, s: Seq<char>) -> RState {
    RState { buf: st.buf + s, ..st }
}

/// Completes the working buffer as one fragment.
pub open spec fn st_flush(st: RState) -> RState {
    RState { buf: Seq::empty(), frags: st.frags.push(st.buf), ..st }
}

/// The opening tag of a heading, with its size class.
pub open spec fn spec_heading_open(l: MdHeading) -> Seq<char> {
    match l {
        MdHeading::H1 => "<h1 class=\"my-6 font-bold text-4xl\">"@,
        MdHeading::H2 => "<h2 class=\"my-6 font-bold text-3xl\">"@,
        MdHeading::H3 => "<h3 class=\"my-6 font-bold text-2xl\">"@,
        MdHeading::H4 => "<h4 class=\"my-6 font-bold text-xl\">"@,
        MdHeading::H5 => "<h5 class=\"my-6 font-bold text-lg\">"@,
        MdHeading::H6 => "<h6 class=\"my-6 font-bold text-md\">"@,
    }
}

/// The closing tag of a heading.
pub open spec fn spec_heading_close(l: MdHeading) -> Seq<char> {
    match l {
        MdHeading::H1 => "</h1>"@,
        MdHeading::H2 => "</h2>"@,
        MdHeading::H3 => "</h3>"@,
        MdHeading::H4 => "</h4>"@,
        MdHeading::H5 => "</h5>"@,
        MdHeading::H6 => "</h6>"@,
    }
}

fn heading_open_str(l: MdHeading) -> (r: &'static str)
    ensures
        r@ == spec_heading_open(l),
{
    match l {
        MdHeading::H1 => "<h1 class=\"my-6 font-bold text-4xl\">",
        MdHeading::H2 => "<h2 class=\"my-6 font-bold text-3xl\">",
        MdHeading::H3 => "<h3 class=\"my-6 font-bold text-2xl\">",
        MdHeading::H4 => "<h4 class=\"my-6 font-bold text-xl\">",
        MdHeading::H5 => "<h5 class=\"my-6 font-bold text-lg\">",
        MdHeading::H6 => "<h6 class=\"my-6 font-bold text-md\">",
    }
}

fn heading_close_str(l: MdHeading) -> (r: &'static str)
    ensures
        r@ == spec_heading_close(l),
{
    match l {
        MdHeading::H1 => "</h1>",
        MdHeading::H2 => "</h2>",
        MdHeading::H3 => "</h3>",
        MdHeading::H4 => "</h4>",
        MdHeading::H5 => "</h5>",
        MdHeading::H6 => "</h6>",
    }
}

/// The alignment class of one column declaration.
pub open spec fn spec_align_class(a: MdAlignment) -> Seq<char> {
    match a {
        MdAlignment::Left => "text-left"@,
        MdAlignment::Center => "text-center"@,
        MdAlignment::Right => "text-right"@,
        MdAlignment::Unaligned => Seq::empty(),
    }
}

/// The alignment class for the cell at `cell`, empty past the declared
/// columns.
pub open spec fn spec_align_at(aligns: Seq<MdAlignment>, cell: int) -> Seq<char> {
    if 0 <= cell < aligns.len() {
        spec_align_class(aligns[cell])
    } else {
        Seq::empty()
    }
}

/// The opening of a table cell: header or body base classes, plus the
/// column's alignment class when it has one.
pub open spec fn spec_cell_open(in_head: bool, align: Seq<char>) -> Seq<char> {
    (if in_head {
        "<th class=\"px-3 py-3.5 text-left text-sm font-semibold text-white"@
    } else {
        "<td class=\"px-3 py-4 text-sm whitespace-nowrap text-gray-300"@
    }) + (if align.len() == 0 {
        Seq::empty()
    } else {
        " "@ + align
    }) + "\">"@
}

/// The caption fragment an in-image text becomes.
pub open spec fn spec_caption(t: Seq<char>) -> Seq<char> {
    "<blockquote class=\"p-4 mb-4 border-l-8 border-solid border-gray-500 bg-gray-800\">"@ + t
        + "</blockquote>"@
}

/// One step of the machine: the state after `ev`, or the event itself
/// when the engine does not handle it.  While suppressed, only the end
/// of the header block acts; everything else is discarded.
///
/// A raw-HTML chunk that matches no registered custom tag is dropped,
/// not passed through.  That is a deliberate choice, kept on the record
/// here: the engine emits only markup it has produced itself, and a
/// chunk it does not recognize is withheld rather than forwarded
/// unsanitized.
pub open spec fn spec_step(st: RState, ev: MdEvent, has_assets: bool, ctx: RenderContext) -> Result<
    RState,
    (),
> {
    if st.suppressed {
        match ev {
            MdEvent::End(MdTagEnd::MetadataBlock) => Ok(RState { suppressed: false, ..st }),
            _ => Ok(st),
        }
    } else {
        match ev {
            MdEvent::Text(t) => if st.inside_image {
                Ok(st_emit(st, spec_caption(t@)))
            } else {
                Ok(st_emit(st, t@))
            },
            MdEvent::Code(c) => Ok(
                st_flush(
                    st_emit(
                        st,
                        "<code class=\"font-mono bg-white text-black px-1 py-0.5\">"@ + c@
                            + "</code>"@,
                    ),
                ),
            ),
            MdEvent::Html(h) => match spec_first_match(h@, spec_standard_components()) {
                Some(m) => Ok(st_flush(st_emit(st, spec_run_handler(m.1, m.0, has_assets, ctx)))),
                None => Ok(st),
            },
            MdEvent::SoftBreak => Ok(st_flush(st_emit(st, "\n"@))),
            MdEvent::HardBreak => Ok(st_flush(st_emit(st, "<br />"@))),
            MdEvent::Rule => Ok(st_flush(st_emit(st, "<hr />"@))),
            MdEvent::TaskListMarker(checked) => Ok(
                st_flush(
                    st_emit(
                        st,
                        "<input type=\"checkbox\" "@ + (if checked {
                            "checked"@
                        } else {
                            Seq::empty()
                        }) + " class=\"accent-yellow-600\" />"@,
                    ),
                ),
            ),
            MdEvent::Start(tag) => match tag {
                MdTag::Paragraph => Ok(st_emit(st, "<p class=\"my-1.5 text-justify\">"@)),
                MdTag::Heading(l) => Ok(st_emit(st, spec_heading_open(l))),
                MdTag::BlockQuote => Ok(
                    st_emit(
                        st,
                        "<blockquote class=\"p-4 my-4 border-l-8 border-solid border-gray-500 bg-gray-800\">"@,
                    ),
                ),
                MdTag::CodeBlock(lang) => Ok(
                    st_emit(
                        st,
                        "<pre class=\"overflow-x-scroll font-mono bg-white text-black p-4\"><code"@
                            + (match lang {
                            Some(l) => " class=\"language-"@ + spec_map_lang(l@) + "\""@,
                            None => Seq::empty(),
                        }) + ">"@,
                    ),
                ),
                MdTag::HtmlBlock => Ok(st),
                MdTag::List(ordered) => Ok(
                    st_emit(
                        st,
                        if ordered {
                            "<ol class=\"ml-4 pl-4 list-decimal\">"@
                        } else {
                            "<ul class=\"ml-4 pl-4 list-disc\">"@
                        },
                    ),
                ),
                MdTag::Item => Ok(st_emit(st, "<li>"@)),
                MdTag::Table(aligns) => Ok(
                    st_emit(
                        RState { alignments: aligns@, ..st },
                        "<div class=\"overflow-x-auto my-4\">"@
                            + "<div class=\"inline-block min-w-full align-middle\">"@
                            + "<table class=\"min-w-full divide-y divide-gray-700\">"@,
                    ),
                ),
                MdTag::TableHead => Ok(
                    st_emit(RState { in_head: true, cell: 0, ..st }, "<thead><tr>"@),
                ),
                MdTag::TableRow => Ok(st_emit(RState { cell: 0, ..st }, "<tr>"@)),
                MdTag::TableCell => Ok(
                    st_emit(st, spec_cell_open(st.in_head, spec_align_at(st.alignments, st.cell))),
                ),
                MdTag::Emphasis => Ok(st_emit(st, "<em class=\"italic\">"@)),
                MdTag::Strong => Ok(st_emit(st, "<strong class=\"font-bold\">"@)),
                MdTag::Link(url) => Ok(
                    st_emit(
                        st,
                        "<a href=\""@ + url@ + "\" class=\"underline text-yellow-400 break-all\">"@,
                    ),
                ),
                MdTag::Image(url) => Ok(
                    st_emit(
                        RState { inside_image: true, ..st },
                        "<img loading=\"lazy\" src="@ + url@ + " class=\"my-4\" />"@,
                    ),
                ),
                MdTag::MetadataBlock => Ok(RState { suppressed: true, ..st }),
                MdTag::Other(_) => Err(()),
            },
            MdEvent::End(tag) => match tag {
                MdTagEnd::Paragraph => Ok(st_flush(st_emit(st, "</p>\n"@))),
                MdTagEnd::Heading(l) => Ok(st_flush(st_emit(st, spec_heading_close(l)))),
                MdTagEnd::BlockQuote => Ok(st_flush(st_emit(st, "</blockquote>"@))),
                MdTagEnd::CodeBlock => Ok(st_flush(st_emit(st, "</code></pre>"@))),
                MdTagEnd::HtmlBlock => Ok(st),
                MdTagEnd::List(ordered) => Ok(
                    st_flush(st_emit(st, if ordered {
                        "</ol>"@
                    } else {
                        "</ul>"@
                    })),
                ),
                MdTagEnd::Item => Ok(st_flush(st_emit(st, "</li>"@))),
                MdTagEnd::Table => Ok(
                    st_flush(st_emit(st, "</tbody></table>"@ + "</div></div>"@)),
                ),
                MdTagEnd::TableHead => Ok(
                    RState {
                        in_head: false,
                        ..st_flush(
                            st_emit(
                                st,
                                "</tr></thead>"@ + "<tbody class=\"divide-y divide-gray-800\">"@,
                            ),
                        )
                    },
                ),
                MdTagEnd::TableRow => Ok(st_flush(st_emit(st, "</tr>"@))),
                MdTagEnd::TableCell => Ok(
                    st_flush(
                        st_emit(RState { cell: st.cell + 1, ..st }, if st.in_head {
                            "</th>"@
                        } else {
                            "</td>"@
                        }),
                    ),
                ),
                MdTagEnd::Emphasis => Ok(st_flush(st_emit(st, "</em>"@))),
                MdTagEnd::Strong => Ok(st_flush(st_emit(st, "</strong>"@))),
                MdTagEnd::Link => Ok(st_flush(st_emit(st, "</a>"@))),
                MdTagEnd::Image => Ok(RState { inside_image: false, ..st }),
                MdTagEnd::MetadataBlock => Ok(RState { suppressed: false, ..st }),
                MdTagEnd::Other(_) => Err(()),
            },
            MdEvent::Other(_) => Err(()),
        }
    }
}

/// Runs the machine over the events from `i` on; an error is the index
/// of the first event the engine does not handle.
pub open spec fn spec_run(
    evs: Seq<MdEvent>,
    i: int,
    st: RState,
    has_assets: bool,
    ctx: RenderContext,
) -> Result<RState, int>
    decreases evs.len() - i,
{
    if i < 0 || i >= evs.len() {
        Ok(st)
    } else {
        match spec_step(st, evs[i], has_assets, ctx) {
            Ok(st2) => spec_run(evs, i + 1, st2, has_assets, ctx),
            Err(()) => Err(i),
        }
    }
}

/// The completed fragments joined with one newline; a fragment still in
/// the buffer at the end is not part of the document.
pub open spec fn spec_join_frags(frags: Seq<Seq<char>>) -> Seq<char>
    decreases frags.len(),
{
    if frags.len() == 0 {
        Seq::empty()
    } else if frags.len() == 1 {
        frags[0]
    } else {
        spec_join_frags(frags.drop_last()) + "\n"@ + frags.last()
    }
}

/// The renderer's concrete state.
struct Renderer {
    suppressed: bool,
    alignments: Vec<MdAlignment>,
    cell: usize,
    in_head: bool,
    inside_image: bool,
    buf: String,
    frags: Vec<String>,
}

impl View for Renderer {
    type V = RState;

    closed spec fn view(&self) -> RState {
        RState {
            suppressed: self.suppressed,
            alignments: self.alignments@,
            cell: self.cell as int,
            in_head: self.in_head,
            inside_image: self.inside_image,
            buf: self.buf@,
            frags: self.frags@.map_values(|s: String| s@),
        }
    }
}

impl Renderer {
    fn new() -> (r: Renderer)
        ensures
            r@ =~= init_rstate(),
    {
        let r = Renderer {
            suppressed: false,
            alignments: Vec::new(),
            cell: 0,
            in_head: true,
            inside_image: false,
            buf: String::new(),
            frags: Vec::new(),
        };
        proof {
            assert(r@.frags =~= init_rstate().frags);
        }
        r
    }

    fn emit(&mut self, s: &str)
        ensures
            final(self)@ == st_emit(old(self)@, s@),
    {
        self.buf.append(s);
    }

    fn flush(&mut self)
        ensures
            final(self)@ =~= st_flush(old(self)@),
    {
        let done = self.buf.clone();
        self.frags.push(done);
        self.buf = String::new();
        proof {
            assert(final(self)@.frags =~= st_flush(old(self)@).frags);
        }
    }
}

fn copy_aligns(v: &Vec<MdAlignment>) -> (r: Vec<MdAlignment>)
    ensures
        r@ == v@,
{
    let mut r: Vec<MdAlignment> = Vec::new();
    let mut i: usize = 0;
    while i < v.len()
        invariant
            i <= v@.len(),
            r@ == v@.take(i as int),
        decreases v@.len() - i,
    {
        r.push(v[i]);
        proof {
            assert(r@ =~= v@.take(i + 1));
        }
        i = i + 1;
    }
    proof {
        assert(v@.take(v@.len() as int) =~= v@);
    }
    r
}

/// Joins the fragments with one newline between neighbours.
fn join_frags(frags: &Vec<String>) -> (r: String)
    ensures
        r@ == spec_join_frags(frags@.map_values(|s: String| s@)),
{
    let ghost fv = frags@.map_values(|s: String| s@);
    let mut out = String::new();
    let mut i: usize = 0;
    proof {
        assert(fv.take(0) =~= Seq::<Seq<char>>::empty());
    }
    while i < frags.len()
        invariant
            i <= fv.len(),
            fv == frags@.map_values(|s: String| s@),
            out@ == spec_join_frags(fv.take(i as int)),
        decreases fv.len() - i,
    {
        if i > 0 {
            out.append("\n");
        }
        out.append(frags[i].as_str());
        proof {
            assert(fv.take(i + 1).drop_last() =~= fv.take(i as int));
            assert(fv.take(i + 1).last() == fv[i as int]);
            if i == 0 {
                assert(out@ =~= spec_join_frags(fv.take(1)));
            }
        }
        i = i + 1;
    }
    proof {
        assert(fv.take(fv.len() as int) =~= fv);
    }
    out
}


/// The image-caption scenario: from any state outside the header block
/// and not already inside an image, an image start, a text and the
/// image end append the eagerly emitted `img` tag and then the text as
/// its own blockquote-styled caption — never as plain inline text — and
/// leave the completed fragments and the rest of the state unchanged.
pub proof fn lemma_image_caption(
    st: RState,
    url: String,
    cap: String,
    has_assets: bool,
    ctx: RenderContext,
)
    requires
        !st.suppressed,
        !st.inside_image,
    ensures
        ({
            let evs = seq![
                MdEvent::Start(MdTag::Image(url)),
                MdEvent::Text(cap),
                MdEvent::End(MdTagEnd::Image),
            ];
            spec_run(evs, 0, st, has_assets, ctx) matches Ok(st2) && st2 =~= RState {
                buf: st.buf + "<img loading=\"lazy\" src="@ + url@ + " class=\"my-4\" />"@
                    + spec_caption(cap@),
                ..st
            }
        }),
{
    let evs = seq![
        MdEvent::Start(MdTag::Image(url)),
        MdEvent::Text(cap),
        MdEvent::End(MdTagEnd::Image),
    ];
    let st1 = st_emit(
        RState { inside_image: true, ..st },
        "<img loading=\"lazy\" src="@ + url@ + " class=\"my-4\" />"@,
    );
    let st2 = st_emit(st1, spec_caption(cap@));
    let st3 = RState { inside_image: false, ..st2 };
    assert(spec_step(st, evs[0], has_assets, ctx) == Ok::<RState, ()>(st1));
    assert(spec_step(st1, evs[1], has_assets, ctx) == Ok::<RState, ()>(st2));
    assert(spec_step(st2, evs[2], has_assets, ctx) == Ok::<RState, ()>(st3));
    assert(spec_run(evs, 3, st3, has_assets, ctx) == Ok::<RState, int>(st3));
    assert(spec_run(evs, 2, st2, has_assets, ctx) == Ok::<RState, int>(st3));
    assert(spec_run(evs, 1, st1, has_assets, ctx) == Ok::<RState, int>(st3));
    assert(spec_run(evs, 0, st, has_assets, ctx) == Ok::<RState, int>(st3));
}

/// The canonical table scenario: two columns with a `Right` alignment
/// on the second, one header row and two body rows.  From any state
/// outside the header block and outside an image, the machine completes
/// exactly ten fragments: one opening head fragment and one closing
/// body/table fragment (so one head/body pair), two `<th>` and four
/// `<td>` cells, and in every row the second cell opens with the
/// right-alignment class while the first opens with none.
#[verifier::rlimit(100)]
pub proof fn lemma_table_rendering(
    st: RState,
    aligns: Vec<MdAlignment>,
    h1: String,
    h2: String,
    b1: String,
    b2: String,
    b3: String,
    b4: String,
    has_assets: bool,
    ctx: RenderContext,
)
    requires
        !st.suppressed,
        !st.inside_image,
        aligns@ == seq![MdAlignment::Unaligned, MdAlignment::Right],
    ensures
        ({
            let evs = seq![
                MdEvent::Start(MdTag::Table(aligns)),
                MdEvent::Start(MdTag::TableHead),
                MdEvent::Start(MdTag::TableCell),
                MdEvent::Text(h1),
                MdEvent::End(MdTagEnd::TableCell),
                MdEvent::Start(MdTag::TableCell),
                MdEvent::Text(h2),
                MdEvent::End(MdTagEnd::TableCell),
                MdEvent::End(MdTagEnd::TableHead),
                MdEvent::Start(MdTag::TableRow),
                MdEvent::Start(MdTag::TableCell),
                MdEvent::Text(b1),
                MdEvent::End(MdTagEnd::TableCell),
                MdEvent::Start(MdTag::TableCell),
                MdEvent::Text(b2),
                MdEvent::End(MdTagEnd::TableCell),
                MdEvent::End(MdTagEnd::TableRow),
                MdEvent::Start(MdTag::TableRow),
                MdEvent::Start(MdTag::TableCell),
                MdEvent::Text(b3),
                MdEvent::End(MdTagEnd::TableCell),
                MdEvent::Start(MdTag::TableCell),
                MdEvent::Text(b4),
                MdEvent::End(MdTagEnd::TableCell),
                MdEvent::End(MdTagEnd::TableRow),
                MdEvent::End(MdTagEnd::Table),
            ];
            let table_open = "<div class=\"overflow-x-auto my-4\">"@
                + "<div class=\"inline-block min-w-full align-middle\">"@
                + "<table class=\"min-w-full divide-y divide-gray-700\">"@;
            let th_plain = spec_cell_open(true, Seq::empty());
            let th_right = spec_cell_open(true, "text-right"@);
            let td_plain = spec_cell_open(false, Seq::empty());
            let td_right = spec_cell_open(false, "text-right"@);
            spec_run(evs, 0, st, has_assets, ctx) matches Ok(st2) && st2.frags =~~= st.frags
                + seq![
                st.buf + table_open + "<thead><tr>"@ + th_plain + h1@ + "</th>"@,
                th_right + h2@ + "</th>"@,
                "</tr></thead>"@ + "<tbody class=\"divide-y divide-gray-800\">"@,
                "<tr>"@ + td_plain + b1@ + "</td>"@,
                td_right + b2@ + "</td>"@,
                "</tr>"@,
                "<tr>"@ + td_plain + b3@ + "</td>"@,
                td_right + b4@ + "</td>"@,
                "</tr>"@,
                "</tbody></table>"@ + "</div></div>"@,
            ] && st2.buf =~= Seq::<char>::empty()
        }),
{
    let evs = seq![
        MdEvent::Start(MdTag::Table(aligns)),
        MdEvent::Start(MdTag::TableHead),
        MdEvent::Start(MdTag::TableCell),
        MdEvent::Text(h1),
        MdEvent::End(MdTagEnd::TableCell),
        MdEvent::Start(MdTag::TableCell),
        MdEvent::Text(h2),
        MdEvent::End(MdTagEnd::TableCell),
        MdEvent::End(MdTagEnd::TableHead),
        MdEvent::Start(MdTag::TableRow),
        MdEvent::Start(MdTag::TableCell),
        MdEvent::Text(b1),
        MdEvent::End(MdTagEnd::TableCell),
        MdEvent::Start(MdTag::TableCell),
        MdEvent::Text(b2),
        MdEvent::End(MdTagEnd::TableCell),
        MdEvent::End(MdTagEnd::TableRow),
        MdEvent::Start(MdTag::TableRow),
        MdEvent::Start(MdTag::TableCell),
        MdEvent::Text(b3),
        MdEvent::End(MdTagEnd::TableCell),
        MdEvent::Start(MdTag::TableCell),
        MdEvent::Text(b4),
        MdEvent::End(MdTagEnd::TableCell),
        MdEvent::End(MdTagEnd::TableRow),
        MdEvent::End(MdTagEnd::Table),
    ];
    reveal_strlit("text-right");
    let s1 = st_emit(
        RState { alignments: aligns@, ..st },
        "<div class=\"overflow-x-auto my-4\">"@
            + "<div class=\"inline-block min-w-full align-middle\">"@
            + "<table class=\"min-w-full divide-y divide-gray-700\">"@,
    );
    let s2 = st_emit(RState { in_head: true, cell: 0, ..s1 }, "<thead><tr>"@);
    let s3 = st_emit(s2, spec_cell_open(s2.in_head, spec_align_at(s2.alignments, s2.cell)));
    let s4 = st_emit(s3, h1@);
    let s5 = st_flush(st_emit(RState { cell: s4.cell + 1, ..s4 }, if s4.in_head {
        "</th>"@
    } else {
        "</td>"@
    }));
    let s6 = st_emit(s5, spec_cell_open(s5.in_head, spec_align_at(s5.alignments, s5.cell)));
    let s7 = st_emit(s6, h2@);
    let s8 = st_flush(st_emit(RState { cell: s7.cell + 1, ..s7 }, if s7.in_head {
        "</th>"@
    } else {
        "</td>"@
    }));
    let s9 = RState {
        in_head: false,
        ..st_flush(
            st_emit(s8, "</tr></thead>"@ + "<tbody class=\"divide-y divide-gray-800\">"@),
        )
    };
    let s10 = st_emit(RState { cell: 0, ..s9 }, "<tr>"@);
    let s11 = st_emit(s10, spec_cell_open(s10.in_head, spec_align_at(s10.alignments, s10.cell)));
    let s12 = st_emit(s11, b1@);
    let s13 = st_flush(st_emit(RState { cell: s12.cell + 1, ..s12 }, if s12.in_head {
        "</th>"@
    } else {
        "</td>"@
    }));
    let s14 = st_emit(s13, spec_cell_open(s13.in_head, spec_align_at(s13.alignments, s13.cell)));
    let s15 = st_emit(s14, b2@);
    let s16 = st_flush(st_emit(RState { cell: s15.cell + 1, ..s15 }, if s15.in_head {
        "</th>"@
    } else {
        "</td>"@
    }));
    let s17 = st_flush(st_emit(s16, "</tr>"@));
    let s18 = st_emit(RState { cell: 0, ..s17 }, "<tr>"@);
    let s19 = st_emit(s18, spec_cell_open(s18.in_head, spec_align_at(s18.alignments, s18.cell)));
    let s20 = st_emit(s19, b3@);
    let s21 = st_flush(st_emit(RState { cell: s20.cell + 1, ..s20 }, if s20.in_head {
        "</th>"@
    } else {
        "</td>"@
    }));
    let s22 = st_emit(s21, spec_cell_open(s21.in_head, spec_align_at(s21.alignments, s21.cell)));
    let s23 = st_emit(s22, b4@);
    let s24 = st_flush(st_emit(RState { cell: s23.cell + 1, ..s23 }, if s23.in_head {
        "</th>"@
    } else {
        "</td>"@
    }));
    let s25 = st_flush(st_emit(s24, "</tr>"@));
    let s26 = st_flush(st_emit(s25, "</tbody></table>"@ + "</div></div>"@));
    assert(spec_step(st, evs[0], has_assets, ctx) == Ok::<RState, ()>(s1));
    assert(spec_step(s1, evs[1], has_assets, ctx) == Ok::<RState, ()>(s2));
    assert(spec_step(s2, evs[2], has_assets, ctx) == Ok::<RState, ()>(s3));
    assert(spec_step(s3, evs[3], has_assets, ctx) == Ok::<RState, ()>(s4));
    assert(spec_step(s4, evs[4], has_assets, ctx) == Ok::<RState, ()>(s5));
    assert(spec_step(s5, evs[5], has_assets, ctx) == Ok::<RState, ()>(s6));
    assert(spec_step(s6, evs[6], has_assets, ctx) == Ok::<RState, ()>(s7));
    assert(spec_step(s7, evs[7], has_assets, ctx) == Ok::<RState, ()>(s8));
    assert(spec_step(s8, evs[8], has_assets, ctx) == Ok::<RState, ()>(s9));
    assert(spec_step(s9, evs[9], has_assets, ctx) == Ok::<RState, ()>(s10));
    assert(spec_step(s10, evs[10], has_assets, ctx) == Ok::<RState, ()>(s11));
    assert(spec_step(s11, evs[11], has_assets, ctx) == Ok::<RState, ()>(s12));
    assert(spec_step(s12, evs[12], has_assets, ctx) == Ok::<RState, ()>(s13));
    assert(spec_step(s13, evs[13], has_assets, ctx) == Ok::<RState, ()>(s14));
    assert(spec_step(s14, evs[14], has_assets, ctx) == Ok::<RState, ()>(s15));
    assert(spec_step(s15, evs[15], has_assets, ctx) == Ok::<RState, ()>(s16));
    assert(spec_step(s16, evs[16], has_assets, ctx) == Ok::<RState, ()>(s17));
    assert(spec_step(s17, evs[17], has_assets, ctx) == Ok::<RState, ()>(s18));
    assert(spec_step(s18, evs[18], has_assets, ctx) == Ok::<RState, ()>(s19));
    assert(spec_step(s19, evs[19], has_assets, ctx) == Ok::<RState, ()>(s20));
    assert(spec_step(s20, evs[20], has_assets, ctx) == Ok::<RState, ()>(s21));
    assert(spec_step(s21, evs[21], has_assets, ctx) == Ok::<RState, ()>(s22));
    assert(spec_step(s22, evs[22], has_assets, ctx) == Ok::<RState, ()>(s23));
    assert(spec_step(s23, evs[23], has_assets, ctx) == Ok::<RState, ()>(s24));
    assert(spec_step(s24, evs[24], has_assets, ctx) == Ok::<RState, ()>(s25));
    assert(spec_step(s25, evs[25], has_assets, ctx) == Ok::<RState, ()>(s26));
    assert(spec_run(evs, 26, s26, has_assets, ctx) == Ok::<RState, int>(s26));
    assert(spec_run(evs, 25, s25, has_assets, ctx) == Ok::<RState, int>(s26));
    assert(spec_run(evs, 24, s24, has_assets, ctx) == Ok::<RState, int>(s26));
    assert(spec_run(evs, 23, s23, has_assets, ctx) == Ok::<RState, int>(s26));
    assert(spec_run(evs, 22, s22, has_assets, ctx) == Ok::<RState, int>(s26));
    assert(spec_run(evs, 21, s21, has_assets, ctx) == Ok::<RState, int>(s26));
    assert(spec_run(evs, 20, s20, has_assets, ctx) == Ok::<RState, int>(s26));
    assert(spec_run(evs, 19, s19, has_assets, ctx) == Ok::<RState, int>(s26));
    assert(spec_run(evs, 18, s18, has_assets, ctx) == Ok::<RState, int>(s26));
    assert(spec_run(evs, 17, s17, has_assets, ctx) == Ok::<RState, int>(s26));
    assert(spec_run(evs, 16, s16, has_assets, ctx) == Ok::<RState, int>(s26));
    assert(spec_run(evs, 15, s15, has_assets, ctx) == Ok::<RState, int>(s26));
    assert(spec_run(evs, 14, s14, has_assets, ctx) == Ok::<RState, int>(s26));
    assert(spec_run(evs, 13, s13, has_assets, ctx) == Ok::<RState, int>(s26));
    assert(spec_run(evs, 12, s12, has_assets, ctx) == Ok::<RState, int>(s26));
    assert(spec_run(evs, 11, s11, has_assets, ctx) == Ok::<RState, int>(s26));
    assert(spec_run(evs, 10, s10, has_assets, ctx) == Ok::<RState, int>(s26));
    assert(spec_run(evs, 9, s9, has_assets, ctx) == Ok::<RState, int>(s26));
    assert(spec_run(evs, 8, s8, has_assets, ctx) == Ok::<RState, int>(s26));
    assert(spec_run(evs, 7, s7, has_assets, ctx) == Ok::<RState, int>(s26));
    assert(spec_run(evs, 6, s6, has_assets, ctx) == Ok::<RState, int>(s26));
    assert(spec_run(evs, 5, s5, has_assets, ctx) == Ok::<RState, int>(s26));
    assert(spec_run(evs, 4, s4, has_assets, ctx) == Ok::<RState, int>(s26));
    assert(spec_run(evs, 3, s3, has_assets, ctx) == Ok::<RState, int>(s26));
    assert(spec_run(evs, 2, s2, has_assets, ctx) == Ok::<RState, int>(s26));
    assert(spec_run(evs, 1, s1, has_assets, ctx) == Ok::<RState, int>(s26));
    assert(spec_run(evs, 0, st, has_assets, ctx) == Ok::<RState, int>(s26));
    let table_open = "<div class=\"overflow-x-auto my-4\">"@
        + "<div class=\"inline-block min-w-full align-middle\">"@
        + "<table class=\"min-w-full divide-y divide-gray-700\">"@;
    let th_plain = spec_cell_open(true, Seq::empty());
    let th_right = spec_cell_open(true, "text-right"@);
    let td_plain = spec_cell_open(false, Seq::empty());
    let td_right = spec_cell_open(false, "text-right"@);
    // the buffer at each flush point, fragment by fragment
    assert(s4.buf =~= st.buf + table_open + "<thead><tr>"@ + th_plain + h1@);
    assert(s5.frags =~= st.frags.push(s4.buf + "</th>"@));
    assert(s7.buf =~= th_right + h2@);
    assert(s12.buf =~= "<tr>"@ + td_plain + b1@);
    assert(s15.buf =~= td_right + b2@);
    assert(s20.buf =~= "<tr>"@ + td_plain + b3@);
    assert(s23.buf =~= td_right + b4@);
    let n = st.frags.len() as int;
    assert(s26.frags.len() == n + 10);
    assert(forall|k: int| 0 <= k < n ==> s26.frags[k] == st.frags[k]);
    assert(s26.frags[n] =~= st.buf + table_open + "<thead><tr>"@ + th_plain + h1@ + "</th>"@);
    assert(s26.frags[n + 1] =~= th_right + h2@ + "</th>"@);
    assert(s26.frags[n + 2] =~= "</tr></thead>"@
        + "<tbody class=\"divide-y divide-gray-800\">"@);
    assert(s26.frags[n + 3] =~= "<tr>"@ + td_plain + b1@ + "</td>"@);
    assert(s26.frags[n + 4] =~= td_right + b2@ + "</td>"@);
    assert(s26.frags[n + 5] =~= "</tr>"@);
    assert(s26.frags[n + 6] =~= "<tr>"@ + td_plain + b3@ + "</td>"@);
    assert(s26.frags[n + 7] =~= td_right + b4@ + "</td>"@);
    assert(s26.frags[n + 8] =~= "</tr>"@);
    assert(s26.frags[n + 9] =~= "</tbody></table>"@ + "</div></div>"@);
    assert(s26.frags =~~= st.frags + seq![
        st.buf + table_open + "<thead><tr>"@ + th_plain + h1@ + "</th>"@,
        th_right + h2@ + "</th>"@,
        "</tr></thead>"@ + "<tbody class=\"divide-y divide-gray-800\">"@,
        "<tr>"@ + td_plain + b1@ + "</td>"@,
        td_right + b2@ + "</td>"@,
        "</tr>"@,
        "<tr>"@ + td_plain + b3@ + "</td>"@,
        td_right + b4@ + "</td>"@,
        "</tr>"@,
        "</tbody></table>"@ + "</div></div>"@,
    ]);
    assert(s26.buf =~= Seq::<char>::empty());
}

/// Whether the engine has no arm for the event.
pub open spec fn spec_is_unknown(ev: MdEvent) -> bool {
    ev matches MdEvent::Other(_) || ev matches MdEvent::Start(MdTag::Other(_)) || ev matches MdEvent::End(
        MdTagEnd::Other(_),
    )
}

/// Whether two events are the same unhandled construct with the same
/// description.
pub open spec fn spec_same_unknown(a: MdEvent, b: MdEvent) -> bool {
    match (a, b) {
        (MdEvent::Other(x), MdEvent::Other(y)) => x@ == y@,
        (MdEvent::Start(MdTag::Other(x)), MdEvent::Start(MdTag::Other(y))) => x@ == y@,
        (MdEvent::End(MdTagEnd::Other(x)), MdEvent::End(MdTagEnd::Other(y))) => x@ == y@,
        _ => false,
    }
}

fn clone_unknown(ev: &MdEvent) -> (r: MdEvent)
    requires
        spec_is_unknown(*ev),
    ensures
        spec_same_unknown(r, *ev),
{
    match ev {
        MdEvent::Other(d) => MdEvent::Other(d.clone()),
        MdEvent::Start(MdTag::Other(d)) => MdEvent::Start(MdTag::Other(d.clone())),
        MdEvent::End(MdTagEnd::Other(d)) => MdEvent::End(MdTagEnd::Other(d.clone())),
        _ => MdEvent::Other(String::new()),
    }
}

impl Renderer {
    /// Handles the start of a construct; `false` means the construct is
    /// not one the engine knows.
    #[verifier::rlimit(60)]
    fn do_start(&mut self, tag: &MdTag, has_assets: bool, ctx: &RenderContext) -> (ok: bool)
        requires
            !old(self)@.suppressed,
        ensures
            ({
                let res = spec_step(old(self)@, MdEvent::Start(*tag), has_assets, *ctx);
                if ok {
                    res matches Ok(st2) && final(self)@ =~= st2
                } else {
                    res is Err && final(self)@ == old(self)@ && spec_is_unknown(
                        MdEvent::Start(*tag),
                    )
                }
            }),
            final(self)@.cell <= old(self)@.cell + 1,
    {
        let ghost pre = self@;
        match tag {
            MdTag::Paragraph => {
                self.emit("<p class=\"my-1.5 text-justify\">");
            },
            MdTag::Heading(l) => {
                self.emit(heading_open_str(*l));
            },
            MdTag::BlockQuote => {
                self.emit(
                    "<blockquote class=\"p-4 my-4 border-l-8 border-solid border-gray-500 bg-gray-800\">",
                );
            },
            MdTag::CodeBlock(lang) => {
                self.emit(
                    "<pre class=\"overflow-x-scroll font-mono bg-white text-black p-4\"><code",
                );
                match lang {
                    Some(l) => {
                        self.emit(" class=\"language-");
                        let mapped = syntax_highlight_mapping(l.as_str());
                        self.emit(mapped.as_str());
                        self.emit("\"");
                    },
                    None => {},
                }
                self.emit(">");
                proof {
                    assert(self@ =~= st_emit(
                        pre,
                        "<pre class=\"overflow-x-scroll font-mono bg-white text-black p-4\"><code"@
                            + (match *tag {
                            MdTag::CodeBlock(Some(l)) => " class=\"language-"@ + spec_map_lang(l@)
                                + "\""@,
                            _ => Seq::<char>::empty(),
                        }) + ">"@,
                    ));
                }
            },
            MdTag::HtmlBlock => {},
            MdTag::List(ordered) => {
                if *ordered {
                    self.emit("<ol class=\"ml-4 pl-4 list-decimal\">");
                } else {
                    self.emit("<ul class=\"ml-4 pl-4 list-disc\">");
                }
            },
            MdTag::Item => {
                self.emit("<li>");
            },
            MdTag::Table(aligns) => {
                self.alignments = copy_aligns(aligns);
                self.emit("<div class=\"overflow-x-auto my-4\">");
                self.emit("<div class=\"inline-block min-w-full align-middle\">");
                self.emit("<table class=\"min-w-full divide-y divide-gray-700\">");
                proof {
                    assert(self@ =~= st_emit(
                        RState { alignments: aligns@, ..pre },
                        "<div class=\"overflow-x-auto my-4\">"@
                            + "<div class=\"inline-block min-w-full align-middle\">"@
                            + "<table class=\"min-w-full divide-y divide-gray-700\">"@,
                    ));
                }
            },
            MdTag::TableHead => {
                self.in_head = true;
                self.cell = 0;
                self.emit("<thead><tr>");
            },
            MdTag::TableRow => {
                self.cell = 0;
                self.emit("<tr>");
            },
            MdTag::TableCell => {
                if self.in_head {
                    self.emit("<th class=\"px-3 py-3.5 text-left text-sm font-semibold text-white");
                } else {
                    self.emit("<td class=\"px-3 py-4 text-sm whitespace-nowrap text-gray-300");
                }
                let a = if self.cell < self.alignments.len() {
                    self.alignments[self.cell]
                } else {
                    MdAlignment::Unaligned
                };
                match a {
                    MdAlignment::Left => {
                        self.emit(" ");
                        self.emit("text-left");
                    },
                    MdAlignment::Center => {
                        self.emit(" ");
                        self.emit("text-center");
                    },
                    MdAlignment::Right => {
                        self.emit(" ");
                        self.emit("text-right");
                    },
                    MdAlignment::Unaligned => {},
                }
                self.emit("\">");
                proof {
                    reveal_strlit("text-left");
                    reveal_strlit("text-center");
                    reveal_strlit("text-right");
                    assert(self@ =~= st_emit(
                        pre,
                        spec_cell_open(pre.in_head, spec_align_at(pre.alignments, pre.cell)),
                    ));
                }
            },
            MdTag::Emphasis => {
                self.emit("<em class=\"italic\">");
            },
            MdTag::Strong => {
                self.emit("<strong class=\"font-bold\">");
            },
            MdTag::Link(url) => {
                self.emit("<a href=\"");
                self.emit(url.as_str());
                self.emit("\" class=\"underline text-yellow-400 break-all\">");
                proof {
                    assert(self@ =~= st_emit(
                        pre,
                        "<a href=\""@ + url@
                            + "\" class=\"underline text-yellow-400 break-all\">"@,
                    ));
                }
            },
            MdTag::Image(url) => {
                self.inside_image = true;
                self.emit("<img loading=\"lazy\" src=");
                self.emit(url.as_str());
                self.emit(" class=\"my-4\" />");
                proof {
                    assert(self@ =~= st_emit(
                        RState { inside_image: true, ..pre },
                        "<img loading=\"lazy\" src="@ + url@ + " class=\"my-4\" />"@,
                    ));
                }
            },
            MdTag::MetadataBlock => {
                self.suppressed = true;
            },
            MdTag::Other(_) => {
                return false;
            },
        }
        true
    }

    /// Handles the end of a construct; `false` means the construct is
    /// not one the engine knows.
    #[verifier::rlimit(60)]
    fn do_end(&mut self, tag: &MdTagEnd) -> (ok: bool)
        requires
            !old(self)@.suppressed,
            old(self)@.cell < usize::MAX,
        ensures
            ({
                let res = spec_step(
                    old(self)@,
                    MdEvent::End(*tag),
                    arbitrary(),
                    arbitrary(),
                );
                if ok {
                    res matches Ok(st2) && final(self)@ =~= st2
                } else {
                    res is Err && final(self)@ == old(self)@ && spec_is_unknown(MdEvent::End(*tag))
                }
            }),
            final(self)@.cell <= old(self)@.cell + 1,
    {
        let ghost pre = self@;
        match tag {
            MdTagEnd::Paragraph => {
                self.emit("</p>\n");
                self.flush();
            },
            MdTagEnd::Heading(l) => {
                self.emit(heading_close_str(*l));
                self.flush();
            },
            MdTagEnd::BlockQuote => {
                self.emit("</blockquote>");
                self.flush();
            },
            MdTagEnd::CodeBlock => {
                self.emit("</code></pre>");
                self.flush();
            },
            MdTagEnd::HtmlBlock => {},
            MdTagEnd::List(ordered) => {
                if *ordered {
                    self.emit("</ol>");
                } else {
                    self.emit("</ul>");
                }
                self.flush();
            },
            MdTagEnd::Item => {
                self.emit("</li>");
                self.flush();
            },
            MdTagEnd::Table => {
                self.emit("</tbody></table>");
                self.emit("</div></div>");
                proof {
                    assert(self@ =~= st_emit(pre, "</tbody></table>"@ + "</div></div>"@));
                }
                self.flush();
            },
            MdTagEnd::TableHead => {
                self.emit("</tr></thead>");
                self.emit("<tbody class=\"divide-y divide-gray-800\">");
                proof {
                    assert(self@ =~= st_emit(
                        pre,
                        "</tr></thead>"@ + "<tbody class=\"divide-y divide-gray-800\">"@,
                    ));
                }
                self.flush();
                self.in_head = false;
            },
            MdTagEnd::TableRow => {
                self.emit("</tr>");
                self.flush();
            },
            MdTagEnd::TableCell => {
                if self.in_head {
                    self.emit("</th>");
                } else {
                    self.emit("</td>");
                }
                self.cell = self.cell + 1;
                proof {
                    assert(self@ =~= st_emit(RState { cell: pre.cell + 1, ..pre }, if pre.in_head {
                        "</th>"@
                    } else {
                        "</td>"@
                    }));
                }
                self.flush();
            },
            MdTagEnd::Emphasis => {
                self.emit("</em>");
                self.flush();
            },
            MdTagEnd::Strong => {
                self.emit("</strong>");
                self.flush();
            },
            MdTagEnd::Link => {
                self.emit("</a>");
                self.flush();
            },
            MdTagEnd::Image => {
                self.inside_image = false;
            },
            MdTagEnd::MetadataBlock => {
                self.suppressed = false;
            },
            MdTagEnd::Other(_) => {
                return false;
            },
        }
        true
    }

    /// Advances the machine by one event; `false` means the event is of
    /// an unhandled category (and the state is untouched).
    #[verifier::rlimit(60)]
    fn step_event(
        &mut self,
        ev: &MdEvent,
        has_assets: bool,
        ctx: &RenderContext,
        comps: &Vec<CustomComponent>,
    ) -> (ok: bool)
        requires
            old(self)@.cell < usize::MAX,
            comp_views(comps@) == spec_standard_components(),
        ensures
            ({
                let res = spec_step(old(self)@, *ev, has_assets, *ctx);
                if ok {
                    res matches Ok(st2) && final(self)@ =~= st2
                } else {
                    res is Err && final(self)@ == old(self)@ && spec_is_unknown(*ev)
                }
            }),
            final(self)@.cell <= old(self)@.cell + 1,
    {
        let ghost pre = self@;
        if self.suppressed {
            match ev {
                MdEvent::End(MdTagEnd::MetadataBlock) => {
                    self.suppressed = false;
                },
                _ => {},
            }
            return true;
        }
        match ev {
            MdEvent::Text(t) => {
                if self.inside_image {
                    self.emit(
                        "<blockquote class=\"p-4 mb-4 border-l-8 border-solid border-gray-500 bg-gray-800\">",
                    );
                    self.emit(t.as_str());
                    self.emit("</blockquote>");
                    proof {
                        assert(self@ =~= st_emit(pre, spec_caption(t@)));
                    }
                } else {
                    self.emit(t.as_str());
                }
                true
            },
            MdEvent::Code(c) => {
                self.emit("<code class=\"font-mono bg-white text-black px-1 py-0.5\">");
                self.emit(c.as_str());
                self.emit("</code>");
                proof {
                    assert(self@ =~= st_emit(
                        pre,
                        "<code class=\"font-mono bg-white text-black px-1 py-0.5\">"@ + c@
                            + "</code>"@,
                    ));
                }
                self.flush();
                true
            },
            MdEvent::Html(h) => {
                match first_match(h.as_str(), comps) {
                    Some((attr, handler)) => {
                        let frag = run_handler(handler, attr.as_str(), has_assets, ctx);
                        self.emit(frag.as_str());
                        self.flush();
                    },
                    None => {},
                }
                true
            },
            MdEvent::SoftBreak => {
                self.emit("\n");
                self.flush();
                true
            },
            MdEvent::HardBreak => {
                self.emit("<br />");
                self.flush();
                true
            },
            MdEvent::Rule => {
                self.emit("<hr />");
                self.flush();
                true
            },
            MdEvent::TaskListMarker(checked) => {
                self.emit("<input type=\"checkbox\" ");
                if *checked {
                    self.emit("checked");
                }
                self.emit(" class=\"accent-yellow-600\" />");
                proof {
                    assert(self@ =~= st_emit(
                        pre,
                        "<input type=\"checkbox\" "@ + (if *checked {
                            "checked"@
                        } else {
                            Seq::<char>::empty()
                        }) + " class=\"accent-yellow-600\" />"@,
                    ));
                }
                self.flush();
                true
            },
            MdEvent::Start(tag) => self.do_start(tag, has_assets, ctx),
            MdEvent::End(tag) => self.do_end(tag),
            MdEvent::Other(_) => false,
        }
    }
}

/// The attribute values of every raw-HTML chunk that resolves to the
/// image-grid handler, in stream order: the directories whose listings
/// a render will ask for.
pub open spec fn spec_grid_dirs(evs: Seq<MdEvent>) -> Seq<Seq<char>>
    decreases evs.len(),
{
    if evs.len() == 0 {
        Seq::empty()
    } else {
        let rest = spec_grid_dirs(evs.skip(1));
        match evs[0] {
            MdEvent::Html(h) => match spec_first_match(h@, spec_standard_components()) {
                Some(m) => match m.1 {
                    crate::render::CustomHandler::ImageGrid => seq![m.0] + rest,
                },
                None => rest,
            },
            _ => rest,
        }
    }
}

impl Content {
    /// The image-grid directories the document names, in order, so the
    /// caller can list each one before rendering.  A directory may
    /// appear for a chunk the render later discards as suppressed; an
    /// unused listing is harmless.
    pub fn image_grid_directories(&self) -> (r: Vec<String>)
        ensures
            r@.len() == spec_grid_dirs(self.events@).len(),
            forall|i: int| 0 <= i < r@.len() ==> r@[i]@ == spec_grid_dirs(self.events@)[i],
    {
        let comps = standard_components();
        let mut r: Vec<String> = Vec::new();
        let ghost evs = self.events@;
        let mut i: usize = 0;
        proof {
            assert(evs.skip(0) =~= evs);
        }
        while i < self.events.len()
            invariant
                i <= evs.len(),
                evs == self.events@,
                comp_views(comps@) == spec_standard_components(),
                spec_grid_dirs(evs) == r@.map_values(|s: String| s@) + spec_grid_dirs(
                    evs.skip(i as int),
                ),
                r@.len() == spec_grid_dirs(evs).len() - spec_grid_dirs(evs.skip(i as int)).len(),
                forall|k: int| 0 <= k < r@.len() ==> r@[k]@ == spec_grid_dirs(evs)[k],
            decreases evs.len() - i,
        {
            let ghost prev = r@.map_values(|s: String| s@);
            proof {
                assert(evs.skip(i as int).skip(1) =~= evs.skip(i + 1));
            }
            match &self.events[i] {
                MdEvent::Html(h) => {
                    match first_match(h.as_str(), &comps) {
                        Some((attr, handler)) => match handler {
                            crate::render::CustomHandler::ImageGrid => {
                                r.push(attr);
                                proof {
                                    assert(r@.map_values(|s: String| s@) =~= prev + seq![
                                        spec_first_match(
                                            h@,
                                            spec_standard_components(),
                                        )->Some_0.0,
                                    ]);
                                }
                            },
                        },
                        None => {},
                    }
                },
                _ => {},
            }
            i = i + 1;
        }
        proof {
            assert(spec_grid_dirs(evs.skip(evs.len() as int)) =~= Seq::<Seq<char>>::empty());
            assert(spec_grid_dirs(evs) =~= r@.map_values(|s: String| s@));
        }
        r
    }
}

impl Content {
    /// Renders the document's event stream into its HTML body: the
    /// machine's completed fragments joined with newlines.  Fails with
    /// the first event of an unhandled category, leaving nothing but
    /// this document's render affected.
    pub fn generate_html(&self, ctx: &RenderContext) -> (r: Result<String, GenerateHtmlError>)
        ensures
            match r {
                Ok(html) => spec_run(
                    self.events@,
                    0,
                    init_rstate(),
                    self.assets is Some,
                    *ctx,
                ) matches Ok(st) && html@ == spec_join_frags(st.frags),
                Err(GenerateHtmlError::UnknownMarkdownEvent(e)) => spec_run(
                    self.events@,
                    0,
                    init_rstate(),
                    self.assets is Some,
                    *ctx,
                ) matches Err(idx) && 0 <= idx < self.events@.len() && spec_same_unknown(
                    e,
                    self.events@[idx],
                ),
            },
    {
        let ghost evs = self.events@;
        let ghost ha = self.assets is Some;
        let has_assets = match &self.assets {
            Some(_) => true,
            None => false,
        };
        let comps = standard_components();
        let mut rd = Renderer::new();
        let mut i: usize = 0;
        while i < self.events.len()
            invariant
                i <= evs.len(),
                evs == self.events@,
                ha == (self.assets is Some),
                has_assets == ha,
                comp_views(comps@) == spec_standard_components(),
                0 <= rd@.cell <= i,
                spec_run(evs, 0, init_rstate(), ha, *ctx) == spec_run(evs, i as int, rd@, ha, *ctx),
            decreases evs.len() - i,
        {
            let ghost pre = rd@;
            let ev = &self.events[i];
            let ok = rd.step_event(ev, has_assets, ctx, &comps);
            if !ok {
                let e = clone_unknown(ev);
                proof {
                    assert(spec_run(evs, i as int, pre, ha, *ctx) == Err::<RState, int>(i as int));
                }
                return Err(GenerateHtmlError::UnknownMarkdownEvent(e));
            }
            proof {
                assert(spec_step(pre, evs[i as int], ha, *ctx) matches Ok(st2) && st2 =~= rd@);
            }
            i = i + 1;
        }
        Ok(join_frags(&rd.frags))
    }
}

} // verus!
