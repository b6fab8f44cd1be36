//! The custom-tag mechanism of the rendering engine.
//!
//! A raw-HTML chunk is searched for the registered custom tags, in table
//! order, and the first match hands its attribute value to the matching
//! handler.  The one registered handler renders an image grid out of a
//! directory of a document's asset bundle; the directory listing itself
//! is I/O and is handed in by the caller, keyed by the attribute value.

use vstd::prelude::*;

use crate::strutil::{
    chars_le, chars_to_string, spec_rfind, spec_str_le, str_to_chars,
};

verus! {

/// What the HTML mini-parser finds: the value of attribute `attr` on
/// the first element named `tag` inside the chunk `html`; nothing when
/// the chunk does not parse, no element bears that name, or the first
/// element that does lacks the attribute.
pub uninterp spec fn tag_attr_of(html: Seq<char>, tag: Seq<char>, attr: Seq<char>) -> Option<
    Seq<char>,
>;

/// Relies on `tl::parse` and its node accessors `as_tag`, `name` and
/// `attributes` to find the first element with the given tag name and
/// read the given attribute off it; a pure function of the three texts.
#[verifier::external_body]
fn find_tag_attribute(html: &str, tag: &str, attr: &str) -> (r: Option<String>)
    ensures
        match r {
            Some(s) => tag_attr_of(html@, tag@, attr@) == Some(s@),
            None => tag_attr_of(html@, tag@, attr@) is None,
        },
{
    let dom = tl::parse(html, tl::ParserOptions::default()).ok()?;
    for node in dom.nodes() {
        if let Some(t) = node.as_tag() {
            if t.name().as_utf8_str() == tag {
                return match t.attributes().get(attr) {
                    Some(Some(v)) => Some(v.as_utf8_str().into_owned()),
                    _ => None,
                };
            }
        }
    }
    None
}

/// The closed set of custom-tag handlers.
#[derive(Clone, Copy, PartialEq, Eq, Structural, Debug)]
pub enum CustomHandler {
    /// Renders a grid of thumbnail links out of an asset directory.
    ImageGrid,
}

/// One registered custom tag: element name, attribute name, handler.
#[derive(Debug)]
pub struct CustomComponent {
    pub tag: String,
    pub attribute: String,
    pub handler: CustomHandler,
}

/// The mathematical shape of a registered custom tag.
pub ghost struct CompView {
    pub tag: Seq<char>,
    pub attribute: Seq<char>,
    pub handler: CustomHandler,
}

impl View for CustomComponent {
    type V = CompView;

    open spec fn view(&self) -> CompView {
        CompView { tag: self.tag@, attribute: self.attribute@, handler: self.handler }
    }
}

/// The shapes of a component list.
pub open spec fn comp_views(comps: Seq<CustomComponent>) -> Seq<CompView> {
    comps.map_values(|c: CustomComponent| c@)
}

/// The engine's registered custom tags: `<ImageGrid src="...">`.
pub open spec fn spec_standard_components() -> Seq<CompView> {
    seq![
        CompView { tag: "ImageGrid"@, attribute: "src"@, handler: CustomHandler::ImageGrid },
    ]
}

/// Builds the engine's component table.
pub fn standard_components() -> (r: Vec<CustomComponent>)
    ensures
        comp_views(r@) == spec_standard_components(),
{
    let mut r: Vec<CustomComponent> = Vec::new();
    r.push(
        CustomComponent {
            tag: String::from_str("ImageGrid"),
            attribute: String::from_str("src"),
            handler: CustomHandler::ImageGrid,
        },
    );
    proof {
        assert(comp_views(r@) =~= spec_standard_components());
    }
    r
}

/// The first component whose tag and attribute the chunk carries, in
/// table order: later components are not consulted once one matches.
pub open spec fn spec_first_match(html: Seq<char>, comps: Seq<CompView>) -> Option<
    (Seq<char>, CustomHandler),
>
    decreases comps.len(),
{
    if comps.len() == 0 {
        None
    } else {
        match tag_attr_of(html, comps[0].tag, comps[0].attribute) {
            Some(attr) => Some((attr, comps[0].handler)),
            None => spec_first_match(html, comps.skip(1)),
        }
    }
}

/// Resolves a raw-HTML chunk against a component table: the first
/// matching registered tag wins, and its attribute value is returned
/// with its handler.
pub fn first_match(html: &str, comps: &Vec<CustomComponent>) -> (r: Option<
    (String, CustomHandler),
>)
    ensures
        match r {
            Some((attr, h)) => spec_first_match(html@, comp_views(comps@)) matches Some(m) && m.0
                == attr@ && m.1 == h,
            None => spec_first_match(html@, comp_views(comps@)) is None,
        },
{
    let mut k: usize = 0;
    proof {
        assert(comp_views(comps@).skip(0) =~= comp_views(comps@));
    }
    while k < comps.len()
        invariant
            k <= comps@.len(),
            spec_first_match(html@, comp_views(comps@)) == spec_first_match(
                html@,
                comp_views(comps@).skip(k as int),
            ),
        decreases comps@.len() - k,
    {
        proof {
            assert(comp_views(comps@).skip(k as int).skip(1) =~= comp_views(comps@).skip(
                k + 1,
            ));
            assert(comp_views(comps@).skip(k as int)[0] == comps@[k as int]@);
        }
        let c = &comps[k];
        match find_tag_attribute(html, c.tag.as_str(), c.attribute.as_str()) {
            Some(attr) => {
                return Some((attr, c.handler));
            },
            None => {},
        }
        k = k + 1;
    }
    None
}

/// A text escaped for an HTML double-quoted attribute: `&`, `"`, `<` and
/// `>` become entities.
pub open spec fn spec_esc_char(c: char) -> Seq<char> {
    if c == '&' {
        "&amp;"@
    } else if c == '"' {
        "&quot;"@
    } else if c == '<' {
        "&lt;"@
    } else if c == '>' {
        "&gt;"@
    } else {
        seq![c]
    }
}

/// The whole text escaped character by character.
pub open spec fn spec_escape_attr(s: Seq<char>) -> Seq<char>
    decreases s.len(),
{
    if s.len() == 0 {
        Seq::empty()
    } else {
        spec_escape_attr(s.drop_last()) + spec_esc_char(s.last())
    }
}

/// Escapes a text for use inside a double-quoted HTML attribute.
pub fn escape_attr(s: &str) -> (r: String)
    ensures
        r@ == spec_escape_attr(s@),
{
    let v = str_to_chars(s);
    let mut out = String::new();
    let mut i: usize = 0;
    while i < v.len()
        invariant
            i <= v@.len(),
            v@ == s@,
            out@ == spec_escape_attr(s@.take(i as int)),
        decreases v@.len() - i,
    {
        let c = v[i];
        if c == '&' {
            out.append("&amp;");
        } else if c == '"' {
            out.append("&quot;");
        } else if c == '<' {
            out.append("&lt;");
        } else if c == '>' {
            out.append("&gt;");
        } else {
            crate::strutil::push_char(&mut out, c);
            proof {
                assert(out@ =~= spec_escape_attr(s@.take(i as int)) + seq![s@[i as int]]);
            }
        }
        proof {
            assert(s@.take(i + 1).drop_last() =~= s@.take(i as int));
            assert(s@.take(i + 1).last() == s@[i as int]);
        }
        i = i + 1;
    }
    proof {
        assert(s@.take(s@.len() as int) =~= s@);
    }
    out
}

/// The file name of a `/`-separated path: everything after the last
/// slash, or the whole path when it has none.
pub open spec fn spec_file_name(p: Seq<char>) -> Seq<char> {
    let k = spec_rfind(p, '/');
    if k == -1 {
        p
    } else {
        p.skip(k + 1)
    }
}

/// Extracts the file name of a `/`-separated path.
pub fn file_name_of(v: &Vec<char>) -> (r: Vec<char>)
    ensures
        r@ == spec_file_name(v@),
{
    let n = v.len();
    match crate::strutil::rfind_char(v, '/') {
        Some(k) => {
            proof {
                assert(v@.subrange(k + 1, v@.len() as int) =~= v@.skip(k + 1));
            }
            crate::strutil::sub_chars(v, k + 1, n)
        },
        None => {
            proof {
                assert(v@.subrange(0, v@.len() as int) =~= v@);
            }
            crate::strutil::sub_chars(v, 0, v.len())
        },
    }
}

/// The ascending path comparison as a single order value.
pub open spec fn spec_path_order() -> spec_fn(Seq<char>, Seq<char>) -> bool {
    |a: Seq<char>, b: Seq<char>| spec_str_le(a, b)
}

/// Stable ascending insertion by path order.
pub open spec fn spec_insert_str(sorted: Seq<Seq<char>>, x: Seq<char>) -> Seq<Seq<char>> {
    crate::sorting::spec_insert_by(sorted, x, spec_path_order())
}

/// The stable ascending sort of a path list.
pub open spec fn spec_sort_strs(s: Seq<Seq<char>>) -> Seq<Seq<char>> {
    crate::sorting::spec_sort_by(s, spec_path_order())
}

/// Whether a path list is in ascending order.
pub open spec fn spec_sorted_asc(s: Seq<Seq<char>>) -> bool {
    crate::sorting::spec_sorted_by(s, spec_path_order())
}

/// The path order is total: of two paths, one is no greater.
proof fn lemma_str_le_total(a: Seq<char>, b: Seq<char>)
    ensures
        spec_str_le(a, b) || spec_str_le(b, a),
    decreases a.len(),
{
    if a.len() > 0 && b.len() > 0 && (a[0] as u32) == (b[0] as u32) {
        lemma_str_le_total(a.skip(1), b.skip(1));
    }
}

/// The path order is transitive.
proof fn lemma_str_le_trans(a: Seq<char>, b: Seq<char>, c: Seq<char>)
    requires
        spec_str_le(a, b),
        spec_str_le(b, c),
    ensures
        spec_str_le(a, c),
    decreases a.len(),
{
    if a.len() > 0 && c.len() > 0 {
        if (a[0] as u32) == (c[0] as u32) && (a[0] as u32) == (b[0] as u32) {
            lemma_str_le_trans(a.skip(1), b.skip(1), c.skip(1));
        }
    }
}

/// The path order is total and transitive, in the form the generic
/// sorting laws ask for.
proof fn lemma_path_order_laws()
    ensures
        forall|a: Seq<char>, b: Seq<char>|
            #![trigger spec_path_order()(a, b)]
            spec_path_order()(a, b) || spec_path_order()(b, a),
        forall|a: Seq<char>, b: Seq<char>, c: Seq<char>|
            #![trigger spec_path_order()(a, b), spec_path_order()(b, c)]
            spec_path_order()(a, b) && spec_path_order()(b, c) ==> spec_path_order()(a, c),
{
    assert forall|a: Seq<char>, b: Seq<char>|
        #![trigger spec_path_order()(a, b)]
        spec_path_order()(a, b) || spec_path_order()(b, a) by {
        lemma_str_le_total(a, b);
    }
    assert forall|a: Seq<char>, b: Seq<char>, c: Seq<char>|
        #![trigger spec_path_order()(a, b), spec_path_order()(b, c)]
        spec_path_order()(a, b) && spec_path_order()(b, c) implies spec_path_order()(a, c) by {
        if spec_str_le(a, b) && spec_str_le(b, c) {
            lemma_str_le_trans(a, b, c);
        }
    }
}

/// The sorted path list is in ascending order and holds exactly the
/// paths it was given: the image grid shows every listed image once, by
/// relative path.
pub proof fn lemma_sort_paths_props(s: Seq<Seq<char>>)
    ensures
        spec_sorted_asc(spec_sort_strs(s)),
        spec_sort_strs(s).to_multiset() == s.to_multiset(),
        spec_sort_strs(s).len() == s.len(),
{
    lemma_path_order_laws();
    crate::sorting::lemma_sort_by_props(s, spec_path_order());
}
/// Sorts a list of relative paths, ascending and stable.
pub fn sort_paths(items: Vec<String>) -> (r: Vec<String>)
    ensures
        r@.map_values(|s: String| s@) == spec_sort_strs(items@.map_values(|s: String| s@)),
{
    let ghost orig = items@.map_values(|s: String| s@);
    let total = items.len();
    proof {
        assert(orig.len() == total);
        assert(orig.take(0) =~= Seq::<Seq<char>>::empty());
    }
    let mut src = items;
    let mut out: Vec<String> = Vec::new();
    let mut i: usize = 0;
    while src.len() > 0
        invariant
            orig.len() <= usize::MAX,
            i + src@.len() == orig.len(),
            forall|k: int|
                0 <= k < src@.len() ==> (#[trigger] src@[k])@ == orig[i + k],
            out@.map_values(|s: String| s@) == spec_sort_strs(orig.take(i as int)),
        decreases src@.len(),
    {
        let ghost out0 = out@.map_values(|s: String| s@);
        let x = src.remove(0);
        proof {
            assert(x@ == orig[i as int]);
            assert(forall|k: int|
                0 <= k < src@.len() ==> (#[trigger] src@[k])@ == orig[i + 1 + k]);
        }
        let xc = str_to_chars(x.as_str());
        let mut p: usize = 0;
        while p < out.len() && chars_le(&str_to_chars(out[p].as_str()), &xc)
            invariant
                p <= out@.len(),
                out@.map_values(|s: String| s@) == out0,
                xc@ == x@,
                forall|k: int| 0 <= k < p ==> spec_str_le(#[trigger] out0[k], x@),
            decreases out@.len() - p,
        {
            proof {
                assert(out0[p as int] == (out@[p as int])@);
            }
            p = p + 1;
        }
        proof {
            assert(p < out@.len() ==> out0[p as int] == (out@[p as int])@);
        }
        out.insert(p, x);
        proof {
            assert(forall|k: int| 0 <= k < p ==> spec_path_order()(#[trigger] out0[k], x@));
            crate::sorting::lemma_insert_by_at(out0, x@, spec_path_order(), p as int);
            assert(out@.map_values(|s: String| s@) =~= out0.take(p as int) + seq![x@] + out0.skip(
                p as int,
            ));
            assert(orig.take(i + 1).drop_last() =~= orig.take(i as int));
            assert(orig.take(i + 1).last() == orig[i as int]);
        }
        i = i + 1;
    }
    proof {
        assert(orig.take(orig.len() as int) =~= orig);
    }
    out
}

/// One thumbnail link of the grid: anchor and image point at the path,
/// the alt text is its file name, all escaped for attribute position.
pub open spec fn spec_grid_item(path: Seq<char>) -> Seq<char> {
    "<a class=\"w-full h-full border-2 border-dashed border-yellow-600\" href=\""@
        + spec_escape_attr(path)
        + "\"><img loading=\"lazy\" class=\"h-auto max-w-32\" src=\""@ + spec_escape_attr(path)
        + "\" alt=\""@ + spec_escape_attr(spec_file_name(path)) + "\" /></a>"@
}

/// The grid items, in the order given.
pub open spec fn spec_grid_items(paths: Seq<Seq<char>>) -> Seq<char>
    decreases paths.len(),
{
    if paths.len() == 0 {
        Seq::empty()
    } else {
        spec_grid_items(paths.drop_last()) + spec_grid_item(paths.last())
    }
}

/// The whole grid fragment: a two-column container of thumbnail links,
/// the images sorted by relative path.
pub open spec fn spec_image_grid(paths: Seq<Seq<char>>) -> Seq<char> {
    "<div class=\"my-4 grid grid-cols-2 gap-5\">"@ + spec_grid_items(spec_sort_strs(paths))
        + "</div>"@
}

fn push_grid_item(out: &mut String, path: &str)
    ensures
        final(out)@ == old(out)@ + spec_grid_item(path@),
{
    out.append("<a class=\"w-full h-full border-2 border-dashed border-yellow-600\" href=\"");
    let esc = escape_attr(path);
    out.append(esc.as_str());
    out.append("\"><img loading=\"lazy\" class=\"h-auto max-w-32\" src=\"");
    out.append(esc.as_str());
    out.append("\" alt=\"");
    let chars = str_to_chars(path);
    let fname = file_name_of(&chars);
    let fname_str = chars_to_string(&fname);
    let esc_name = escape_attr(fname_str.as_str());
    out.append(esc_name.as_str());
    out.append("\" /></a>");
    proof {
        assert(final(out)@ =~= old(out)@ + spec_grid_item(path@));
    }
}

/// Renders the image grid for a list of relative paths.
pub fn build_image_grid(images: Vec<String>) -> (r: String)
    ensures
        r@ == spec_image_grid(images@.map_values(|s: String| s@)),
{
    let sorted = sort_paths(images);
    let ghost sviews = sorted@.map_values(|s: String| s@);
    let mut out = String::from_str("<div class=\"my-4 grid grid-cols-2 gap-5\">");
    let mut i: usize = 0;
    while i < sorted.len()
        invariant
            i <= sorted@.len(),
            sviews == sorted@.map_values(|s: String| s@),
            out@ == "<div class=\"my-4 grid grid-cols-2 gap-5\">"@ + spec_grid_items(
                sviews.take(i as int),
            ),
        decreases sorted@.len() - i,
    {
        push_grid_item(&mut out, sorted[i].as_str());
        proof {
            assert(sviews.take(i + 1).drop_last() =~= sviews.take(i as int));
            assert(sviews.take(i + 1).last() == (sorted@[i as int])@);
        }
        i = i + 1;
    }
    out.append("</div>");
    proof {
        assert(sviews.take(sviews.len() as int) =~= sviews);
    }
    out
}

/// The image listing of one asset directory, keyed by the attribute
/// value that names it.
#[derive(Debug)]
pub struct ImageGridSource {
    /// The attribute value: a directory relative to the asset bundle.
    pub directory: String,
    /// The image files under it, as paths relative to the bundle.
    pub images: Vec<String>,
}

/// What the caller hands the engine in place of the file system: one
/// listing per image-grid directory the document names.
#[derive(Debug)]
pub struct RenderContext {
    pub grids: Vec<ImageGridSource>,
}

/// The listing registered for `key`: the first entry with that
/// directory, or nothing.
pub open spec fn spec_grid_lookup(grids: Seq<ImageGridSource>, key: Seq<char>) -> Seq<Seq<char>>
    decreases grids.len(),
{
    if grids.len() == 0 {
        Seq::empty()
    } else if grids[0].directory@ == key {
        grids[0].images@.map_values(|s: String| s@)
    } else {
        spec_grid_lookup(grids.skip(1), key)
    }
}

/// Looks a directory's listing up, copying it out of the context.
fn grid_lookup(ctx: &RenderContext, key: &str) -> (r: Vec<String>)
    ensures
        r@.map_values(|s: String| s@) == spec_grid_lookup(ctx.grids@, key@),
{
    let kc = str_to_chars(key);
    let mut k: usize = 0;
    proof {
        assert(ctx.grids@.skip(0) =~= ctx.grids@);
    }
    while k < ctx.grids.len()
        invariant
            k <= ctx.grids@.len(),
            kc@ == key@,
            spec_grid_lookup(ctx.grids@, key@) == spec_grid_lookup(
                ctx.grids@.skip(k as int),
                key@,
            ),
        decreases ctx.grids@.len() - k,
    {
        proof {
            assert(ctx.grids@.skip(k as int)[0] == ctx.grids@[k as int]);
            assert(ctx.grids@.skip(k as int).skip(1) =~= ctx.grids@.skip(k + 1));
        }
        let dc = str_to_chars(ctx.grids[k].directory.as_str());
        if crate::strutil::chars_eq(&dc, &kc) {
            let src = &ctx.grids[k].images;
            let mut copy: Vec<String> = Vec::new();
            let mut j: usize = 0;
            while j < src.len()
                invariant
                    j <= src@.len(),
                    copy@.len() == j,
                    forall|m: int| 0 <= m < j ==> (#[trigger] copy@[m])@ == (src@[m])@,
                decreases src@.len() - j,
            {
                copy.push(src[j].clone());
                j = j + 1;
            }
            proof {
                assert(copy@.map_values(|s: String| s@) =~= src@.map_values(|s: String| s@));
            }
            return copy;
        }
        k = k + 1;
    }
    proof {
        assert(spec_grid_lookup(ctx.grids@.skip(ctx.grids@.len() as int), key@) =~= Seq::<
            Seq<char>,
        >::empty());
    }
    Vec::new()
}

/// What a handler renders for an attribute value.  The image grid is
/// empty for a document without an asset bundle; otherwise it renders
/// the registered listing for the named directory.
pub open spec fn spec_run_handler(
    h: CustomHandler,
    attr: Seq<char>,
    has_assets: bool,
    ctx: RenderContext,
) -> Seq<char> {
    match h {
        CustomHandler::ImageGrid => if !has_assets {
            Seq::empty()
        } else {
            spec_image_grid(spec_grid_lookup(ctx.grids@, attr))
        },
    }
}

/// Runs a handler on an attribute value.
pub fn run_handler(h: CustomHandler, attr: &str, has_assets: bool, ctx: &RenderContext) -> (r:
    String)
    ensures
        r@ == spec_run_handler(h, attr@, has_assets, *ctx),
{
    match h {
        CustomHandler::ImageGrid => {
            if !has_assets {
                String::new()
            } else {
                let images = grid_lookup(ctx, attr);
                build_image_grid(images)
            }
        },
    }
}

} // verus!
