//! The rich-text builder: walks the parsed document tree, consults the
//! style parser and the asset map, and assembles the structured
//! [`ArticleContent`] document.
//!
//! The first `<p>` element's first child supplies the headline; every
//! further `<p>` element becomes one paragraph; each `<span>` descendant of
//! a paragraph becomes one span; a span's direct children become its text,
//! anchor and image content items, other children being skipped.

use crate::assets::AssetMap;
use crate::assets::StoredImageV;
use crate::assets::public_src_of;
use crate::content::ArticleContent;
use crate::content::ArticleContentV;
use crate::content::ArticleParagraph;
use crate::content::ArticleParagraphV;
use crate::content::ArticleSpan;
use crate::content::ArticleSpanV;
use crate::content::SpanContent;
use crate::content::SpanContentV;
use crate::error::ImportError;
use crate::html::HtmlNode;
use crate::html::NodeV;
use crate::html::attr_of;
use crate::html::flat_text;
use crate::html::flat_text_all;
use crate::html::node_view;
use crate::html::view_nodes;
use crate::strutil::str_eq;
use crate::style::style_map_of;
use vstd::prelude::*;

verus! {

/// The attributes of a node; a text run has none.
pub open spec fn attrs_of(n: NodeV) -> Seq<(Seq<char>, Seq<char>)> {
    match n {
        NodeV::Element { attrs, .. } => attrs,
        NodeV::Text { .. } => Seq::empty(),
    }
}

/// The children of a node; a text run has none.
pub open spec fn children_of(n: NodeV) -> Seq<NodeV> {
    match n {
        NodeV::Element { children, .. } => children,
        NodeV::Text { .. } => Seq::empty(),
    }
}

/// All elements named `name` among `nodes` and their descendants, in
/// document (pre-)order.
pub open spec fn collect_named(nodes: Seq<NodeV>, name: Seq<char>) -> Seq<NodeV>
    decreases nodes,
{
    if nodes.len() == 0 {
        Seq::empty()
    } else {
        collect_in_node(nodes[0], name) + collect_named(nodes.drop_first(), name)
    }
}

/// All elements named `name` in the subtree rooted at `n`, in pre-order.
pub open spec fn collect_in_node(n: NodeV, name: Seq<char>) -> Seq<NodeV>
    decreases n,
{
    match n {
        NodeV::Text { .. } => Seq::empty(),
        NodeV::Element { name: nm, children, .. } => (if nm == name {
            seq![n]
        } else {
            Seq::empty()
        }) + collect_named(children, name),
    }
}

/// The value a style property takes on an element: the entry of its parsed
/// `style` attribute, or `default` when the attribute or the entry is
/// missing.
pub open spec fn style_prop(
    attrs: Seq<(Seq<char>, Seq<char>)>,
    key: Seq<char>,
    default: Seq<char>,
) -> Seq<char> {
    let m = match attr_of(attrs, "style"@) {
        Some(sv) => style_map_of(sv),
        None => Map::empty(),
    };
    if m.contains_key(key) {
        m[key]
    } else {
        default
    }
}

/// An attribute's value, or empty when absent.
pub open spec fn attr_or_empty(attrs: Seq<(Seq<char>, Seq<char>)>, name: Seq<char>) -> Seq<char> {
    match attr_of(attrs, name) {
        Some(v) => v,
        None => Seq::empty(),
    }
}

/// The content item an `<img>` span child becomes: its `src` is rewritten
/// to the stored image's public URL when the asset map knows the original
/// path, and left as it stands otherwise.
pub open spec fn image_content_of(
    attrs: Seq<(Seq<char>, Seq<char>)>,
    amap: Map<Seq<char>, StoredImageV>,
) -> SpanContentV {
    let src0 = attr_or_empty(attrs, "src"@);
    let src = if amap.contains_key(src0) {
        public_src_of(amap[src0])
    } else {
        src0
    };
    SpanContentV::Image {
        src,
        width: style_prop(attrs, "width"@, Seq::empty()),
        height: style_prop(attrs, "height"@, Seq::empty()),
        alt: attr_or_empty(attrs, "alt"@),
    }
}

/// The content items one direct child of a span contributes: a text run, an
/// anchor, an image, or nothing for any other child.
pub open spec fn content_of(n: NodeV, amap: Map<Seq<char>, StoredImageV>) -> Seq<SpanContentV> {
    match n {
        NodeV::Text { text } => seq![SpanContentV::Text { content: text }],
        NodeV::Element { name, attrs, children } => {
            if name == "a"@ {
                seq![
                    SpanContentV::Anchor {
                        href: attr_or_empty(attrs, "href"@),
                        content: flat_text_all(children),
                    },
                ]
            } else if name == "img"@ {
                seq![image_content_of(attrs, amap)]
            } else {
                Seq::empty()
            }
        },
    }
}

/// The content items of a span: its direct children's items in order.
pub open spec fn span_contents(
    children: Seq<NodeV>,
    amap: Map<Seq<char>, StoredImageV>,
) -> Seq<SpanContentV>
    decreases children,
{
    if children.len() == 0 {
        Seq::empty()
    } else {
        content_of(children[0], amap) + span_contents(children.drop_first(), amap)
    }
}

/// The span a `<span>` element becomes.
pub open spec fn build_span(n: NodeV, amap: Map<Seq<char>, StoredImageV>) -> ArticleSpanV {
    ArticleSpanV {
        content: span_contents(children_of(n), amap),
        font_style: style_prop(attrs_of(n), "font-style"@, "normal"@),
        text_decoration: style_prop(attrs_of(n), "text-decoration"@, "none"@),
        color: style_prop(attrs_of(n), "color"@, "#000000"@),
        font_weight: style_prop(attrs_of(n), "font-weight"@, "400"@),
    }
}

/// The paragraph a `<p>` element becomes.
pub open spec fn build_paragraph(n: NodeV, amap: Map<Seq<char>, StoredImageV>) -> ArticleParagraphV {
    ArticleParagraphV {
        text_alignment: style_prop(attrs_of(n), "text-align"@, "left"@),
        text_indent: style_prop(attrs_of(n), "text-indent"@, "0"@),
        margin_left: style_prop(attrs_of(n), "margin-left"@, "0"@),
        margin_right: style_prop(attrs_of(n), "margin-right"@, "0"@),
        spans: collect_named(children_of(n), "span"@).map_values(
            |s: NodeV| build_span(s, amap),
        ),
    }
}

/// The document a parsed tree becomes: the first `<p>`'s first child gives
/// the headline, every further `<p>` one paragraph. Fails exactly when the
/// tree has no `<p>` element or the first one has no children.
pub open spec fn build_content(nodes: Seq<NodeV>, amap: Map<Seq<char>, StoredImageV>) -> Result<
    ArticleContentV,
    ImportError,
> {
    let ps = collect_named(nodes, "p"@);
    if ps.len() == 0 {
        Err(ImportError::Format)
    } else if children_of(ps[0]).len() == 0 {
        Err(ImportError::Format)
    } else {
        Ok(
            ArticleContentV {
                headline: flat_text(children_of(ps[0])[0]),
                paragraphs: ps.drop_first().map_values(|p: NodeV| build_paragraph(p, amap)),
            },
        )
    }
}

/// Order preservation: a tree holding N paragraph elements builds to
/// exactly N - 1 paragraphs — the first element is consumed as the
/// headline — in document order, the i-th output paragraph coming from the
/// (i+1)-th paragraph element with its spans built from that element's
/// span descendants in document order.
pub proof fn lemma_order_preservation(nodes: Seq<NodeV>, amap: Map<Seq<char>, StoredImageV>)
    requires
        build_content(nodes, amap) is Ok,
    ensures
        ({
            let ps = collect_named(nodes, "p"@);
            let c = build_content(nodes, amap)->Ok_0;
            &&& ps.len() >= 1
            &&& c.paragraphs.len() == ps.len() - 1
            &&& forall|i: int|
                0 <= i < c.paragraphs.len() ==> #[trigger] c.paragraphs[i] == build_paragraph(
                    ps[i + 1],
                    amap,
                )
            &&& forall|i: int|
                0 <= i < c.paragraphs.len() ==> (#[trigger] c.paragraphs[i]).spans
                    == collect_named(children_of(ps[i + 1]), "span"@).map_values(
                    |s: NodeV| build_span(s, amap),
                )
        }),
{
    let ps = collect_named(nodes, "p"@);
    let c = build_content(nodes, amap)->Ok_0;
    assert forall|i: int| 0 <= i < c.paragraphs.len() implies #[trigger] c.paragraphs[i]
        == build_paragraph(ps[i + 1], amap) by {
        assert(c.paragraphs[i] == ps.drop_first().map_values(
            |p: NodeV| build_paragraph(p, amap),
        )[i]);
        assert(ps.drop_first()[i] == ps[i + 1]);
    }
}

/// Style defaulting: a span element lacking a `style` attribute entirely
/// builds with the documented defaults for every style property.
pub proof fn lemma_style_defaulting(n: NodeV, amap: Map<Seq<char>, StoredImageV>)
    requires
        attr_of(attrs_of(n), "style"@) is None,
    ensures
        build_span(n, amap).font_style == "normal"@,
        build_span(n, amap).text_decoration == "none"@,
        build_span(n, amap).color == "#000000"@,
        build_span(n, amap).font_weight == "400"@,
{
}

/// A missing first paragraph is a hard failure: a tree without any
/// paragraph element never builds a document — the import fails rather
/// than defaulting to an empty one.
pub proof fn lemma_missing_first_paragraph(nodes: Seq<NodeV>, amap: Map<Seq<char>, StoredImageV>)
    requires
        collect_named(nodes, "p"@).len() == 0,
    ensures
        build_content(nodes, amap) == Err::<ArticleContentV, ImportError>(ImportError::Format),
{
}

/// The ghost views of a sequence of borrowed nodes.
pub open spec fn refs_view(rs: Seq<&HtmlNode>) -> Seq<NodeV> {
    rs.map_values(|r: &HtmlNode| node_view(*r))
}

pub proof fn lemma_flat_text_all_concat(a: Seq<NodeV>, b: Seq<NodeV>)
    ensures
        flat_text_all(a + b) == flat_text_all(a) + flat_text_all(b),
    decreases a,
{
    if a.len() == 0 {
        assert(a + b =~= b);
        assert(flat_text_all(a) + flat_text_all(b) =~= flat_text_all(b));
    } else {
        assert((a + b)[0] == a[0]);
        assert((a + b).drop_first() =~= a.drop_first() + b);
        lemma_flat_text_all_concat(a.drop_first(), b);
        assert(flat_text_all(a + b) =~= flat_text_all(a) + flat_text_all(b));
    }
}

pub proof fn lemma_collect_named_concat(a: Seq<NodeV>, b: Seq<NodeV>, name: Seq<char>)
    ensures
        collect_named(a + b, name) == collect_named(a, name) + collect_named(b, name),
    decreases a,
{
    if a.len() == 0 {
        assert(a + b =~= b);
        assert(collect_named(a, name) + collect_named(b, name) =~= collect_named(b, name));
    } else {
        assert((a + b)[0] == a[0]);
        assert((a + b).drop_first() =~= a.drop_first() + b);
        lemma_collect_named_concat(a.drop_first(), b, name);
        assert(collect_named(a + b, name) =~= collect_named(a, name) + collect_named(b, name));
    }
}

pub proof fn lemma_span_contents_concat(
    a: Seq<NodeV>,
    b: Seq<NodeV>,
    amap: Map<Seq<char>, StoredImageV>,
)
    ensures
        span_contents(a + b, amap) == span_contents(a, amap) + span_contents(b, amap),
    decreases a,
{
    if a.len() == 0 {
        assert(a + b =~= b);
        assert(span_contents(a, amap) + span_contents(b, amap) =~= span_contents(b, amap));
    } else {
        assert((a + b)[0] == a[0]);
        assert((a + b).drop_first() =~= a.drop_first() + b);
        lemma_span_contents_concat(a.drop_first(), b, amap);
        assert(span_contents(a + b, amap) =~= span_contents(a, amap) + span_contents(b, amap));
    }
}

/// The flattened inner text of a node.
pub fn flat_text_exec(n: &HtmlNode) -> (r: String)
    ensures
        r@ == flat_text(node_view(*n)),
    decreases *n, 0int,
{
    match n {
        HtmlNode::Text { text } => text.clone(),
        HtmlNode::Element { children, .. } => flat_text_nodes_exec(children),
    }
}

/// The flattened inner text of a node list, in order.
pub fn flat_text_nodes_exec(ns: &Vec<HtmlNode>) -> (r: String)
    ensures
        r@ == flat_text_all(view_nodes(ns@)),
    decreases ns@, 1int,
{
    let mut acc = String::new();
    let len = ns.len();
    let mut i: usize = 0;
    proof {
        assert(view_nodes(ns@.take(0)) =~= view_nodes(Seq::<HtmlNode>::empty()));
    }
    while i < len
        invariant
            i <= len == ns@.len(),
            acc@ == flat_text_all(view_nodes(ns@.take(i as int))),
        decreases len - i,
    {
        let piece = flat_text_exec(&ns[i]);
        proof {
            crate::html::lemma_view_nodes_push(ns@.take(i as int), ns@[i as int]);
            assert(ns@.take(i + 1) =~= ns@.take(i as int).push(ns@[i as int]));
            let vn = view_nodes(ns@.take(i as int));
            let nv = node_view(ns@[i as int]);
            assert(vn.push(nv) =~= vn + seq![nv]);
            lemma_flat_text_all_concat(vn, seq![nv]);
            assert(seq![nv].drop_first() =~= Seq::<NodeV>::empty());
            reveal_with_fuel(flat_text_all, 2);
            assert(flat_text_all(seq![nv]) =~= flat_text(nv));
        }
        acc.append(piece.as_str());
        i += 1;
    }
    proof {
        assert(ns@.take(len as int) =~= ns@);
    }
    acc
}

/// Collects the elements named `name` in the subtrees of `nodes`, in
/// pre-order, onto `out`.
fn collect_in_nodes_exec<'a>(nodes: &'a Vec<HtmlNode>, name: &str, out: &mut Vec<&'a HtmlNode>)
    ensures
        refs_view(final(out)@) == refs_view(old(out)@) + collect_named(view_nodes(nodes@), name@),
    decreases nodes@, 1int,
{
    let len = nodes.len();
    let mut i: usize = 0;
    proof {
        assert(view_nodes(nodes@.take(0)) =~= view_nodes(Seq::<HtmlNode>::empty()));
        assert(refs_view(out@) + collect_named(view_nodes(nodes@.take(0)), name@) =~= refs_view(
            out@,
        ));
    }
    while i < len
        invariant
            i <= len == nodes@.len(),
            refs_view(out@) == refs_view(old(out)@) + collect_named(
                view_nodes(nodes@.take(i as int)),
                name@,
            ),
        decreases len - i,
    {
        let ghost prev = out@;
        collect_in_node_exec(&nodes[i], name, out);
        proof {
            crate::html::lemma_view_nodes_push(nodes@.take(i as int), nodes@[i as int]);
            assert(nodes@.take(i + 1) =~= nodes@.take(i as int).push(nodes@[i as int]));
            let vn = view_nodes(nodes@.take(i as int));
            let nv = node_view(nodes@[i as int]);
            assert(vn.push(nv) =~= vn + seq![nv]);
            lemma_collect_named_concat(vn, seq![nv], name@);
            assert(seq![nv].drop_first() =~= Seq::<NodeV>::empty());
            reveal_with_fuel(collect_named, 2);
            assert(collect_named(seq![nv], name@) =~= collect_in_node(nv, name@) + Seq::<
                NodeV,
            >::empty());
            assert(collect_named(seq![nv], name@) =~= collect_in_node(nv, name@));
            assert(refs_view(out@) =~= refs_view(old(out)@) + collect_named(
                view_nodes(nodes@.take(i + 1)),
                name@,
            ));
        }
        i += 1;
    }
    proof {
        assert(nodes@.take(len as int) =~= nodes@);
    }
}

/// Collects the elements named `name` in the subtree of `n`, in pre-order,
/// onto `out`.
fn collect_in_node_exec<'a>(n: &'a HtmlNode, name: &str, out: &mut Vec<&'a HtmlNode>)
    ensures
        refs_view(final(out)@) == refs_view(old(out)@) + collect_in_node(node_view(*n), name@),
    decreases *n, 0int,
{
    match n {
        HtmlNode::Text { .. } => {
            proof {
                assert(refs_view(out@) + collect_in_node(node_view(*n), name@) =~= refs_view(
                    out@,
                ));
            }
        },
        HtmlNode::Element { name: nm, children, .. } => {
            let ghost prev = out@;
            let matched = str_eq(nm.as_str(), name);
            if matched {
                out.push(n);
                proof {
                    assert(refs_view(out@) =~= refs_view(prev).push(node_view(*n)));
                }
            }
            let ghost mid = out@;
            collect_in_nodes_exec(children, name, out);
            proof {
                if nm@ == name@ {
                    assert(refs_view(mid) =~= refs_view(prev) + seq![node_view(*n)]);
                } else {
                    assert(refs_view(mid) =~= refs_view(prev) + Seq::<NodeV>::empty());
                }
                assert(refs_view(out@) =~= refs_view(prev) + collect_in_node(
                    node_view(*n),
                    name@,
                ));
            }
        },
    }
}

/// The first attribute with the given name, if any.
fn find_attr<'a>(attrs: &'a Vec<(String, String)>, name: &str) -> (r: Option<&'a String>)
    ensures
        match r {
            Some(v) => attr_of(crate::html::attrs_view(attrs@), name@) == Some(v@),
            None => attr_of(crate::html::attrs_view(attrs@), name@) is None,
        },
{
    let ghost m = crate::html::attrs_view(attrs@);
    let len = attrs.len();
    let mut i: usize = 0;
    proof {
        assert(m.skip(0) =~= m);
    }
    while i < len
        invariant
            i <= len == attrs@.len(),
            m == crate::html::attrs_view(attrs@),
            attr_of(m, name@) == attr_of(m.skip(i as int), name@),
        decreases len - i,
    {
        proof {
            assert(m.skip(i as int)[0] == m[i as int]);
            assert(m.skip(i as int).drop_first() =~= m.skip(i + 1));
        }
        if str_eq(attrs[i].0.as_str(), name) {
            return Some(&attrs[i].1);
        }
        i += 1;
    }
    proof {
        assert(m.skip(len as int) =~= Seq::<(Seq<char>, Seq<char>)>::empty());
    }
    None
}

/// The parsed `style` attribute of an element, or an empty mapping.
fn element_style(attrs: &Vec<(String, String)>) -> (r: crate::style::StyleMap)
    ensures
        r@ == match attr_of(crate::html::attrs_view(attrs@), "style"@) {
            Some(sv) => style_map_of(sv),
            None => Map::<Seq<char>, Seq<char>>::empty(),
        },
{
    match find_attr(attrs, "style") {
        Some(s) => crate::style::parse_style(s.as_str()),
        None => crate::style::StyleMap::empty(),
    }
}

/// An attribute's value, or an empty string when absent.
fn attr_or_empty_exec(attrs: &Vec<(String, String)>, name: &str) -> (r: String)
    ensures
        r@ == attr_or_empty(crate::html::attrs_view(attrs@), name@),
{
    match find_attr(attrs, name) {
        Some(s) => s.clone(),
        None => String::new(),
    }
}

/// The content item one direct child of a span contributes, if any.
fn content_of_exec(n: &HtmlNode, assets: &AssetMap) -> (r: Option<SpanContent>)
    ensures
        match r {
            Some(c) => content_of(node_view(*n), assets@) == seq![c@],
            None => content_of(node_view(*n), assets@) == Seq::<SpanContentV>::empty(),
        },
{
    match n {
        HtmlNode::Text { text } => {
            let c = SpanContent::text { content: text.clone() };
            proof {
                assert(seq![c@] =~= content_of(node_view(*n), assets@));
            }
            Some(c)
        },
        HtmlNode::Element { name, attrs, children } => {
            if str_eq(name.as_str(), "a") {
                let href = attr_or_empty_exec(attrs, "href");
                let content = flat_text_nodes_exec(children);
                Some(SpanContent::anchor { href, content })
            } else if str_eq(name.as_str(), "img") {
                let src0 = attr_or_empty_exec(attrs, "src");
                let src = match assets.get(src0.as_str()) {
                    Some(stored) => stored.public_src(),
                    None => src0,
                };
                let style = element_style(attrs);
                let width = style.get_or("width", "");
                let height = style.get_or("height", "");
                let alt = attr_or_empty_exec(attrs, "alt");
                let c = SpanContent::image { src, width, height, alt };
                proof {
                    reveal_strlit("");
                    assert(""@ =~= Seq::<char>::empty());
                    assert(seq![c@] =~= content_of(node_view(*n), assets@));
                }
                Some(c)
            } else {
                None
            }
        },
    }
}

/// The span a `<span>` element becomes.
fn build_span_exec(n: &HtmlNode, assets: &AssetMap) -> (r: ArticleSpan)
    ensures
        r@ == build_span(node_view(*n), assets@),
{
    match n {
        HtmlNode::Element { attrs, children, .. } => {
            let style = element_style(attrs);
            let mut content: Vec<SpanContent> = Vec::new();
            let len = children.len();
            let mut i: usize = 0;
            proof {
                assert(view_nodes(children@.take(0)) =~= view_nodes(Seq::<HtmlNode>::empty()));
                assert(content@.map_values(|c: SpanContent| c@) =~= span_contents(
                    view_nodes(children@.take(0)),
                    assets@,
                ));
            }
            while i < len
                invariant
                    i <= len == children@.len(),
                    content@.map_values(|c: SpanContent| c@) == span_contents(
                        view_nodes(children@.take(i as int)),
                        assets@,
                    ),
                decreases len - i,
            {
                let ghost prev = content@;
                let item = content_of_exec(&children[i], assets);
                proof {
                    crate::html::lemma_view_nodes_push(children@.take(i as int), children@[i as int]);
                    assert(children@.take(i + 1) =~= children@.take(i as int).push(
                        children@[i as int],
                    ));
                    let vn = view_nodes(children@.take(i as int));
                    let nv = node_view(children@[i as int]);
                    assert(vn.push(nv) =~= vn + seq![nv]);
                    lemma_span_contents_concat(vn, seq![nv], assets@);
                    assert(seq![nv].drop_first() =~= Seq::<NodeV>::empty());
                    reveal_with_fuel(span_contents, 2);
                    assert(span_contents(seq![nv], assets@) =~= content_of(nv, assets@) + Seq::<
                        SpanContentV,
                    >::empty());
                }
                match item {
                    Some(c) => {
                        content.push(c);
                        proof {
                            assert(content@.map_values(|c: SpanContent| c@) =~= prev.map_values(
                                |c: SpanContent| c@,
                            ).push(content@.last()@));
                            assert(content@.map_values(|c: SpanContent| c@) =~= span_contents(
                                view_nodes(children@.take(i + 1)),
                                assets@,
                            ));
                        }
                    },
                    None => {
                        proof {
                            assert(content@.map_values(|c: SpanContent| c@) =~= span_contents(
                                view_nodes(children@.take(i + 1)),
                                assets@,
                            ));
                        }
                    },
                }
                i += 1;
            }
            proof {
                assert(children@.take(len as int) =~= children@);
            }
            ArticleSpan {
                content,
                font_style: style.get_or("font-style", "normal"),
                text_decoration: style.get_or("text-decoration", "none"),
                color: style.get_or("color", "#000000"),
                font_weight: style.get_or("font-weight", "400"),
            }
        },
        HtmlNode::Text { .. } => {
            let content: Vec<SpanContent> = Vec::new();
            proof {
                assert(content@.map_values(|c: SpanContent| c@) =~= span_contents(
                    children_of(node_view(*n)),
                    assets@,
                ));
            }
            ArticleSpan {
                content,
                font_style: "normal".to_owned(),
                text_decoration: "none".to_owned(),
                color: "#000000".to_owned(),
                font_weight: "400".to_owned(),
            }
        },
    }
}

/// The paragraph a `<p>` element becomes.
fn build_paragraph_exec(n: &HtmlNode, assets: &AssetMap) -> (r: ArticleParagraph)
    ensures
        r@ == build_paragraph(node_view(*n), assets@),
{
    match n {
        HtmlNode::Element { attrs, children, .. } => {
            let style = element_style(attrs);
            let mut span_nodes: Vec<&HtmlNode> = Vec::new();
            collect_in_nodes_exec(children, "span", &mut span_nodes);
            let ghost sv = collect_named(view_nodes(children@), "span"@);
            proof {
                assert(refs_view(Seq::<&HtmlNode>::empty()) + sv =~= sv);
                assert(refs_view(span_nodes@) == sv);
            }
            let mut spans: Vec<ArticleSpan> = Vec::new();
            let len = span_nodes.len();
            let mut i: usize = 0;
            proof {
                assert(refs_view(span_nodes@).len() == span_nodes@.len());
                assert(spans@.map_values(|s: ArticleSpan| s@) =~= sv.take(0).map_values(
                    |s: NodeV| build_span(s, assets@),
                ));
            }
            while i < len
                invariant
                    i <= len == span_nodes@.len(),
                    sv == refs_view(span_nodes@),
                    sv == collect_named(view_nodes(children@), "span"@),
                    spans@.map_values(|s: ArticleSpan| s@) == sv.take(i as int).map_values(
                        |s: NodeV| build_span(s, assets@),
                    ),
                decreases len - i,
            {
                let ghost prev = spans@;
                let s = build_span_exec(span_nodes[i], assets);
                spans.push(s);
                proof {
                    assert(sv[i as int] == node_view(*span_nodes@[i as int]));
                    assert(sv.take(i + 1) =~= sv.take(i as int).push(sv[i as int]));
                    assert(spans@.map_values(|s: ArticleSpan| s@) =~= prev.map_values(
                        |s: ArticleSpan| s@,
                    ).push(spans@.last()@));
                    assert(spans@.map_values(|s: ArticleSpan| s@) =~= sv.take(i + 1).map_values(
                        |s: NodeV| build_span(s, assets@),
                    ));
                }
                i += 1;
            }
            proof {
                assert(sv.take(len as int) =~= sv);
            }
            ArticleParagraph {
                text_alignment: style.get_or("text-align", "left"),
                text_indent: style.get_or("text-indent", "0"),
                margin_left: style.get_or("margin-left", "0"),
                margin_right: style.get_or("margin-right", "0"),
                spans,
            }
        },
        HtmlNode::Text { .. } => {
            let spans: Vec<ArticleSpan> = Vec::new();
            proof {
                assert(spans@.map_values(|s: ArticleSpan| s@) =~= collect_named(
                    children_of(node_view(*n)),
                    "span"@,
                ).map_values(|s: NodeV| build_span(s, assets@)));
            }
            ArticleParagraph {
                text_alignment: "left".to_owned(),
                text_indent: "0".to_owned(),
                margin_left: "0".to_owned(),
                margin_right: "0".to_owned(),
                spans,
            }
        },
    }
}

/// Builds the rich-text document from a parsed tree and the asset map.
/// Fails exactly when the tree holds no `<p>` element or the first one has
/// no children.
pub fn build_article(nodes: &Vec<HtmlNode>, assets: &AssetMap) -> (r: Result<
    ArticleContent,
    ImportError,
>)
    ensures
        ({
            let sp = build_content(view_nodes(nodes@), assets@);
            match r {
                Ok(c) => sp == Ok::<ArticleContentV, ImportError>(c@),
                Err(e) => sp == Err::<ArticleContentV, ImportError>(e),
            }
        }),
{
    let ghost psv = collect_named(view_nodes(nodes@), "p"@);
    let mut ps: Vec<&HtmlNode> = Vec::new();
    collect_in_nodes_exec(nodes, "p", &mut ps);
    proof {
        assert(refs_view(Seq::<&HtmlNode>::empty()) + psv =~= psv);
        assert(refs_view(ps@) == psv);
        assert(refs_view(ps@).len() == ps@.len());
    }
    if ps.len() == 0 {
        return Err(ImportError::Format);
    }
    let first = ps[0];
    proof {
        assert(node_view(*ps@[0]) == psv[0]);
    }
    let headline = match first {
        HtmlNode::Element { children, .. } => {
            if children.len() == 0 {
                proof {
                    crate::html::lemma_view_nodes(children@);
                }
                return Err(ImportError::Format);
            }
            proof {
                crate::html::lemma_view_nodes(children@);
            }
            flat_text_exec(&children[0])
        },
        HtmlNode::Text { .. } => {
            return Err(ImportError::Format);
        },
    };
    let mut paragraphs: Vec<ArticleParagraph> = Vec::new();
    let len = ps.len();
    let mut i: usize = 1;
    proof {
        assert(paragraphs@.map_values(|p: ArticleParagraph| p@) =~= psv.subrange(
            1,
            1,
        ).map_values(|p: NodeV| build_paragraph(p, assets@)));
    }
    while i < len
        invariant
            1 <= i <= len == ps@.len(),
            psv == refs_view(ps@),
            psv == collect_named(view_nodes(nodes@), "p"@),
            paragraphs@.map_values(|p: ArticleParagraph| p@) == psv.subrange(
                1,
                i as int,
            ).map_values(|p: NodeV| build_paragraph(p, assets@)),
        decreases len - i,
    {
        let ghost prev = paragraphs@;
        let p = build_paragraph_exec(ps[i], assets);
        paragraphs.push(p);
        proof {
            assert(psv[i as int] == node_view(*ps@[i as int]));
            assert(psv.subrange(1, i + 1) =~= psv.subrange(1, i as int).push(psv[i as int]));
            assert(paragraphs@.map_values(|p: ArticleParagraph| p@) =~= prev.map_values(
                |p: ArticleParagraph| p@,
            ).push(paragraphs@.last()@));
            assert(paragraphs@.map_values(|p: ArticleParagraph| p@) =~= psv.subrange(
                1,
                i + 1,
            ).map_values(|p: NodeV| build_paragraph(p, assets@)));
        }
        i += 1;
    }
    proof {
        assert(psv.subrange(1, len as int) =~= psv.drop_first());
    }
    Ok(ArticleContent { headline, paragraphs })
}

} // verus!
