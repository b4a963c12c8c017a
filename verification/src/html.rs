//! A small, lenient HTML document tree and parser.
//!
//! The exported documents the import pipeline consumes are plain tag soup:
//! elements with attributes, text runs, comments and declarations. The
//! parser is lenient the way browsers are: stray markup becomes text, an
//! unterminated construct runs to the end of the input, a closing tag closes
//! the innermost open element whatever its name. Entities are not decoded;
//! text is kept verbatim.

use crate::strutil::chars_to_string;
use crate::strutil::str_eq;
use crate::style::find_from;
use crate::style::is_space;
use crate::style::skip_ws;
use vstd::prelude::*;

verus! {

/// One node of the parsed document tree.
pub enum HtmlNode {
    /// An element: `<name attr="value" ...> children </name>`.
    Element { name: String, attrs: Vec<(String, String)>, children: Vec<HtmlNode> },
    /// A raw text run.
    Text { text: String },
}

/// Ghost view of [`HtmlNode`].
pub enum NodeV {
    Element { name: Seq<char>, attrs: Seq<(Seq<char>, Seq<char>)>, children: Seq<NodeV> },
    Text { text: Seq<char> },
}

/// The plain view of an attribute list.
pub open spec fn attrs_view(attrs: Seq<(String, String)>) -> Seq<(Seq<char>, Seq<char>)> {
    attrs.map_values(|a: (String, String)| (a.0@, a.1@))
}

/// The ghost view of one node.
pub open spec fn node_view(n: HtmlNode) -> NodeV
    decreases n,
{
    match n {
        HtmlNode::Text { text } => NodeV::Text { text: text@ },
        HtmlNode::Element { name, attrs, children } => NodeV::Element {
            name: name@,
            attrs: attrs_view(attrs@),
            children: view_nodes(children@),
        },
    }
}

/// The ghost views of a sequence of nodes, in order.
pub open spec fn view_nodes(ns: Seq<HtmlNode>) -> Seq<NodeV>
    decreases ns,
{
    if ns.len() == 0 {
        Seq::empty()
    } else {
        seq![node_view(ns[0])] + view_nodes(ns.drop_first())
    }
}

pub proof fn lemma_view_nodes(ns: Seq<HtmlNode>)
    ensures
        view_nodes(ns).len() == ns.len(),
        forall|i: int| 0 <= i < ns.len() ==> view_nodes(ns)[i] == node_view(ns[i]),
    decreases ns,
{
    if ns.len() > 0 {
        lemma_view_nodes(ns.drop_first());
    }
}

pub proof fn lemma_view_nodes_push(ns: Seq<HtmlNode>, n: HtmlNode)
    ensures
        view_nodes(ns.push(n)) == view_nodes(ns).push(node_view(n)),
    decreases ns,
{
    if ns.len() == 0 {
        assert(ns.push(n)[0] == n);
        assert(ns.push(n).drop_first() =~= Seq::<HtmlNode>::empty());
        assert(view_nodes(ns.push(n)) == seq![node_view(n)] + view_nodes(
            Seq::<HtmlNode>::empty(),
        ));
        assert(view_nodes(ns.push(n)) =~= view_nodes(ns).push(node_view(n)));
    } else {
        assert(ns.push(n)[0] == ns[0]);
        assert(ns.push(n).drop_first() =~= ns.drop_first().push(n));
        lemma_view_nodes_push(ns.drop_first(), n);
        assert(view_nodes(ns.push(n)) == seq![node_view(ns[0])] + view_nodes(
            ns.drop_first().push(n),
        ));
        assert(view_nodes(ns.push(n)) =~= view_nodes(ns).push(node_view(n)));
    }
}

/// The value of the first attribute with the given name, if any; a repeated
/// attribute keeps its first occurrence.
pub open spec fn attr_of(attrs: Seq<(Seq<char>, Seq<char>)>, name: Seq<char>) -> Option<Seq<char>>
    decreases attrs,
{
    if attrs.len() == 0 {
        None
    } else if attrs[0].0 == name {
        Some(attrs[0].1)
    } else {
        attr_of(attrs.drop_first(), name)
    }
}

/// The flattened inner text of a node: its own text if it is a text run,
/// else the concatenation of its descendants' text runs in document order.
pub open spec fn flat_text(n: NodeV) -> Seq<char>
    decreases n,
{
    match n {
        NodeV::Text { text } => text,
        NodeV::Element { children, .. } => flat_text_all(children),
    }
}

/// The flattened inner text of a sequence of nodes, in order.
pub open spec fn flat_text_all(nodes: Seq<NodeV>) -> Seq<char>
    decreases nodes,
{
    if nodes.len() == 0 {
        Seq::empty()
    } else {
        flat_text(nodes[0]) + flat_text_all(nodes.drop_first())
    }
}

/// Whether `c` can start a tag name.
pub open spec fn is_name_start(c: char) -> bool {
    ('a' <= c && c <= 'z') || ('A' <= c && c <= 'Z')
}

/// Whether `c` ends a tag or attribute name.
pub open spec fn is_name_delim(c: char) -> bool {
    is_space(c) || c == '=' || c == '>' || c == '/'
}

/// Whether `c` ends an unquoted attribute value.
pub open spec fn is_unquoted_delim(c: char) -> bool {
    is_space(c) || c == '>'
}

/// An element that never has children and needs no closing tag.
pub open spec fn is_void_name(name: Seq<char>) -> bool {
    ||| name == "img"@
    ||| name == "br"@
    ||| name == "hr"@
    ||| name == "meta"@
    ||| name == "link"@
    ||| name == "input"@
    ||| name == "area"@
    ||| name == "base"@
    ||| name == "col"@
    ||| name == "embed"@
    ||| name == "source"@
    ||| name == "track"@
    ||| name == "wbr"@
    ||| name == "param"@
}

/// The first position at or after `pos` that ends a name, or the end.
pub open spec fn scan_name_end(s: Seq<char>, pos: int) -> int
    decreases s.len() - pos,
    when 0 <= pos <= s.len()
{
    if pos >= s.len() {
        s.len() as int
    } else if is_name_delim(s[pos]) {
        pos
    } else {
        scan_name_end(s, pos + 1)
    }
}

/// The first position at or after `pos` that ends an unquoted value.
pub open spec fn scan_unquoted_end(s: Seq<char>, pos: int) -> int
    decreases s.len() - pos,
    when 0 <= pos <= s.len()
{
    if pos >= s.len() {
        s.len() as int
    } else if is_unquoted_delim(s[pos]) {
        pos
    } else {
        scan_unquoted_end(s, pos + 1)
    }
}

/// The position just past the first `-->` at or after `pos`, or the end.
pub open spec fn comment_end(s: Seq<char>, pos: int) -> int
    decreases s.len() - pos,
    when 0 <= pos
{
    if pos + 3 > s.len() {
        s.len() as int
    } else if s[pos] == '-' && s[pos + 1] == '-' && s[pos + 2] == '>' {
        pos + 3
    } else {
        comment_end(s, pos + 1)
    }
}

/// `next` if it makes progress past `pos` and stays inside `s`, else a
/// clamped step; the parser only ever takes the clamp on input it cannot
/// reach.
pub open spec fn adv(s: Seq<char>, pos: int, next: int) -> int {
    if next <= pos {
        pos + 1
    } else if next > s.len() {
        s.len() as int
    } else {
        next
    }
}

/// Whether a closing tag starts at `pos`.
pub open spec fn at_close(s: Seq<char>, pos: int) -> bool {
    pos + 1 < s.len() && s[pos] == '<' && s[pos + 1] == '/'
}

/// The attribute list of an open tag, read from `pos` until the tag ends:
/// the attributes in order, the position just past the `>` (or the end of
/// input), and whether the tag was self-closing.
pub open spec fn parse_attrs(s: Seq<char>, pos: int) -> (Seq<(Seq<char>, Seq<char>)>, int, bool)
    decreases s.len() - pos,
    when 0 <= pos <= s.len()
{
    let p = skip_ws(s, pos, s.len() as int);
    if p >= s.len() {
        (Seq::empty(), s.len() as int, false)
    } else if s[p] == '>' {
        (Seq::empty(), p + 1, false)
    } else if s[p] == '/' && p + 1 < s.len() && s[p + 1] == '>' {
        (Seq::empty(), p + 2, true)
    } else if s[p] == '/' {
        let r = parse_attrs(s, adv(s, pos, p + 1));
        r
    } else {
        let ne = scan_name_end(s, p);
        let name = s.subrange(p, ne);
        let q = skip_ws(s, ne, s.len() as int);
        if q < s.len() && s[q] == '=' {
            let v = skip_ws(s, q + 1, s.len() as int);
            if v < s.len() && (s[v] == '"' || s[v] == '\'') {
                let vend = find_from(s, s[v], v + 1, s.len() as int);
                let value = s.subrange(v + 1, vend);
                let next = if vend + 1 <= s.len() {
                    vend + 1
                } else {
                    s.len() as int
                };
                let r = parse_attrs(s, adv(s, pos, next));
                (seq![(name, value)] + r.0, r.1, r.2)
            } else {
                let vend = scan_unquoted_end(s, v);
                let value = s.subrange(v, vend);
                let r = parse_attrs(s, adv(s, pos, vend));
                (seq![(name, value)] + r.0, r.1, r.2)
            }
        } else {
            let r = parse_attrs(s, adv(s, pos, ne));
            (seq![(name, Seq::<char>::empty())] + r.0, r.1, r.2)
        }
    }
}

/// One node parsed at `pos` (or nothing, for a comment or declaration),
/// and the position the parse continues at. Meaningful when `pos` is in
/// bounds and no closing tag starts there.
pub open spec fn parse_one(s: Seq<char>, pos: int) -> (Option<NodeV>, int)
    decreases s.len() - pos, 0int,
    when 0 <= pos < s.len()
{
    if s[pos] == '<' {
        if pos + 1 >= s.len() {
            (Some(NodeV::Text { text: s.subrange(pos, s.len() as int) }), s.len() as int)
        } else if s[pos + 1] == '!' || s[pos + 1] == '?' {
            if pos + 4 <= s.len() && s[pos + 1] == '!' && s[pos + 2] == '-' && s[pos + 3] == '-' {
                (None, adv(s, pos, comment_end(s, pos + 4)))
            } else {
                (None, adv(s, pos, find_from(s, '>', pos + 1, s.len() as int) + 1))
            }
        } else if is_name_start(s[pos + 1]) {
            let ne = scan_name_end(s, pos + 1);
            let name = s.subrange(pos + 1, ne);
            let (attrs, p2, selfclosing) = parse_attrs(s, ne);
            if selfclosing || is_void_name(name) {
                (Some(NodeV::Element { name, attrs, children: Seq::empty() }), adv(s, pos, p2))
            } else {
                let (children, p3) = parse_nodes(s, adv(s, pos, p2));
                let p4 = if at_close(s, p3) {
                    adv(s, p3, find_from(s, '>', p3, s.len() as int) + 1)
                } else {
                    p3
                };
                (Some(NodeV::Element { name, attrs, children }), p4)
            }
        } else {
            let e = find_from(s, '<', pos + 1, s.len() as int);
            (Some(NodeV::Text { text: s.subrange(pos, e) }), adv(s, pos, e))
        }
    } else {
        let e = find_from(s, '<', pos + 1, s.len() as int);
        (Some(NodeV::Text { text: s.subrange(pos, e) }), adv(s, pos, e))
    }
}

/// The nodes parsed from `pos` up to the next closing tag or the end of
/// input, and the position the parse stopped at.
pub open spec fn parse_nodes(s: Seq<char>, pos: int) -> (Seq<NodeV>, int)
    decreases s.len() - pos, 1int,
    when 0 <= pos
{
    if pos >= s.len() {
        (Seq::empty(), pos)
    } else if at_close(s, pos) {
        (Seq::empty(), pos)
    } else {
        let (n, p2) = parse_one(s, pos);
        let (rest, p3) = parse_nodes(s, adv(s, pos, p2));
        let own = match n {
            Some(nv) => seq![nv],
            None => Seq::empty(),
        };
        (own + rest, p3)
    }
}

/// The whole document parsed from `pos`: like [`parse_nodes`], but a stray
/// closing tag at the top level is skipped and parsing goes on.
pub open spec fn parse_document(s: Seq<char>, pos: int) -> Seq<NodeV>
    decreases s.len() - pos,
    when 0 <= pos
{
    let (nodes, p2) = parse_nodes(s, pos);
    if p2 >= s.len() {
        nodes
    } else {
        let p3 = adv(s, p2, find_from(s, '>', p2, s.len() as int) + 1);
        nodes + parse_document(s, adv(s, pos, p3))
    }
}

/// The document tree of an HTML text.
pub open spec fn html_nodes_of(s: Seq<char>) -> Seq<NodeV> {
    parse_document(s, 0)
}

pub proof fn lemma_scan_name_end_bounds(s: Seq<char>, pos: int)
    requires
        0 <= pos <= s.len(),
    ensures
        pos <= scan_name_end(s, pos) <= s.len(),
    decreases s.len() - pos,
{
    if pos < s.len() && !is_name_delim(s[pos]) {
        lemma_scan_name_end_bounds(s, pos + 1);
    }
}

pub proof fn lemma_view_nodes_concat(a: Seq<HtmlNode>, b: Seq<HtmlNode>)
    ensures
        view_nodes(a + b) == view_nodes(a) + view_nodes(b),
    decreases a,
{
    if a.len() == 0 {
        assert(a + b =~= b);
        assert(view_nodes(a) + view_nodes(b) =~= view_nodes(b));
    } else {
        assert((a + b)[0] == a[0]);
        assert((a + b).drop_first() =~= a.drop_first() + b);
        lemma_view_nodes_concat(a.drop_first(), b);
        assert(view_nodes(a + b) =~= view_nodes(a) + view_nodes(b));
    }
}

/// Scans to the first position at or after `from` ending a name.
fn scan_name_end_exec(v: &Vec<char>, from: usize) -> (r: usize)
    requires
        from <= v@.len(),
    ensures
        r as int == scan_name_end(v@, from as int),
        from <= r <= v@.len(),
{
    let len = v.len();
    let mut i: usize = from;
    while i < len && !is_name_delim_exec(v[i])
        invariant
            from <= i <= len == v@.len(),
            scan_name_end(v@, from as int) == scan_name_end(v@, i as int),
        decreases len - i,
    {
        i += 1;
    }
    i
}

/// Scans to the first position at or after `from` ending an unquoted value.
fn scan_unquoted_end_exec(v: &Vec<char>, from: usize) -> (r: usize)
    requires
        from <= v@.len(),
    ensures
        r as int == scan_unquoted_end(v@, from as int),
        from <= r <= v@.len(),
{
    let len = v.len();
    let mut i: usize = from;
    while i < len && !is_unquoted_delim_exec(v[i])
        invariant
            from <= i <= len == v@.len(),
            scan_unquoted_end(v@, from as int) == scan_unquoted_end(v@, i as int),
        decreases len - i,
    {
        i += 1;
    }
    i
}

/// Scans just past the first `-->` at or after `from`, or to the end.
fn comment_end_exec(v: &Vec<char>, from: usize) -> (r: usize)
    requires
        from <= v@.len(),
    ensures
        r as int == comment_end(v@, from as int),
        from <= r <= v@.len(),
{
    let len = v.len();
    let mut i: usize = from;
    while 3 <= len && i <= len - 3 && !(v[i] == '-' && v[i + 1] == '-' && v[i + 2] == '>')
        invariant
            from <= i <= len == v@.len(),
            comment_end(v@, from as int) == comment_end(v@, i as int),
        decreases len - i,
    {
        i += 1;
    }
    if 3 <= len && i <= len - 3 {
        i + 3
    } else {
        len
    }
}

/// Whether `c` ends a tag or attribute name.
fn is_name_delim_exec(c: char) -> (r: bool)
    ensures
        r == is_name_delim(c),
{
    crate::style::is_space_exec(c) || c == '=' || c == '>' || c == '/'
}

/// Whether `c` ends an unquoted attribute value.
fn is_unquoted_delim_exec(c: char) -> (r: bool)
    ensures
        r == is_unquoted_delim(c),
{
    crate::style::is_space_exec(c) || c == '>'
}

/// Whether `name` names a void element.
fn is_void_exec(name: &str) -> (r: bool)
    ensures
        r == is_void_name(name@),
{
    str_eq(name, "img") || str_eq(name, "br") || str_eq(name, "hr") || str_eq(name, "meta")
        || str_eq(name, "link") || str_eq(name, "input") || str_eq(name, "area") || str_eq(
        name,
        "base",
    ) || str_eq(name, "col") || str_eq(name, "embed") || str_eq(name, "source") || str_eq(
        name,
        "track",
    ) || str_eq(name, "wbr") || str_eq(name, "param")
}

/// Reads the attribute list of an open tag starting at `pos`.
fn parse_attrs_exec(v: &Vec<char>, pos: usize) -> (r: (Vec<(String, String)>, usize, bool))
    requires
        pos <= v@.len(),
    ensures
        attrs_view(r.0@) == parse_attrs(v@, pos as int).0,
        r.1 as int == parse_attrs(v@, pos as int).1,
        r.2 == parse_attrs(v@, pos as int).2,
        pos <= r.1 <= v@.len(),
{
    let len = v.len();
    let mut acc: Vec<(String, String)> = Vec::new();
    let mut p = pos;
    loop
        invariant
            pos <= p <= len,
            len == v@.len(),
            parse_attrs(v@, pos as int).0 == attrs_view(acc@) + parse_attrs(v@, p as int).0,
            parse_attrs(v@, pos as int).1 == parse_attrs(v@, p as int).1,
            parse_attrs(v@, pos as int).2 == parse_attrs(v@, p as int).2,
        decreases len - p,
    {
        let ghost pold = p as int;
        let sp = crate::style::skip_spaces(v, p, len);
        if sp >= len {
            proof {
                assert(attrs_view(acc@) + Seq::<(Seq<char>, Seq<char>)>::empty() =~= attrs_view(
                    acc@,
                ));
            }
            return (acc, len, false);
        }
        if v[sp] == '>' {
            proof {
                assert(attrs_view(acc@) + Seq::<(Seq<char>, Seq<char>)>::empty() =~= attrs_view(
                    acc@,
                ));
            }
            return (acc, sp + 1, false);
        }
        if v[sp] == '/' {
            if sp + 1 < len && v[sp + 1] == '>' {
                proof {
                    assert(attrs_view(acc@) + Seq::<(Seq<char>, Seq<char>)>::empty() =~= attrs_view(
                        acc@,
                    ));
                }
                return (acc, sp + 2, true);
            }
            p = sp + 1;
            continue ;
        }
        let ne = scan_name_end_exec(v, sp);
        let name = chars_to_string(v.as_slice(), sp, ne);
        let q = crate::style::skip_spaces(v, ne, len);
        let ghost entry_start = p as int;
        if q < len && v[q] == '=' {
            let w = crate::style::skip_spaces(v, q + 1, len);
            if w < len && (v[w] == '"' || v[w] == '\'') {
                let vend = crate::style::find_char(v, v[w], w + 1, len);
                let value = chars_to_string(v.as_slice(), w + 1, vend);
                let next = if vend < len {
                    vend + 1
                } else {
                    len
                };
                let ghost oldacc = acc@;
                acc.push((name, value));
                proof {
                    assert(attrs_view(acc@) =~= attrs_view(oldacc).push(
                        (acc@.last().0@, acc@.last().1@),
                    ));
                    assert(attrs_view(oldacc) + (seq![
                        (v@.subrange(sp as int, ne as int), v@.subrange(w + 1, vend as int)),
                    ] + parse_attrs(v@, next as int).0) =~= attrs_view(acc@) + parse_attrs(
                        v@,
                        next as int,
                    ).0);
                }
                p = next;
            } else {
                let vend = scan_unquoted_end_exec(v, w);
                let value = chars_to_string(v.as_slice(), w, vend);
                let ghost oldacc = acc@;
                acc.push((name, value));
                proof {
                    assert(attrs_view(acc@) =~= attrs_view(oldacc).push(
                        (acc@.last().0@, acc@.last().1@),
                    ));
                    assert(attrs_view(oldacc) + (seq![
                        (v@.subrange(sp as int, ne as int), v@.subrange(w as int, vend as int)),
                    ] + parse_attrs(v@, vend as int).0) =~= attrs_view(acc@) + parse_attrs(
                        v@,
                        vend as int,
                    ).0);
                }
                p = vend;
            }
        } else {
            proof {
                if v@[sp as int] == '=' {
                    assert(scan_name_end(v@, sp as int) == sp as int);
                    assert(skip_ws(v@, sp as int, len as int) == sp as int);
                    assert(false);
                }
                assert(!is_name_delim(v@[sp as int]));
                assert(scan_name_end(v@, sp as int) == scan_name_end(v@, sp + 1));
                lemma_scan_name_end_bounds(v@, sp + 1);
            }
            let ghost oldacc = acc@;
            acc.push((name, String::new()));
            proof {
                assert(attrs_view(acc@) =~= attrs_view(oldacc).push(
                    (acc@.last().0@, acc@.last().1@),
                ));
                assert(attrs_view(oldacc) + (seq![
                    (v@.subrange(sp as int, ne as int), Seq::<char>::empty()),
                ] + parse_attrs(v@, ne as int).0) =~= attrs_view(acc@) + parse_attrs(
                    v@,
                    ne as int,
                ).0);
            }
            p = ne;
        }
    }
}

/// Parses one node (or skips one comment or declaration) at `pos`.
fn parse_one_exec(v: &Vec<char>, pos: usize) -> (r: (Option<HtmlNode>, usize))
    requires
        pos < v@.len(),
    ensures
        ({
            let sp = parse_one(v@, pos as int);
            &&& match r.0 {
                Some(n) => sp.0 == Some(node_view(n)),
                None => sp.0 is None,
            }
            &&& r.1 as int == sp.1
            &&& pos < r.1 <= v@.len()
        }),
    decreases v@.len() - pos, 0int,
{
    let len = v.len();
    if v[pos] == '<' {
        if pos + 1 >= len {
            let text = chars_to_string(v.as_slice(), pos, len);
            (Some(HtmlNode::Text { text }), len)
        } else if v[pos + 1] == '!' || v[pos + 1] == '?' {
            if 4 <= len && pos <= len - 4 && v[pos + 1] == '!' && v[pos + 2] == '-' && v[pos + 3]
                == '-' {
                let e = comment_end_exec(v, pos + 4);
                (None, e)
            } else {
                let g = crate::style::find_char(v, '>', pos + 1, len);
                let next = if g < len {
                    g + 1
                } else {
                    len
                };
                (None, next)
            }
        } else if is_name_start_exec(v[pos + 1]) {
            let ne = scan_name_end_exec(v, pos + 1);
            let name = chars_to_string(v.as_slice(), pos + 1, ne);
            let (attrs, p2, selfclosing) = parse_attrs_exec(v, ne);
            if selfclosing || is_void_exec(name.as_str()) {
                let node = HtmlNode::Element { name, attrs, children: Vec::new() };
                proof {
                    assert(view_nodes(Seq::<HtmlNode>::empty()) =~= Seq::<NodeV>::empty());
                }
                (Some(node), p2)
            } else {
                let (children, p3) = parse_nodes_exec(v, p2);
                let p4 = if p3 < len && p3 + 1 < len && v[p3] == '<' && v[p3 + 1] == '/' {
                    let g = crate::style::find_char(v, '>', p3, len);
                    if g < len {
                        g + 1
                    } else {
                        len
                    }
                } else {
                    p3
                };
                let node = HtmlNode::Element { name, attrs, children };
                (Some(node), p4)
            }
        } else {
            let e = crate::style::find_char(v, '<', pos + 1, len);
            let text = chars_to_string(v.as_slice(), pos, e);
            (Some(HtmlNode::Text { text }), e)
        }
    } else {
        let e = crate::style::find_char(v, '<', pos + 1, len);
        let text = chars_to_string(v.as_slice(), pos, e);
        (Some(HtmlNode::Text { text }), e)
    }
}

/// Whether `c` can start a tag name.
fn is_name_start_exec(c: char) -> (r: bool)
    ensures
        r == is_name_start(c),
{
    ('a' <= c && c <= 'z') || ('A' <= c && c <= 'Z')
}

/// Parses sibling nodes from `pos` up to a closing tag or the end.
fn parse_nodes_exec(v: &Vec<char>, pos: usize) -> (r: (Vec<HtmlNode>, usize))
    requires
        pos <= v@.len(),
    ensures
        view_nodes(r.0@) == parse_nodes(v@, pos as int).0,
        r.1 as int == parse_nodes(v@, pos as int).1,
        pos <= r.1 <= v@.len(),
    decreases v@.len() - pos, 1int,
{
    let len = v.len();
    let mut nodes: Vec<HtmlNode> = Vec::new();
    let mut p = pos;
    proof {
        assert(view_nodes(Seq::<HtmlNode>::empty()) =~= Seq::<NodeV>::empty());
    }
    while p < len && !(p + 1 < len && v[p] == '<' && v[p + 1] == '/')
        invariant
            pos <= p <= len,
            len == v@.len(),
            parse_nodes(v@, pos as int).0 == view_nodes(nodes@) + parse_nodes(v@, p as int).0,
            parse_nodes(v@, pos as int).1 == parse_nodes(v@, p as int).1,
        decreases len - p,
    {
        let ghost pold = p as int;
        let (n_opt, p2) = parse_one_exec(v, p);
        proof {
            assert(!at_close(v@, pold));
            assert(adv(v@, pold, parse_one(v@, pold).1) == p2 as int);
        }
        match n_opt {
            Some(n) => {
                let ghost oldnodes = nodes@;
                nodes.push(n);
                proof {
                    lemma_view_nodes_push(oldnodes, n);
                    assert(view_nodes(oldnodes) + (seq![node_view(n)] + parse_nodes(
                        v@,
                        p2 as int,
                    ).0) =~= view_nodes(nodes@) + parse_nodes(v@, p2 as int).0);
                }
            },
            None => {
                proof {
                    assert(view_nodes(nodes@) + (Seq::<NodeV>::empty() + parse_nodes(
                        v@,
                        p2 as int,
                    ).0) =~= view_nodes(nodes@) + parse_nodes(v@, p2 as int).0);
                }
            },
        }
        p = p2;
    }
    proof {
        assert(parse_nodes(v@, p as int).0 =~= Seq::<NodeV>::empty());
        assert(view_nodes(nodes@) + Seq::<NodeV>::empty() =~= view_nodes(nodes@));
    }
    (nodes, p)
}

/// Parses a whole document from `pos`, skipping stray closing tags.
fn parse_document_exec(v: &Vec<char>, pos: usize) -> (r: Vec<HtmlNode>)
    requires
        pos <= v@.len(),
    ensures
        view_nodes(r@) == parse_document(v@, pos as int),
    decreases v@.len() - pos,
{
    let len = v.len();
    let (mut nodes, p2) = parse_nodes_exec(v, pos);
    if p2 >= len {
        nodes
    } else {
        let g = crate::style::find_char(v, '>', p2, len);
        let p3 = if g < len {
            g + 1
        } else {
            len
        };
        let mut rest = parse_document_exec(v, p3);
        proof {
            assert(adv(v@, p2 as int, find_from(v@, '>', p2 as int, v@.len() as int) + 1)
                == p3 as int);
            assert(adv(v@, pos as int, p3 as int) == p3 as int);
        }
        let ghost oldnodes = nodes@;
        let ghost restv = rest@;
        nodes.append(&mut rest);
        proof {
            lemma_view_nodes_concat(oldnodes, restv);
            assert(nodes@ =~= oldnodes + restv);
        }
        nodes
    }
}

/// Parses an HTML text into its document tree.
pub fn parse_html(s: &str) -> (r: Vec<HtmlNode>)
    ensures
        view_nodes(r@) == html_nodes_of(s@),
{
    let v = crate::strutil::str_to_chars(s);
    parse_document_exec(&v, 0)
}

} // verus!
