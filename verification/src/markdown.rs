//! Markdown parsers.
//!
//! Markdown source is parsed into a syntax tree by the `markdown` crate
//! (mdast). The renderers in [`bare`] and [`terminal`] walk that tree and
//! emit text; their output is specified over [`MdTree`], the plain-value
//! picture of an mdast node that the renderers read.
//!
//! # See also
//!
//! - [CommonMark](https://commonmark.org/), for the CommonMark specification.

pub mod bare;
pub mod terminal;

pub use bare::parse as summarize;
pub use terminal::parse;

use ::markdown::mdast::Node as MdastNode;
use vstd::prelude::*;

verus! {

/// The kinds of mdast nodes that the renderers tell apart.
///
/// Every other kind of node (strikethrough, tables, footnotes, ...) is
/// [`MdKind::Other`].
#[derive(PartialEq, Eq, Structural, Clone, Copy, Debug)]
pub enum MdKind {
    Root,
    Paragraph,
    Text,
    Break,
    Emphasis,
    Strong,
    Heading,
    Link,
    Image,
    InlineCode,
    Html,
    ThematicBreak,
    List,
    ListItem,
    Code,
    Blockquote,
    Other,
}

/// What the renderers read of an mdast node, as plain values.
///
/// `value` is the literal text of `Text`, `InlineCode`, `Html` and `Code`
/// nodes (empty for other kinds); `url` is the destination of `Link` and
/// `Image` nodes (empty otherwise); `ordered` and `start` describe `List`
/// nodes (`false` and `None` otherwise); `children` are the node's children
/// in document order (empty for nodes that have none).
pub struct MdTree {
    pub kind: MdKind,
    pub value: Seq<char>,
    pub url: Seq<char>,
    pub ordered: bool,
    pub start: Option<u32>,
    pub children: Seq<MdTree>,
}

/// The tree that `markdown::to_mdast` builds for `text`, with GFM
/// strikethrough and autolinks switched on or off as given.
pub uninterp spec fn markdown_tree(text: Seq<char>, gfm_strikethrough: bool, autolink: bool) -> MdTree;

/// What an mdast node holds, as an [`MdTree`].
pub uninterp spec fn mdast_view(node: MdastNode) -> MdTree;

#[verifier::external_type_specification]
#[verifier::external_body]
pub struct ExNode(::markdown::mdast::Node);

/// Calls `markdown::to_mdast` with the default parse options except for
/// the `gfm_strikethrough` and `autolink` constructs.
///
/// Claimed: the returned node holds `markdown_tree(text, ...)`. The
/// `unwrap` cannot fail: `to_mdast` documents that it only errors for MDX,
/// which the default options leave off.
#[verifier::external_body]
fn mdast_parse(text: &str, gfm_strikethrough: bool, autolink: bool) -> (node: MdastNode)
    ensures
        mdast_view(node) == markdown_tree(text@, gfm_strikethrough, autolink),
{
    let constructs = ::markdown::Constructs {
        gfm_strikethrough,
        autolink,
        ..::markdown::Constructs::default()
    };
    let options = ::markdown::ParseOptions { constructs, ..::markdown::ParseOptions::default() };
    ::markdown::to_mdast(text, &options).unwrap()
}

/// True for the kinds of block-level nodes that the renderers tell apart.
pub open spec fn is_block_kind(k: MdKind) -> bool {
    matches!(k, MdKind::Root | MdKind::Paragraph | MdKind::Heading | MdKind::ThematicBreak
        | MdKind::List | MdKind::ListItem | MdKind::Code | MdKind::Blockquote | MdKind::Html)
}

/// True for the kinds of inline nodes that the renderers tell apart.
pub open spec fn is_inline_kind(k: MdKind) -> bool {
    matches!(k, MdKind::Text | MdKind::Break | MdKind::Emphasis | MdKind::Strong
        | MdKind::Link | MdKind::Image | MdKind::InlineCode)
}

/// Tells the block-level variants of `markdown::mdast::Node` apart.
///
/// Claimed: the result is the kind recorded in the node's view when that
/// kind is a block kind, and `None` otherwise.
#[verifier::external_body]
fn mdast_block_kind(node: &MdastNode) -> (k: Option<MdKind>)
    ensures
        k == (if is_block_kind(mdast_view(*node).kind) { Some(mdast_view(*node).kind) } else { None }),
{
    match node {
        MdastNode::Root(_) => Some(MdKind::Root),
        MdastNode::Paragraph(_) => Some(MdKind::Paragraph),
        MdastNode::Heading(_) => Some(MdKind::Heading),
        MdastNode::ThematicBreak(_) => Some(MdKind::ThematicBreak),
        MdastNode::List(_) => Some(MdKind::List),
        MdastNode::ListItem(_) => Some(MdKind::ListItem),
        MdastNode::Code(_) => Some(MdKind::Code),
        MdastNode::Blockquote(_) => Some(MdKind::Blockquote),
        MdastNode::Html(_) => Some(MdKind::Html),
        _ => None,
    }
}

/// Tells the inline variants of `markdown::mdast::Node` apart.
///
/// Claimed: the result is the kind recorded in the node's view when that
/// kind is an inline kind, and `None` otherwise.
#[verifier::external_body]
fn mdast_inline_kind(node: &MdastNode) -> (k: Option<MdKind>)
    ensures
        k == (if is_inline_kind(mdast_view(*node).kind) { Some(mdast_view(*node).kind) } else { None }),
{
    match node {
        MdastNode::Text(_) => Some(MdKind::Text),
        MdastNode::Break(_) => Some(MdKind::Break),
        MdastNode::Emphasis(_) => Some(MdKind::Emphasis),
        MdastNode::Strong(_) => Some(MdKind::Strong),
        MdastNode::Link(_) => Some(MdKind::Link),
        MdastNode::Image(_) => Some(MdKind::Image),
        MdastNode::InlineCode(_) => Some(MdKind::InlineCode),
        _ => None,
    }
}

/// The kind of an mdast node: one of the block or inline kinds that the
/// renderers tell apart, or [`MdKind::Other`].
pub(crate) fn mdast_kind(node: &MdastNode) -> (k: MdKind)
    ensures
        k == mdast_view(*node).kind,
{
    match mdast_block_kind(node) {
        Some(k) => k,
        None => match mdast_inline_kind(node) {
            Some(k) => k,
            None => MdKind::Other,
        },
    }
}

/// The `value` field of a `Text`, `InlineCode`, `Html` or `Code` node (its
/// literal text); empty for other kinds.
#[verifier::external_body]
fn mdast_value(node: &MdastNode) -> (s: String)
    ensures
        s@ == mdast_view(*node).value,
{
    match node {
        MdastNode::Text(text) => text.value.clone(),
        MdastNode::InlineCode(code) => code.value.clone(),
        MdastNode::Html(html) => html.value.clone(),
        MdastNode::Code(code) => code.value.clone(),
        _ => String::new(),
    }
}

/// The `url` field of a `Link` or `Image` node; empty for other kinds.
#[verifier::external_body]
fn mdast_url(node: &MdastNode) -> (s: String)
    ensures
        s@ == mdast_view(*node).url,
{
    match node {
        MdastNode::Link(link) => link.url.clone(),
        MdastNode::Image(image) => image.url.clone(),
        _ => String::new(),
    }
}

/// The `ordered` and `start` fields of a `List` node; `(false, None)` for
/// other kinds.
#[verifier::external_body]
fn mdast_list(node: &MdastNode) -> (r: (bool, Option<u32>))
    ensures
        r.0 == mdast_view(*node).ordered,
        r.1 == mdast_view(*node).start,
{
    match node {
        MdastNode::List(list) => (list.ordered, list.start),
        _ => (false, None),
    }
}

/// The children of a node, through `MdastNode::children` (none for nodes that
/// cannot have children).
#[verifier::external_body]
fn mdast_children(node: &MdastNode) -> (c: &[MdastNode])
    ensures
        c@.len() == mdast_view(*node).children.len(),
        forall|i: int|
            0 <= i < c@.len() ==> mdast_view(#[trigger] c@[i]) == mdast_view(*node).children[i],
{
    match node.children() {
        Some(children) => children.as_slice(),
        None => &[],
    }
}

/// "Visits" a node and emits code.
///
/// A `Visitor` embodies an algorithm used to visit each node of a Markdown
/// syntax tree and emit text for it.
pub trait Visitor: Sized {
    /// The generated text.
    spec fn text_view(&self) -> Seq<char>;

    /// True if `next` is the visitor after it visited `node`, starting as
    /// `self`.
    spec fn visited(&self, node: MdTree, next: Self) -> bool;

    /// The generated text.
    fn text(&self) -> (r: String)
        ensures
            r@ == self.text_view(),
    ;

    /// "Visit" a particular node in a graph.
    fn visit(&mut self, node: &MdastNode)
        ensures
            old(self).visited(mdast_view(*node), *final(self)),
    ;
}

/// True if a visitor that starts as `start` and visits `nodes` one after
/// the other ends as `end`.
pub open spec fn visited_in_turn<V: Visitor>(start: V, nodes: Seq<MdTree>, end: V) -> bool
    decreases nodes.len(),
{
    if nodes.len() == 0 {
        end == start
    } else {
        exists|mid: V|
            #![trigger mid.visited(nodes.last(), end)]
            visited_in_turn(start, nodes.drop_last(), mid) && mid.visited(nodes.last(), end)
    }
}

/// A data structure that can be visited.
pub trait Visitable {
    /// The tree that a visitor visits.
    spec fn tree_view(&self) -> MdTree;

    /// Accepts a visitor for processing the visitable item.
    fn accept<V: Visitor>(&self, visitor: &mut V)
        ensures
            old(visitor).visited(self.tree_view(), *final(visitor)),
    ;

    /// Accepts a visitor for processing all child nodes, in order.
    fn accept_children<V: Visitor>(&self, visitor: &mut V)
        ensures
            visited_in_turn(*old(visitor), self.tree_view().children, *final(visitor)),
    ;
}

impl Visitable for MdastNode {
    open spec fn tree_view(&self) -> MdTree {
        mdast_view(*self)
    }

    fn accept<V: Visitor>(&self, visitor: &mut V) {
        visitor.visit(self);
    }

    fn accept_children<V: Visitor>(&self, visitor: &mut V) {
        let ghost t = mdast_view(*self);
        let ghost start = *visitor;
        let kids = mdast_children(self);
        assert(t.children.take(0) =~= Seq::<MdTree>::empty());
        for i in 0..kids.len()
            invariant
                t == mdast_view(*self),
                kids@.len() == t.children.len(),
                forall|j: int| 0 <= j < kids@.len() ==> mdast_view(#[trigger] kids@[j]) == t.children[j],
                visited_in_turn(start, t.children.take(i as int), *visitor),
        {
            let ghost mid = *visitor;
            kids[i].accept(visitor);
            proof {
                let done = t.children.take(i as int + 1);
                assert(done.drop_last() =~= t.children.take(i as int));
                assert(done.last() == t.children[i as int]);
                assert(mdast_view(kids@[i as int]) == t.children[i as int]);
                assert(mid.visited(done.last(), *visitor));
            }
        }
        assert(t.children.take(kids.len() as int) =~= t.children);
    }
}

} // verus!
