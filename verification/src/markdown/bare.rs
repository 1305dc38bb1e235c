//! A bare Markdown parser.
//!
//! This parser strips all formatting from Markdown source code, returning
//! only the text of the markup. It completely removes link URLs, quoted text,
//! headers, image links, and other text accoutrement.
//!
//! This parser is primarily useful for returning stripped text suitable for
//! passing to an LLM.

use crate::markdown::{
    markdown_tree, mdast_children, mdast_kind, mdast_parse, mdast_value, mdast_view, MdKind,
    MdTree, MdastNode, Visitor,
};
use crate::text::{
    chars_of, convert_html_entities, html_entities_converted, push_all, replace_seq, replaced,
    string_of, trim_by, trim_end_by, trim_start_by, trimmed_newlines,
};
use vstd::prelude::*;

verus! {

/// The text emitted for a node before (or instead of) its children.
pub open spec fn bare_head(t: MdTree) -> Seq<char> {
    match t.kind {
        MdKind::Paragraph => seq!['\n'],
        MdKind::Text => replaced(replaced(t.value, seq!['>', '!'], seq![]), seq!['!', '<'], seq![]),
        MdKind::Break => seq![' '],
        MdKind::InlineCode => seq!['`'] + t.value + seq!['`'],
        MdKind::Code => seq!['\n', '\n'] + t.value + seq!['\n'],
        _ => seq![],
    }
}

/// True if the children of a node of kind `k` are rendered too: headings,
/// images and block quotes are dropped whole, and text, breaks and code
/// are rendered from the node alone.
pub open spec fn bare_descends(k: MdKind) -> bool {
    match k {
        MdKind::Text | MdKind::Break | MdKind::Heading | MdKind::Image | MdKind::Code
        | MdKind::Blockquote => false,
        _ => true,
    }
}

/// The bare rendering of a node.
pub open spec fn bare_node(t: MdTree) -> Seq<char>
    decreases t, 1nat,
{
    bare_head(t) + if bare_descends(t.kind) {
        bare_nodes(t.children)
    } else {
        seq![]
    }
}

/// The bare renderings of `ts`, one after another.
pub open spec fn bare_nodes(ts: Seq<MdTree>) -> Seq<char>
    decreases ts, 0nat,
{
    if ts.len() == 0 {
        seq![]
    } else {
        bare_nodes(ts.drop_last()) + bare_node(ts.last())
    }
}

/// The bare text of a whole tree: its rendering without leading and
/// trailing newlines.
pub open spec fn bare_text(t: MdTree) -> Seq<char> {
    trimmed_newlines(bare_node(t))
}

/// Converts Markdown markup into a string that has been stripped of nearly
/// all markup, including quoted text, headers, image links, and link URLs.
///
/// The result is suitable for passing to an LLM for further processing.
pub fn parse(markup: &str) -> (r: String)
    ensures
        r@ == bare_text(markdown_tree(html_entities_converted(markup@), true, true)),
{
    let converted = convert_html_entities(markup);
    MarkdownParser::new().parse(converted.as_str())
}

/// A reusable Markdown parser for stripping formatting and producing
/// bare output suitable for passing to an LLM.
pub struct MarkdownParser;

impl MarkdownParser {
    /// Creates a new Markdown parser.
    pub fn new() -> Self {
        MarkdownParser
    }

    /// Strips the formatting from `markup`, parsed with GFM strikethrough
    /// and autolinks.
    pub fn parse(&self, markup: &str) -> (r: String)
        ensures
            r@ == bare_text(markdown_tree(markup@, true, true)),
    {
        let tree = mdast_parse(markup, true, true);
        let mut visitor = MarkdownVisitor::new();
        visitor.visit(&tree);
        visitor.text()
    }
}

/// Emits the bare text of the nodes it visits.
pub struct MarkdownVisitor {
    text: Vec<char>,
}

impl MarkdownVisitor {
    /// The text emitted so far.
    pub closed spec fn emitted(&self) -> Seq<char> {
        self.text@
    }

    /// Creates a visitor that has emitted nothing.
    pub fn new() -> (v: Self)
        ensures
            v.emitted() == Seq::<char>::empty(),
    {
        MarkdownVisitor { text: Vec::new() }
    }


}

impl Visitor for MarkdownVisitor {
    open spec fn text_view(&self) -> Seq<char> {
        trimmed_newlines(self.emitted())
    }

    open spec fn visited(&self, node: MdTree, next: Self) -> bool {
        next.emitted() =~= self.emitted() + bare_node(node)
    }

    /// The generated text, without leading and trailing newlines.
    fn text(&self) -> (r: String)
        ensures
            r@ == trimmed_newlines(self.emitted()),
    {
        string_of(&trim_by(&self.text, true))
    }

    /// Visits `node` and its descendants, emitting their bare text.
    fn visit(&mut self, node: &MdastNode)
        ensures
            final(self).emitted() == old(self).emitted() + bare_node(mdast_view(*node)),
        decreases mdast_view(*node),
    {
        let ghost t = mdast_view(*node);
        let ghost start = self.text@;
        let kind = mdast_kind(node);
        match kind {
            MdKind::Paragraph => self.text.push('\n'),
            MdKind::Text => {
                let value = chars_of(mdast_value(node).as_str());
                let stripped = replace_seq(&value, &vec!['>', '!'], &vec![]);
                let stripped = replace_seq(&stripped, &vec!['!', '<'], &vec![]);
                push_all(&mut self.text, &stripped);
            },
            MdKind::Break => self.text.push(' '),
            MdKind::InlineCode => {
                let value = chars_of(mdast_value(node).as_str());
                self.text.push('`');
                push_all(&mut self.text, &value);
                self.text.push('`');
            },
            MdKind::Code => {
                let value = chars_of(mdast_value(node).as_str());
                self.text.push('\n');
                self.text.push('\n');
                push_all(&mut self.text, &value);
                self.text.push('\n');
            },
            _ => {},
        }
        assert(self.text@ =~= start + bare_head(t));
        if descends(kind) {
            let kids = mdast_children(node);
            for i in 0..kids.len()
                invariant
                    t == mdast_view(*node),
                    kids@.len() == t.children.len(),
                    forall|j: int| 0 <= j < kids@.len() ==> mdast_view(#[trigger] kids@[j]) == t.children[j],
                    self.text@ == start + bare_head(t) + bare_nodes(t.children.take(i as int)),
            {
                proof {
                    assert(t.children.take(i as int + 1).drop_last() =~= t.children.take(i as int));
                    assert(mdast_view(kids@[i as int]) == t.children[i as int]);
                }
                self.visit(&kids[i]);
            }
            assert(t.children.take(kids.len() as int) =~= t.children);
        }
    }
}


/// True if the children of a node of kind `k` are rendered too.
fn descends(k: MdKind) -> (b: bool)
    ensures
        b == bare_descends(k),
{
    match k {
        MdKind::Text | MdKind::Break | MdKind::Heading | MdKind::Image | MdKind::Code
        | MdKind::Blockquote => false,
        _ => true,
    }
}

/// Headings, block quotes and images are dropped whole from bare text.
pub proof fn lemma_bare_drops_headings_quotes_images(t: MdTree)
    requires
        t.kind == MdKind::Heading || t.kind == MdKind::Blockquote || t.kind == MdKind::Image,
    ensures
        bare_node(t) == Seq::<char>::empty(),
{
}

/// A link is reduced to its label in bare text: its URL is dropped.
pub proof fn lemma_bare_link_is_its_label(t: MdTree)
    requires
        t.kind == MdKind::Link,
    ensures
        bare_node(t) == bare_nodes(t.children),
{
}

/// Bare text neither starts nor ends with a line break.
pub proof fn lemma_bare_text_is_trimmed(t: MdTree)
    ensures
        bare_text(t).len() > 0 ==> bare_text(t)[0] != '\n' && bare_text(t).last() != '\n',
{
    crate::text::lemma_trimmed_edges(bare_node(t), true);
}

/// Removing a pattern from a text that lacks one of the pattern's
/// characters leaves the text as it is.
proof fn lemma_nothing_to_remove(s: Seq<char>, pat: Seq<char>, j: int)
    requires
        0 <= j < pat.len(),
        forall|i: int| 0 <= i < s.len() ==> #[trigger] s[i] != pat[j],
    ensures
        replaced(s, pat, seq![]) == s,
    decreases s.len(),
{
    if s.len() >= pat.len() {
        assert(s.take(pat.len() as int) != pat) by {
            assert(s.take(pat.len() as int)[j] == s[j]);
        }
        let rest = s.skip(1);
        assert forall|i: int| 0 <= i < rest.len() implies #[trigger] rest[i] != pat[j] by {
            assert(rest[i] == s[i + 1]);
        }
        lemma_nothing_to_remove(rest, pat, j);
        assert(Seq::<char>::empty() + seq![s[0]] + rest =~= s);
    }
}

/// A hard line break is a single space in bare text.
pub proof fn lemma_bare_break_is_a_space(t: MdTree)
    requires
        t.kind == MdKind::Break,
    ensures
        bare_node(t) == seq![' '],
{
    assert(seq![' '] + Seq::<char>::empty() =~= seq![' ']);
}

/// In bare text, a hard line break between two lines of a paragraph keeps
/// the lines apart by one space: the paragraph's bare text is the first
/// line, a space, and the second line (for lines without line breaks or
/// the `!` of spoiler markers).
pub proof fn lemma_bare_break_separates_lines(p: MdTree, a: MdTree, br: MdTree, b: MdTree)
    requires
        p.kind == MdKind::Paragraph,
        p.children == seq![a, br, b],
        a.kind == MdKind::Text,
        br.kind == MdKind::Break,
        b.kind == MdKind::Text,
        forall|i: int| 0 <= i < a.value.len() ==> #[trigger] a.value[i] != '\n' && a.value[i] != '!',
        forall|i: int| 0 <= i < b.value.len() ==> #[trigger] b.value[i] != '\n' && b.value[i] != '!',
    ensures
        bare_text(p) == a.value + seq![' '] + b.value,
{
    let open_spoiler = seq!['>', '!'];
    let close_spoiler = seq!['!', '<'];
    assert forall|i: int| 0 <= i < a.value.len() implies #[trigger] a.value[i] != open_spoiler[1] by {}
    lemma_nothing_to_remove(a.value, open_spoiler, 1);
    assert forall|i: int| 0 <= i < a.value.len() implies #[trigger] a.value[i] != close_spoiler[0] by {}
    lemma_nothing_to_remove(a.value, close_spoiler, 0);
    assert forall|i: int| 0 <= i < b.value.len() implies #[trigger] b.value[i] != open_spoiler[1] by {}
    lemma_nothing_to_remove(b.value, open_spoiler, 1);
    assert forall|i: int| 0 <= i < b.value.len() implies #[trigger] b.value[i] != close_spoiler[0] by {}
    lemma_nothing_to_remove(b.value, close_spoiler, 0);
    assert(bare_node(a) =~= a.value);
    assert(bare_node(br) =~= seq![' ']);
    assert(bare_node(b) =~= b.value);
    let kids = p.children;
    let s1 = seq![a];
    let s2 = seq![a, br];
    assert(s1.drop_last() =~= Seq::<MdTree>::empty());
    assert(s1.last() == a);
    assert(bare_nodes(s1) == bare_nodes(s1.drop_last()) + bare_node(a));
    assert(bare_nodes(s1) =~= a.value);
    assert(s2.drop_last() =~= s1);
    assert(s2.last() == br);
    assert(bare_nodes(s2) == bare_nodes(s1) + bare_node(br));
    assert(kids.drop_last() =~= s2);
    assert(kids.last() == b);
    assert(bare_nodes(kids) == bare_nodes(s2) + bare_node(b));
    assert(bare_nodes(kids) =~= a.value + seq![' '] + b.value);
    let line = a.value + seq![' '] + b.value;
    let node = seq!['\n'] + line;
    assert(bare_node(p) =~= node);
    assert(node.skip(1) =~= line);
    assert(trim_start_by(node, true) == trim_start_by(line, true));
    assert(line[0] != '\n') by {
        if a.value.len() > 0 {
            assert(line[0] == a.value[0]);
        }
    }
    assert(trim_start_by(line, true) == line);
    assert(line.last() != '\n') by {
        if b.value.len() > 0 {
            assert(line.last() == b.value[b.value.len() - 1]);
        }
    }
    assert(trim_end_by(line, true) == line);
}

} // verus!
