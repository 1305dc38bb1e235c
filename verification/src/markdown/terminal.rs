//! Markdown parsing engine for terminals.
//!
//! This parser is not a general Markdown parser; rather, it is specifically
//! designed to format Markdown source code for display on a terminal. Thus
//! the parser not only styles text according to some basic rules, but it
//! also wraps text to the width of the terminal, as specified when calling
//! [`parse()`].
//!
//! It is also designed to format text to the most basic of terminals, so it
//! does not fancy styling beyond underlined and bold ("bright") text.

use crate::markdown::{
    markdown_tree, mdast_children, mdast_kind, mdast_list, mdast_parse, mdast_url, mdast_value,
    mdast_view, MdKind, MdTree, MdastNode, Visitor,
};
use crate::text::{
    chars_of, contains_char, convert_html_entities, decimal, decimal_chars, fill, filled, pad_left_chars,
    html_entities_converted, joined, pad_left, push_all, replace_seq, replaced, spaces,
    string_of, trim_by, trimmed, trimmed_newlines, views, split_from, split_on,
    lemma_split_open_field, lemma_split_after_prefix,
};
use vstd::prelude::*;

verus! {

// Specification
// --------------------------------------------------------------------------

/// The ANSI "select graphic rendition" escape sequence for `code`.
pub open spec fn sgr(code: Seq<char>) -> Seq<char> {
    seq!['\u{1b}', '['] + code + seq!['m']
}

/// Two newlines.
pub open spec fn nl2() -> Seq<char> {
    seq!['\n', '\n']
}

/// Inside emphasised text (`outer_strong == false`) or strongly
/// emphasised text (`outer_strong == true`): the kind of node that opens a
/// nested style.
pub open spec fn inner_kind(outer_strong: bool) -> MdKind {
    if outer_strong {
        MdKind::Emphasis
    } else {
        MdKind::Strong
    }
}

/// The kind of node that continues the outer style.
pub open spec fn outer_kind(outer_strong: bool) -> MdKind {
    if outer_strong {
        MdKind::Strong
    } else {
        MdKind::Emphasis
    }
}

/// The code that opens the nested style.
pub open spec fn inner_open(outer_strong: bool) -> Seq<char> {
    if outer_strong {
        seq!['4']
    } else {
        seq!['1']
    }
}

/// The code that closes the nested style.
pub open spec fn inner_close(outer_strong: bool) -> Seq<char> {
    if outer_strong {
        seq!['2', '4']
    } else {
        seq!['2', '2']
    }
}

/// One step of the emphasis visitor: the text emitted so far and whether
/// the nested style started at the very beginning, after visiting `t`.
pub open spec fn emph_step(t: MdTree, st: (Seq<char>, bool), outer_strong: bool) -> (Seq<char>, bool)
    decreases t, 0nat,
{
    if t.kind == MdKind::Text {
        (st.0 + t.value, st.1)
    } else if t.kind == outer_kind(outer_strong) {
        emph_steps(t.children, st, outer_strong)
    } else if t.kind == inner_kind(outer_strong) {
        let st1 = if st.0.len() == 0 {
            (st.0, true)
        } else {
            (st.0 + sgr(inner_open(outer_strong)), st.1)
        };
        let st2 = emph_steps(t.children, st1, outer_strong);
        if !st2.1 {
            (st2.0 + sgr(inner_close(outer_strong)), st2.1)
        } else {
            st2
        }
    } else {
        st
    }
}

/// The emphasis visitor's state after visiting `ts` in order.
pub open spec fn emph_steps(ts: Seq<MdTree>, st: (Seq<char>, bool), outer_strong: bool) -> (Seq<char>, bool)
    decreases ts, 0nat,
{
    if ts.len() == 0 {
        st
    } else {
        emph_step(ts.last(), emph_steps(ts.drop_last(), st, outer_strong), outer_strong)
    }
}

/// The escape codes that open and close emphasised (`outer_strong ==
/// false`) or strongly emphasised text, given whether the nested style
/// started at the beginning.
pub open spec fn emph_codes(outer_strong: bool, nested_first: bool) -> (Seq<char>, Seq<char>) {
    if outer_strong {
        if nested_first {
            (seq!['1', ';', '4'], seq!['2', '4', ';', '2', '2'])
        } else {
            (seq!['1'], seq!['2', '2'])
        }
    } else {
        if nested_first {
            (seq!['4', ';', '1'], seq!['2', '2', ';', '2', '4'])
        } else {
            (seq!['4'], seq!['2', '4'])
        }
    }
}

/// The rendering of the children `ts` of an emphasis (`outer_strong ==
/// false`) or strong emphasis node: underlined or bright text.
pub open spec fn emph_text(ts: Seq<MdTree>, outer_strong: bool) -> Seq<char> {
    let st = emph_steps(ts, (seq![], false), outer_strong);
    let codes = emph_codes(outer_strong, st.1);
    sgr(codes.0) + trimmed(st.0) + sgr(codes.1)
}

/// The text of a link label node.
pub open spec fn link_node(t: MdTree) -> Seq<char>
    decreases t, 0nat,
{
    if t.kind == MdKind::Text || t.kind == MdKind::InlineCode {
        t.value
    } else {
        link_nodes(t.children)
    }
}

/// The text of link label nodes `ts`, one after another.
pub open spec fn link_nodes(ts: Seq<MdTree>) -> Seq<char>
    decreases ts, 0nat,
{
    if ts.len() == 0 {
        seq![]
    } else {
        link_nodes(ts.drop_last()) + link_node(ts.last())
    }
}

/// A link: its underlined label followed by its URL in angle brackets.
pub open spec fn link_markup(label: Seq<char>, url: Seq<char>) -> Seq<char> {
    sgr(seq!['4']) + label + sgr(seq!['2', '4']) + seq![' ', '<'] + url + seq!['>']
}

/// An image: its underlined URL.
pub open spec fn image_markup(url: Seq<char>) -> Seq<char> {
    sgr(seq!['4']) + url + sgr(seq!['2', '4'])
}

/// Inline code in backticks.
pub open spec fn inline_code_markup(code: Seq<char>) -> Seq<char> {
    seq!['`'] + code + seq!['`']
}

/// A code block: every line indented by four spaces.
pub open spec fn indented_code(code: Seq<char>) -> Seq<char> {
    spaces(4) + replaced(code, seq!['\n'], seq!['\n'] + spaces(4))
}

/// The fields of `code` split at line breaks, every field but the first
/// behind four spaces, the first one behind `current`.
pub open spec fn indented_fields(code: Seq<char>, current: Seq<char>) -> Seq<Seq<char>> {
    let fields = split_on(code, '\n');
    seq![current + fields[0]] + fields.skip(1).map_values(|f: Seq<char>| spaces(4) + f)
}

/// Four spaces hold no line break.
proof fn lemma_spaces_hold_no_break()
    ensures
        forall|i: int| 0 <= i < spaces(4).len() ==> #[trigger] spaces(4)[i] != '\n',
{
}

/// Putting four spaces after each line break of `code` puts them before
/// every line but the first.
proof fn lemma_indent_after_breaks(code: Seq<char>, current: Seq<char>)
    ensures
        split_from(replaced(code, seq!['\n'], seq!['\n'] + spaces(4)), '\n', current)
            == indented_fields(code, current),
    decreases code.len(),
{
    let pat = seq!['\n'];
    let rep = seq!['\n'] + spaces(4);
    lemma_split_open_field(code, '\n', seq![]);
    if code.len() == 0 {
        assert(split_on(code, '\n') == seq![Seq::<char>::empty()]);
        assert(current + Seq::<char>::empty() =~= current);
        assert(indented_fields(code, current) =~= seq![current]);
    } else {
        let rest = code.skip(1);
        let rrest = replaced(rest, pat, rep);
        let fs = split_on(rest, '\n');
        lemma_split_open_field(rest, '\n', seq![]);
        if code[0] == '\n' {
            assert(code.take(1) =~= pat);
            assert(replaced(code, pat, rep) == rep + rrest);
            assert((rep + rrest)[0] == '\n');
            assert((rep + rrest).skip(1) =~= spaces(4) + rrest);
            lemma_spaces_hold_no_break();
            lemma_split_after_prefix(spaces(4), rrest, '\n', seq![]);
            assert(Seq::<char>::empty() + spaces(4) =~= spaces(4));
            lemma_indent_after_breaks(rest, spaces(4));
            assert(split_on(code, '\n') == seq![Seq::<char>::empty()] + fs);
            assert(current + Seq::<char>::empty() =~= current);
            assert(indented_fields(code, current) =~= seq![current] + indented_fields(rest, spaces(4)));
        } else {
            assert(code.take(1) != pat) by {
                assert(code.take(1)[0] != pat[0]);
            }
            assert(replaced(code, pat, rep) == seq![code[0]] + rrest);
            assert((seq![code[0]] + rrest)[0] == code[0]);
            assert((seq![code[0]] + rrest).skip(1) =~= rrest);
            lemma_indent_after_breaks(rest, current.push(code[0]));
            lemma_split_open_field(rest, '\n', seq![code[0]]);
            assert(Seq::<char>::empty().push(code[0]) =~= seq![code[0]]);
            assert(split_on(code, '\n') == split_from(rest, '\n', seq![code[0]]));
            assert(current.push(code[0]) + fs[0] =~= current + (seq![code[0]] + fs[0]));
            assert(indented_fields(code, current) =~= indented_fields(rest, current.push(code[0])));
        }
    }
}

/// A code block is set off by a blank line and shows every line of its
/// code behind four spaces: split at line breaks, its rendering is two
/// empty fields, then each line of the code indented by four spaces.
pub proof fn lemma_code_block_indents_every_line(t: MdTree, width: usize)
    requires
        t.kind == MdKind::Code,
    ensures
        split_on(term_node(t, width), '\n') == seq![Seq::<char>::empty(), Seq::<char>::empty()]
            + split_on(t.value, '\n').map_values(|f: Seq<char>| spaces(4) + f),
{
    let code = t.value;
    let body = replaced(code, seq!['\n'], seq!['\n'] + spaces(4));
    let fields = split_on(code, '\n');
    assert(term_node(t, width) == nl2() + (spaces(4) + body));
    let whole = nl2() + (spaces(4) + body);
    assert(whole[0] == '\n' && whole[1] == '\n');
    assert(whole.skip(1) =~= seq!['\n'] + (spaces(4) + body));
    assert(whole.skip(1).skip(1) =~= spaces(4) + body);
    lemma_spaces_hold_no_break();
    lemma_split_after_prefix(spaces(4), body, '\n', seq![]);
    assert(Seq::<char>::empty() + spaces(4) =~= spaces(4));
    lemma_indent_after_breaks(code, spaces(4));
    lemma_split_open_field(code, '\n', seq![]);
    assert(split_on(whole, '\n') == seq![Seq::<char>::empty()] + split_from(whole.skip(1), '\n', seq![]));
    assert(split_from(whole.skip(1), '\n', seq![]) == seq![Seq::<char>::empty()] + split_from(
        whole.skip(1).skip(1),
        '\n',
        seq![],
    ));
    assert(indented_fields(code, spaces(4)) =~= fields.map_values(|f: Seq<char>| spaces(4) + f));
}

/// The text of a block quote node before wrapping.
pub open spec fn quote_node(t: MdTree) -> Seq<char>
    decreases t, 0nat,
{
    if t.kind == MdKind::Paragraph {
        nl2() + quote_nodes(t.children)
    } else if t.kind == MdKind::Text {
        t.value
    } else {
        seq![]
    }
}

/// The text of block quote nodes `ts`, one after another.
pub open spec fn quote_nodes(ts: Seq<MdTree>) -> Seq<char>
    decreases ts, 0nat,
{
    if ts.len() == 0 {
        seq![]
    } else {
        quote_nodes(ts.drop_last()) + quote_node(ts.last())
    }
}

/// The indent of every line of a block quote.
pub open spec fn quote_indent() -> Seq<char> {
    seq![' ', ' ', '|', ' ']
}

/// A block quote with children `ts`, wrapped to `width` with every line
/// marked by a pipe.
pub open spec fn quote_text(ts: Seq<MdTree>, width: usize) -> Seq<char> {
    filled(trimmed(quote_nodes(ts)), width, quote_indent(), quote_indent())
}

/// The first-line indent of an unordered list item.
pub open spec fn bullet_indent() -> Seq<char> {
    seq![' ', ' ', '*', ' ']
}

/// Unordered list items, each wrapped to `width` behind a bullet.
pub open spec fn mark_unordered(items: Seq<Seq<char>>, width: usize) -> Seq<char> {
    joined(
        Seq::new(items.len(), |i: int| filled(items[i], width, bullet_indent(), spaces(4))),
        seq!['\n'],
    )
}

/// The first-line indent of the ordered list item numbered `n`, with the
/// number right-aligned in `number_width` columns.
pub open spec fn ordered_indent(n: nat, number_width: nat) -> Seq<char> {
    seq![' ', ' '] + pad_left(decimal(n), number_width) + seq!['.', ' ']
}

/// Ordered list items numbered from `start`, each wrapped to `width`.
///
/// The numbers are right-aligned to as many columns as the count of items
/// has digits.
pub open spec fn mark_ordered(start: nat, items: Seq<Seq<char>>, width: usize) -> Seq<char> {
    let number_width = decimal(items.len()).len();
    joined(
        Seq::new(
            items.len(),
            |i: int|
                filled(
                    items[i],
                    width,
                    ordered_indent((start + i) as nat, number_width),
                    spaces(ordered_indent((start + i) as nat, number_width).len()),
                ),
        ),
        seq!['\n'],
    )
}

/// The number of the first item of a list whose `start` is given.
pub open spec fn list_start(start: Option<u32>) -> nat {
    match start {
        Some(n) => n as nat,
        None => 1,
    }
}

/// A list with children `ts`.
pub open spec fn list_text(ordered: bool, start: Option<u32>, ts: Seq<MdTree>, width: usize) -> Seq<char>
    decreases ts, 3nat,
{
    let items = list_items(ts, width);
    if ordered {
        mark_ordered(list_start(start), items, width)
    } else {
        mark_unordered(items, width)
    }
}

/// The texts of the list items found among `ts`, in order.
pub open spec fn list_items(ts: Seq<MdTree>, width: usize) -> Seq<Seq<char>>
    decreases ts, 2nat,
{
    if ts.len() == 0 {
        seq![]
    } else {
        list_items(ts.drop_last(), width) + list_node(ts.last(), width)
    }
}

/// The texts of the list items found at `t`: `t` itself if it is one,
/// else those among its descendants.
pub open spec fn list_node(t: MdTree, width: usize) -> Seq<Seq<char>>
    decreases t, 2nat,
{
    if t.kind == MdKind::ListItem {
        seq![item_nodes(t.children, width)]
    } else {
        list_items(t.children, width)
    }
}

/// `s` with every double newline collapsed to a single one, as list items
/// emit their pushed text.
pub open spec fn collapsed(s: Seq<char>) -> Seq<char> {
    replaced(s, nl2(), seq!['\n'])
}

/// The text of list item nodes `ts`, one after another.
pub open spec fn item_nodes(ts: Seq<MdTree>, width: usize) -> Seq<char>
    decreases ts, 2nat,
{
    if ts.len() == 0 {
        seq![]
    } else {
        item_nodes(ts.drop_last(), width) + item_node(ts.last(), width)
    }
}

/// The text of a node inside a list item.
pub open spec fn item_node(t: MdTree, width: usize) -> Seq<char>
    decreases t, 2nat,
{
    match t.kind {
        MdKind::Text => t.value,
        MdKind::Emphasis => collapsed(emph_text(t.children, false)),
        MdKind::Strong => collapsed(emph_text(t.children, true)),
        MdKind::Link => collapsed(link_markup(link_nodes(t.children), t.url)),
        MdKind::Image => collapsed(image_markup(t.url)),
        MdKind::InlineCode => collapsed(inline_code_markup(t.value)) + item_nodes(t.children, width),
        MdKind::Html => (if t.value.contains('\n') {
            seq!['\n']
        } else {
            seq![]
        }) + collapsed(t.value) + item_nodes(t.children, width),
        MdKind::List => seq!['\n'] + collapsed(list_text(t.ordered, t.start, t.children, width)),
        _ => item_nodes(t.children, width),
    }
}

/// The rendering of a node by the main visitor, before wrapping.
pub open spec fn term_node(t: MdTree, width: usize) -> Seq<char>
    decreases t, 0nat,
{
    match t.kind {
        MdKind::Root => term_nodes(t.children, width),
        MdKind::Paragraph => nl2() + term_nodes(t.children, width),
        MdKind::Text => t.value,
        MdKind::Break => seq!['\n'],
        MdKind::Emphasis => emph_text(t.children, false),
        MdKind::Strong => emph_text(t.children, true),
        MdKind::Heading => sgr(seq!['1']) + term_nodes(t.children, width) + sgr(seq!['2', '2']),
        MdKind::Link => link_markup(link_nodes(t.children), t.url),
        MdKind::Image => image_markup(t.url),
        MdKind::InlineCode => inline_code_markup(t.value) + term_nodes(t.children, width),
        MdKind::Html => (if t.value.contains('\n') {
            nl2()
        } else {
            seq![]
        }) + t.value + term_nodes(t.children, width),
        MdKind::ThematicBreak => Seq::new(width as nat, |i: int| '-'),
        MdKind::List => nl2() + list_text(t.ordered, t.start, t.children, width),
        MdKind::Code => nl2() + indented_code(t.value),
        MdKind::Blockquote => nl2() + quote_text(t.children, width),
        _ => seq![],
    }
}

/// The renderings of `ts` by the main visitor, one after another.
pub open spec fn term_nodes(ts: Seq<MdTree>, width: usize) -> Seq<char>
    decreases ts, 0nat,
{
    if ts.len() == 0 {
        seq![]
    } else {
        term_nodes(ts.drop_last(), width) + term_node(ts.last(), width)
    }
}

/// The terminal text of a whole tree: its rendering without leading and
/// trailing newlines, wrapped to `width`.
pub open spec fn term_text(t: MdTree, width: usize) -> Seq<char> {
    filled(trimmed_newlines(term_node(t, width)), width, seq![], seq![])
}


// Implementation
// --------------------------------------------------------------------------

/// Appends the escape sequence for `code` to `out`.
fn push_sgr(out: &mut Vec<char>, code: &Vec<char>)
    ensures
        final(out)@ == old(out)@ + sgr(code@),
{
    out.push('\u{1b}');
    out.push('[');
    push_all(out, code);
    out.push('m');
    assert(out@ =~= old(out)@ + sgr(code@));
}

/// The literal text of `node`, as characters.
fn value_of(node: &MdastNode) -> (v: Vec<char>)
    ensures
        v@ == mdast_view(*node).value,
{
    chars_of(mdast_value(node).as_str())
}

/// Visits `node` with the emphasis visitor whose state is `text` and `flag`.
fn emph_visit(node: &MdastNode, text: &mut Vec<char>, flag: &mut bool, outer_strong: bool)
    ensures
        final(text)@ == emph_step(mdast_view(*node), (old(text)@, *old(flag)), outer_strong).0,
        *final(flag) == emph_step(mdast_view(*node), (old(text)@, *old(flag)), outer_strong).1,
    decreases mdast_view(*node), 1nat,
{
    let ghost t = mdast_view(*node);
    let ghost st = (text@, *flag);
    let kind = mdast_kind(node);
    let outer = if outer_strong {
        MdKind::Strong
    } else {
        MdKind::Emphasis
    };
    let inner = if outer_strong {
        MdKind::Emphasis
    } else {
        MdKind::Strong
    };
    assert(outer == outer_kind(outer_strong));
    assert(inner == inner_kind(outer_strong));
    if kind == MdKind::Text {
        push_all(text, &value_of(node));
    } else if kind == outer {
        emph_visit_children(node, text, flag, outer_strong);
    } else if kind == inner {
        if text.len() == 0 {
            *flag = true;
        } else {
            let open = if outer_strong {
                vec!['4']
            } else {
                vec!['1']
            };
            assert(open@ =~= inner_open(outer_strong));
            push_sgr(text, &open);
        }
        let ghost st1 = (text@, *flag);
        assert(st1 == (if st.0.len() == 0 {
            (st.0, true)
        } else {
            (st.0 + sgr(inner_open(outer_strong)), st.1)
        }));
        emph_visit_children(node, text, flag, outer_strong);
        if !*flag {
            let close = if outer_strong {
                vec!['2', '4']
            } else {
                vec!['2', '2']
            };
            assert(close@ =~= inner_close(outer_strong));
            push_sgr(text, &close);
        }
    }
}

/// Visits the children of `node` with the emphasis visitor.
fn emph_visit_children(node: &MdastNode, text: &mut Vec<char>, flag: &mut bool, outer_strong: bool)
    ensures
        final(text)@ == emph_steps(mdast_view(*node).children, (old(text)@, *old(flag)), outer_strong).0,
        *final(flag) == emph_steps(mdast_view(*node).children, (old(text)@, *old(flag)), outer_strong).1,
    decreases mdast_view(*node), 0nat,
{
    let ghost t = mdast_view(*node);
    let ghost st0 = (text@, *flag);
    let kids = mdast_children(node);
    for i in 0..kids.len()
        invariant
            t == mdast_view(*node),
            kids@.len() == t.children.len(),
            forall|j: int| 0 <= j < kids@.len() ==> mdast_view(#[trigger] kids@[j]) == t.children[j],
            (text@, *flag) == emph_steps(t.children.take(i as int), st0, outer_strong),
    {
        proof {
            assert(t.children.take(i as int + 1).drop_last() =~= t.children.take(i as int));
            assert(mdast_view(kids@[i as int]) == t.children[i as int]);
        }
        emph_visit(&kids[i], text, flag, outer_strong);
    }
    assert(t.children.take(kids.len() as int) =~= t.children);
}

/// The rendering of the children of an emphasis (`outer_strong == false`)
/// or strong emphasis node.
fn emph_text_of(node: &MdastNode, outer_strong: bool) -> (r: Vec<char>)
    ensures
        r@ == emph_text(mdast_view(*node).children, outer_strong),
{
    let mut text: Vec<char> = Vec::new();
    let mut flag = false;
    emph_visit_children(node, &mut text, &mut flag, outer_strong);
    let open = if outer_strong {
        if flag {
            vec!['1', ';', '4']
        } else {
            vec!['1']
        }
    } else {
        if flag {
            vec!['4', ';', '1']
        } else {
            vec!['4']
        }
    };
    let close = if outer_strong {
        if flag {
            vec!['2', '4', ';', '2', '2']
        } else {
            vec!['2', '2']
        }
    } else {
        if flag {
            vec!['2', '2', ';', '2', '4']
        } else {
            vec!['2', '4']
        }
    };
    let mut r: Vec<char> = Vec::new();
    push_sgr(&mut r, &open);
    push_all(&mut r, &trim_by(&text, false));
    push_sgr(&mut r, &close);
    r
}

/// Appends the link label text of `node` to `text`.
fn link_visit(node: &MdastNode, text: &mut Vec<char>)
    ensures
        final(text)@ == old(text)@ + link_node(mdast_view(*node)),
    decreases mdast_view(*node), 1nat,
{
    let kind = mdast_kind(node);
    if kind == MdKind::Text || kind == MdKind::InlineCode {
        push_all(text, &value_of(node));
    } else {
        link_visit_children(node, text);
    }
}

/// Appends the link label text of the children of `node` to `text`.
fn link_visit_children(node: &MdastNode, text: &mut Vec<char>)
    ensures
        final(text)@ == old(text)@ + link_nodes(mdast_view(*node).children),
    decreases mdast_view(*node), 0nat,
{
    let ghost t = mdast_view(*node);
    let ghost start = text@;
    let kids = mdast_children(node);
    for i in 0..kids.len()
        invariant
            t == mdast_view(*node),
            kids@.len() == t.children.len(),
            forall|j: int| 0 <= j < kids@.len() ==> mdast_view(#[trigger] kids@[j]) == t.children[j],
            text@ == start + link_nodes(t.children.take(i as int)),
    {
        proof {
            assert(t.children.take(i as int + 1).drop_last() =~= t.children.take(i as int));
            assert(mdast_view(kids@[i as int]) == t.children[i as int]);
        }
        link_visit(&kids[i], text);
    }
    assert(t.children.take(kids.len() as int) =~= t.children);
}

/// The markup of a link with the label given by the children of `node`.
fn link_text_of(node: &MdastNode) -> (r: Vec<char>)
    ensures
        r@ == link_markup(link_nodes(mdast_view(*node).children), mdast_view(*node).url),
{
    let mut label: Vec<char> = Vec::new();
    link_visit_children(node, &mut label);
    let url = chars_of(mdast_url(node).as_str());
    let mut r: Vec<char> = Vec::new();
    push_sgr(&mut r, &vec!['4']);
    push_all(&mut r, &label);
    push_sgr(&mut r, &vec!['2', '4']);
    r.push(' ');
    r.push('<');
    push_all(&mut r, &url);
    r.push('>');
    assert(r@ =~= link_markup(label@, url@));
    r
}

/// The markup of the image `node`.
fn image_text_of(node: &MdastNode) -> (r: Vec<char>)
    ensures
        r@ == image_markup(mdast_view(*node).url),
{
    let url = chars_of(mdast_url(node).as_str());
    let mut r: Vec<char> = Vec::new();
    push_sgr(&mut r, &vec!['4']);
    push_all(&mut r, &url);
    push_sgr(&mut r, &vec!['2', '4']);
    r
}

/// The markup of the inline code `node`.
fn inline_code_of(node: &MdastNode) -> (r: Vec<char>)
    ensures
        r@ == inline_code_markup(mdast_view(*node).value),
{
    let mut r: Vec<char> = Vec::new();
    r.push('`');
    push_all(&mut r, &value_of(node));
    r.push('`');
    assert(r@ =~= inline_code_markup(mdast_view(*node).value));
    r
}

/// Appends the block quote text of `node` to `text`.
fn quote_visit(node: &MdastNode, text: &mut Vec<char>)
    ensures
        final(text)@ == old(text)@ + quote_node(mdast_view(*node)),
    decreases mdast_view(*node), 1nat,
{
    let kind = mdast_kind(node);
    if kind == MdKind::Paragraph {
        text.push('\n');
        text.push('\n');
        quote_visit_children(node, text);
        assert(text@ =~= old(text)@ + quote_node(mdast_view(*node)));
    } else if kind == MdKind::Text {
        push_all(text, &value_of(node));
    }
}

/// Appends the block quote text of the children of `node` to `text`.
fn quote_visit_children(node: &MdastNode, text: &mut Vec<char>)
    ensures
        final(text)@ == old(text)@ + quote_nodes(mdast_view(*node).children),
    decreases mdast_view(*node), 0nat,
{
    let ghost t = mdast_view(*node);
    let ghost start = text@;
    let kids = mdast_children(node);
    for i in 0..kids.len()
        invariant
            t == mdast_view(*node),
            kids@.len() == t.children.len(),
            forall|j: int| 0 <= j < kids@.len() ==> mdast_view(#[trigger] kids@[j]) == t.children[j],
            text@ == start + quote_nodes(t.children.take(i as int)),
    {
        proof {
            assert(t.children.take(i as int + 1).drop_last() =~= t.children.take(i as int));
            assert(mdast_view(kids@[i as int]) == t.children[i as int]);
        }
        quote_visit(&kids[i], text);
    }
    assert(t.children.take(kids.len() as int) =~= t.children);
}

/// The block quote whose children are those of `node`, wrapped to `width`.
fn quote_text_of(node: &MdastNode, width: usize) -> (r: Vec<char>)
    ensures
        r@ == quote_text(mdast_view(*node).children, width),
{
    let mut text: Vec<char> = Vec::new();
    quote_visit_children(node, &mut text);
    let indent = string_of(&vec![' ', ' ', '|', ' ']);
    let wrapped = fill(string_of(&trim_by(&text, false)).as_str(), width, indent.as_str(), indent.as_str());
    chars_of(wrapped.as_str())
}



/// The kind of list being marked up.
pub enum ListType {
    Unordered,
    Ordered(u32),
}

impl ListType {
    /// The rendering of list items `items` under this list type.
    pub open spec fn marked(&self, items: Seq<Seq<char>>, width: usize) -> Seq<char> {
        match self {
            ListType::Unordered => mark_unordered(items, width),
            ListType::Ordered(start) => mark_ordered(*start as nat, items, width),
        }
    }

    /// Marks up and wraps `list_items` to `textwidth`.
    pub fn mark(&self, list_items: &Vec<Vec<char>>, textwidth: usize) -> (r: Vec<char>)
        ensures
            r@ == self.marked(views(list_items@), textwidth),
    {
        match self {
            ListType::Ordered(start) => self.mark_ordered(*start, list_items, textwidth),
            ListType::Unordered => self.mark_unordered(list_items, textwidth),
        }
    }

    fn mark_unordered(&self, list_items: &Vec<Vec<char>>, textwidth: usize) -> (r: Vec<char>)
        ensures
            r@ == mark_unordered(views(list_items@), textwidth),
    {
        let ghost items = views(list_items@);
        let ghost lines = Seq::new(items.len(), |i: int| filled(items[i], textwidth, bullet_indent(), spaces(4)));
        let initial = string_of(&vec![' ', ' ', '*', ' ']);
        let subsequent = string_of(&vec![' ', ' ', ' ', ' ']);
        assert(subsequent@ =~= spaces(4));
        let mut r: Vec<char> = Vec::new();
        for k in 0..list_items.len()
            invariant
                items == views(list_items@),
                lines == Seq::new(items.len(), |i: int| filled(items[i], textwidth, bullet_indent(), spaces(4))),
                initial@ == bullet_indent(),
                subsequent@ == spaces(4),
                r@ == joined(lines.take(k as int), seq!['\n']),
        {
            proof {
                crate::text::lemma_joined_step(lines, seq!['\n'], k as int);
            }
            if k > 0 {
                r.push('\n');
            }
            let line = fill(string_of(&list_items[k]).as_str(), textwidth, initial.as_str(), subsequent.as_str());
            push_all(&mut r, &chars_of(line.as_str()));
            assert(r@ =~= joined(lines.take(k as int + 1), seq!['\n']));
        }
        assert(lines.take(list_items.len() as int) =~= lines);
        r
    }

    fn mark_ordered(&self, start: u32, list_items: &Vec<Vec<char>>, textwidth: usize) -> (r: Vec<char>)
        ensures
            r@ == mark_ordered(start as nat, views(list_items@), textwidth),
    {
        let ghost items = views(list_items@);
        let number_width = decimal_chars(list_items.len() as u128).len();
        let ghost lines = Seq::new(
            items.len(),
            |i: int|
                filled(
                    items[i],
                    textwidth,
                    ordered_indent((start + i) as nat, number_width as nat),
                    spaces(ordered_indent((start + i) as nat, number_width as nat).len()),
                ),
        );
        let mut r: Vec<char> = Vec::new();
        let mut n: u128 = start as u128;
        for k in 0..list_items.len()
            invariant
                items == views(list_items@),
                number_width == decimal(items.len()).len(),
                lines == Seq::new(
                    items.len(),
                    |i: int|
                        filled(
                            items[i],
                            textwidth,
                            ordered_indent((start + i) as nat, number_width as nat),
                            spaces(ordered_indent((start + i) as nat, number_width as nat).len()),
                        ),
                ),
                n == start + k,
                r@ == joined(lines.take(k as int), seq!['\n']),
        {
            proof {
                crate::text::lemma_joined_step(lines, seq!['\n'], k as int);
            }
            if k > 0 {
                r.push('\n');
            }
            let mut indent: Vec<char> = vec![' ', ' '];
            push_all(&mut indent, &pad_left_chars(&decimal_chars(n), number_width));
            indent.push('.');
            indent.push(' ');
            assert(indent@ =~= ordered_indent((start + k) as nat, number_width as nat));
            let mut subsequent: Vec<char> = Vec::new();
            crate::text::push_repeated(&mut subsequent, ' ', indent.len());
            assert(subsequent@ =~= spaces(indent@.len()));
            let line = fill(
                string_of(&list_items[k]).as_str(),
                textwidth,
                string_of(&indent).as_str(),
                string_of(&subsequent).as_str(),
            );
            push_all(&mut r, &chars_of(line.as_str()));
            n = n + 1;
            assert(r@ =~= joined(lines.take(k as int + 1), seq!['\n']));
        }
        assert(lines.take(list_items.len() as int) =~= lines);
        r
    }
}


/// Appends the list items found at `node` to `items`.
fn list_visit(node: &MdastNode, items: &mut Vec<Vec<char>>, width: usize)
    ensures
        views(final(items)@) == views(old(items)@) + list_node(mdast_view(*node), width),
    decreases mdast_view(*node), 3nat,
{
    let ghost t = mdast_view(*node);
    if mdast_kind(node) == MdKind::ListItem {
        let mut text: Vec<char> = Vec::new();
        item_visit_children(node, &mut text, width);
        let ghost before = items@;
        items.push(text);
        assert(views(items@) =~= views(before) + seq![text@]);
    } else {
        list_visit_children(node, items, width);
    }
}

/// Appends the list items found among the children of `node` to `items`.
fn list_visit_children(node: &MdastNode, items: &mut Vec<Vec<char>>, width: usize)
    ensures
        views(final(items)@) == views(old(items)@) + list_items(mdast_view(*node).children, width),
    decreases mdast_view(*node), 1nat,
{
    let ghost t = mdast_view(*node);
    let ghost start = views(items@);
    let kids = mdast_children(node);
    for i in 0..kids.len()
        invariant
            t == mdast_view(*node),
            kids@.len() == t.children.len(),
            forall|j: int| 0 <= j < kids@.len() ==> mdast_view(#[trigger] kids@[j]) == t.children[j],
            views(items@) == start + list_items(t.children.take(i as int), width),
    {
        proof {
            assert(t.children.take(i as int + 1).drop_last() =~= t.children.take(i as int));
            assert(mdast_view(kids@[i as int]) == t.children[i as int]);
        }
        list_visit(&kids[i], items, width);
        assert(views(items@) =~= start + list_items(t.children.take(i as int + 1), width));
    }
    assert(t.children.take(kids.len() as int) =~= t.children);
}

/// The list whose items are found among the children of the list `node`.
fn list_text_of(node: &MdastNode, width: usize) -> (r: Vec<char>)
    ensures
        r@ == list_text(mdast_view(*node).ordered, mdast_view(*node).start, mdast_view(*node).children, width),
    decreases mdast_view(*node), 2nat,
{
    let (ordered, start) = mdast_list(node);
    let list_type = if ordered {
        ListType::Ordered(
            match start {
                Some(n) => n,
                None => 1,
            },
        )
    } else {
        ListType::Unordered
    };
    let mut items: Vec<Vec<char>> = Vec::new();
    assert(views(items@) =~= Seq::<Seq<char>>::empty());
    list_visit_children(node, &mut items, width);
    assert(views(items@) =~= list_items(mdast_view(*node).children, width));
    list_type.mark(&items, width)
}

/// Appends `pushed` to `text` as a list item does: with every double
/// newline collapsed to one.
fn push_collapsed(text: &mut Vec<char>, pushed: &Vec<char>)
    ensures
        final(text)@ == old(text)@ + collapsed(pushed@),
{
    let pat = vec!['\n', '\n'];
    assert(pat@ =~= nl2());
    let rep = vec!['\n'];
    assert(rep@ =~= seq!['\n']);
    let c = replace_seq(pushed, &pat, &rep);
    push_all(text, &c);
}

/// Appends the list item text of `node` to `text`.
fn item_visit(node: &MdastNode, text: &mut Vec<char>, width: usize)
    ensures
        final(text)@ == old(text)@ + item_node(mdast_view(*node), width),
    decreases mdast_view(*node), 3nat,
{
    let ghost t = mdast_view(*node);
    let ghost start = text@;
    let kind = mdast_kind(node);
    match kind {
        MdKind::Text => push_all(text, &value_of(node)),
        MdKind::Emphasis => push_collapsed(text, &emph_text_of(node, false)),
        MdKind::Strong => push_collapsed(text, &emph_text_of(node, true)),
        MdKind::Link => push_collapsed(text, &link_text_of(node)),
        MdKind::Image => push_collapsed(text, &image_text_of(node)),
        MdKind::InlineCode => {
            push_collapsed(text, &inline_code_of(node));
            item_visit_children(node, text, width);
        },
        MdKind::Html => {
            let value = value_of(node);
            if contains_char(&value, '\n') {
                text.push('\n');
            }
            push_collapsed(text, &value);
            item_visit_children(node, text, width);
        },
        MdKind::List => {
            text.push('\n');
            push_collapsed(text, &list_text_of(node, width));
        },
        _ => item_visit_children(node, text, width),
    }
    assert(text@ =~= start + item_node(t, width));
}

/// Appends the list item text of the children of `node` to `text`.
fn item_visit_children(node: &MdastNode, text: &mut Vec<char>, width: usize)
    ensures
        final(text)@ == old(text)@ + item_nodes(mdast_view(*node).children, width),
    decreases mdast_view(*node), 1nat,
{
    let ghost t = mdast_view(*node);
    let ghost start = text@;
    let kids = mdast_children(node);
    for i in 0..kids.len()
        invariant
            t == mdast_view(*node),
            kids@.len() == t.children.len(),
            forall|j: int| 0 <= j < kids@.len() ==> mdast_view(#[trigger] kids@[j]) == t.children[j],
            text@ == start + item_nodes(t.children.take(i as int), width),
    {
        proof {
            assert(t.children.take(i as int + 1).drop_last() =~= t.children.take(i as int));
            assert(mdast_view(kids@[i as int]) == t.children[i as int]);
        }
        item_visit(&kids[i], text, width);
    }
    assert(t.children.take(kids.len() as int) =~= t.children);
}


/// Converts Markdown markup into a formatted string suitable for output on
/// a terminal.
///
/// `markup` is the raw Markdown source code. `textwidth` is the column at
/// which text should be wrapped for display on a terminal.
pub fn parse(markup: &str, textwidth: usize) -> (r: String)
    ensures
        r@ == term_text(markdown_tree(html_entities_converted(markup@), false, false), textwidth),
{
    let converted = convert_html_entities(markup);
    MarkdownParser::new(textwidth).parse(converted.as_str())
}

/// A reusable Markdown parser for formatting text suitable for output in a terminal.
pub struct MarkdownParser {
    textwidth: usize,
}

impl MarkdownParser {
    /// The column at which this parser wraps text.
    pub closed spec fn width(&self) -> usize {
        self.textwidth
    }

    /// Creates a new Markdown parser that will format text to the given width.
    pub fn new(textwidth: usize) -> (p: Self)
        ensures
            p.width() == textwidth,
    {
        MarkdownParser { textwidth }
    }

    /// Converts Markdown markup into a formatted string, parsed with
    /// autolinks off.
    pub fn parse(&self, markup: &str) -> (r: String)
        ensures
            r@ == term_text(markdown_tree(markup@, false, false), self.width()),
    {
        let tree = mdast_parse(markup, false, false);
        let mut visitor = MarkdownVisitor::new(self.textwidth);
        visitor.visit(&tree);
        visitor.text()
    }
}

/// The main Markdown code generator.
pub struct MarkdownVisitor {
    text: Vec<char>,
    textwidth: usize,
}

impl MarkdownVisitor {
    /// The text emitted so far.
    pub closed spec fn emitted(&self) -> Seq<char> {
        self.text@
    }

    /// The column at which the generated text is wrapped.
    pub closed spec fn width(&self) -> usize {
        self.textwidth
    }

    /// Creates a generator that has emitted nothing and wraps at `textwidth`.
    pub fn new(textwidth: usize) -> (v: Self)
        ensures
            v.emitted() == Seq::<char>::empty(),
            v.width() == textwidth,
    {
        MarkdownVisitor { text: Vec::new(), textwidth }
    }



    /// Visits the children of `node`, emitting their renderings.
    pub fn visit_children(&mut self, node: &MdastNode)
        ensures
            final(self).width() == old(self).width(),
            final(self).emitted() == old(self).emitted() + term_nodes(mdast_view(*node).children, old(self).width()),
        decreases mdast_view(*node), 0nat,
    {
        let ghost t = mdast_view(*node);
        let ghost start = self.text@;
        let ghost width = self.textwidth;
        let kids = mdast_children(node);
        for i in 0..kids.len()
            invariant
                t == mdast_view(*node),
                kids@.len() == t.children.len(),
                forall|j: int| 0 <= j < kids@.len() ==> mdast_view(#[trigger] kids@[j]) == t.children[j],
                self.textwidth == width,
                self.text@ == start + term_nodes(t.children.take(i as int), width),
        {
            proof {
                assert(t.children.take(i as int + 1).drop_last() =~= t.children.take(i as int));
                assert(mdast_view(kids@[i as int]) == t.children[i as int]);
            }
            self.visit(&kids[i]);
        }
        assert(t.children.take(kids.len() as int) =~= t.children);
    }
}

impl Visitor for MarkdownVisitor {
    open spec fn text_view(&self) -> Seq<char> {
        filled(trimmed_newlines(self.emitted()), self.width(), seq![], seq![])
    }

    open spec fn visited(&self, node: MdTree, next: Self) -> bool {
        &&& next.width() == self.width()
        &&& next.emitted() =~= self.emitted() + term_node(node, self.width())
    }

    /// The generated text, without leading and trailing newlines, wrapped.
    fn text(&self) -> (r: String)
        ensures
            r@ == filled(trimmed_newlines(self.emitted()), self.width(), seq![], seq![]),
    {
        let trimmed_text = string_of(&trim_by(&self.text, true));
        let none = String::new();
        fill(trimmed_text.as_str(), self.textwidth, none.as_str(), none.as_str())
    }

    /// Visits `node`, emitting its rendering.
    fn visit(&mut self, node: &MdastNode)
        ensures
            final(self).width() == old(self).width(),
            final(self).emitted() == old(self).emitted() + term_node(mdast_view(*node), old(self).width()),
        decreases mdast_view(*node), 1nat,
    {
        let ghost t = mdast_view(*node);
        let ghost start = self.text@;
        let width = self.textwidth;
        let kind = mdast_kind(node);
        match kind {
            MdKind::Root => self.visit_children(node),
            MdKind::Paragraph => {
                self.text.push('\n');
                self.text.push('\n');
                self.visit_children(node);
            },
            MdKind::Text => push_all(&mut self.text, &value_of(node)),
            MdKind::Break => self.text.push('\n'),
            MdKind::Emphasis => push_all(&mut self.text, &emph_text_of(node, false)),
            MdKind::Strong => push_all(&mut self.text, &emph_text_of(node, true)),
            MdKind::Heading => {
                push_sgr(&mut self.text, &vec!['1']);
                self.visit_children(node);
                push_sgr(&mut self.text, &vec!['2', '2']);
            },
            MdKind::Link => push_all(&mut self.text, &link_text_of(node)),
            MdKind::Image => push_all(&mut self.text, &image_text_of(node)),
            MdKind::InlineCode => {
                push_all(&mut self.text, &inline_code_of(node));
                self.visit_children(node);
            },
            MdKind::Html => {
                let value = value_of(node);
                if contains_char(&value, '\n') {
                    self.text.push('\n');
                    self.text.push('\n');
                }
                push_all(&mut self.text, &value);
                self.visit_children(node);
            },
            MdKind::ThematicBreak => {
                crate::text::push_repeated(&mut self.text, '-', width);
                assert(self.text@ =~= start + Seq::new(width as nat, |i: int| '-'));
            },
            MdKind::List => {
                self.text.push('\n');
                self.text.push('\n');
                push_all(&mut self.text, &list_text_of(node, width));
            },
            MdKind::Code => {
                self.text.push('\n');
                self.text.push('\n');
                let pat = vec!['\n'];
                let rep = vec!['\n', ' ', ' ', ' ', ' '];
                assert(pat@ =~= seq!['\n']);
                assert(rep@ =~= seq!['\n'] + spaces(4));
                crate::text::push_repeated(&mut self.text, ' ', 4);
                push_all(&mut self.text, &replace_seq(&value_of(node), &pat, &rep));
                assert(Seq::new(4nat, |i: int| ' ') =~= spaces(4));
            },
            MdKind::Blockquote => {
                self.text.push('\n');
                self.text.push('\n');
                push_all(&mut self.text, &quote_text_of(node, width));
            },
            _ => {},
        }
        assert(self.text@ =~= start + term_node(t, width));
    }
}



/// Renders the children of an emphasis node: underlined text, with nested
/// strong emphasis made bright.
pub struct MarkdownEmphasisVisitor {
    text: Vec<char>,
    in_strong: bool,
}

impl MarkdownEmphasisVisitor {
    /// The text gathered so far, and whether strong emphasis opened it.
    pub closed spec fn state(&self) -> (Seq<char>, bool) {
        (self.text@, self.in_strong)
    }

    /// Creates a visitor that has gathered nothing.
    pub fn new() -> (v: Self)
        ensures
            v.state() == (Seq::<char>::empty(), false),
    {
        MarkdownEmphasisVisitor { text: Vec::new(), in_strong: false }
    }


}

impl Visitor for MarkdownEmphasisVisitor {
    open spec fn text_view(&self) -> Seq<char> {
        sgr(emph_codes(false, self.state().1).0) + trimmed(self.state().0) + sgr(emph_codes(false, self.state().1).1)
    }

    open spec fn visited(&self, node: MdTree, next: Self) -> bool {
        &&& next.state().0 =~= emph_step(node, self.state(), false).0
        &&& next.state().1 == emph_step(node, self.state(), false).1
    }

    /// The underlined text.
    fn text(&self) -> (r: String)
        ensures
            r@ == sgr(emph_codes(false, self.state().1).0) + trimmed(self.state().0) + sgr(
                emph_codes(false, self.state().1).1,
            ),
    {
        let mut r: Vec<char> = Vec::new();
        if self.in_strong {
            push_sgr(&mut r, &vec!['4', ';', '1']);
        } else {
            push_sgr(&mut r, &vec!['4']);
        }
        push_all(&mut r, &trim_by(&self.text, false));
        if self.in_strong {
            push_sgr(&mut r, &vec!['2', '2', ';', '2', '4']);
        } else {
            push_sgr(&mut r, &vec!['2', '4']);
        }
        string_of(&r)
    }

    /// Visits `node`.
    fn visit(&mut self, node: &MdastNode)
        ensures
            final(self).state() == emph_step(mdast_view(*node), old(self).state(), false),
    {
        emph_visit(node, &mut self.text, &mut self.in_strong, false);
    }
}


/// Renders the children of a strong emphasis node: bright text, with
/// nested emphasis underlined.
pub struct MarkdownStrongEmphasisVisitor {
    text: Vec<char>,
    in_emphasis: bool,
}

impl MarkdownStrongEmphasisVisitor {
    /// The text gathered so far, and whether emphasis opened it.
    pub closed spec fn state(&self) -> (Seq<char>, bool) {
        (self.text@, self.in_emphasis)
    }

    /// Creates a visitor that has gathered nothing.
    pub fn new() -> (v: Self)
        ensures
            v.state() == (Seq::<char>::empty(), false),
    {
        MarkdownStrongEmphasisVisitor { text: Vec::new(), in_emphasis: false }
    }


}

impl Visitor for MarkdownStrongEmphasisVisitor {
    open spec fn text_view(&self) -> Seq<char> {
        sgr(emph_codes(true, self.state().1).0) + trimmed(self.state().0) + sgr(emph_codes(true, self.state().1).1)
    }

    open spec fn visited(&self, node: MdTree, next: Self) -> bool {
        &&& next.state().0 =~= emph_step(node, self.state(), true).0
        &&& next.state().1 == emph_step(node, self.state(), true).1
    }

    /// The bright text.
    fn text(&self) -> (r: String)
        ensures
            r@ == sgr(emph_codes(true, self.state().1).0) + trimmed(self.state().0) + sgr(
                emph_codes(true, self.state().1).1,
            ),
    {
        let mut r: Vec<char> = Vec::new();
        if self.in_emphasis {
            push_sgr(&mut r, &vec!['1', ';', '4']);
        } else {
            push_sgr(&mut r, &vec!['1']);
        }
        push_all(&mut r, &trim_by(&self.text, false));
        if self.in_emphasis {
            push_sgr(&mut r, &vec!['2', '4', ';', '2', '2']);
        } else {
            push_sgr(&mut r, &vec!['2', '2']);
        }
        string_of(&r)
    }

    /// Visits `node`.
    fn visit(&mut self, node: &MdastNode)
        ensures
            final(self).state() == emph_step(mdast_view(*node), old(self).state(), true),
    {
        emph_visit(node, &mut self.text, &mut self.in_emphasis, true);
    }
}


/// Gathers the label text of a link.
pub struct MarkdownLinkVisitor {
    text: Vec<char>,
}

impl MarkdownLinkVisitor {
    /// The label text gathered so far.
    pub closed spec fn gathered(&self) -> Seq<char> {
        self.text@
    }

    /// Creates a visitor that has gathered nothing.
    pub fn new() -> (v: Self)
        ensures
            v.gathered() == Seq::<char>::empty(),
    {
        MarkdownLinkVisitor { text: Vec::new() }
    }


}

impl Visitor for MarkdownLinkVisitor {
    open spec fn text_view(&self) -> Seq<char> {
        self.gathered()
    }

    open spec fn visited(&self, node: MdTree, next: Self) -> bool {
        next.gathered() =~= self.gathered() + link_node(node)
    }

    /// The label text.
    fn text(&self) -> (r: String)
        ensures
            r@ == self.gathered(),
    {
        string_of(&self.text)
    }

    /// Visits `node`.
    fn visit(&mut self, node: &MdastNode)
        ensures
            final(self).gathered() == old(self).gathered() + link_node(mdast_view(*node)),
    {
        link_visit(node, &mut self.text);
    }
}


/// Gathers the items of a list and marks them up.
pub struct MarkdownListVisitor {
    list_type: ListType,
    list_item_text: Vec<Vec<char>>,
    textwidth: usize,
}

impl MarkdownListVisitor {
    /// The item texts gathered so far.
    pub closed spec fn items(&self) -> Seq<Seq<char>> {
        views(self.list_item_text@)
    }

    /// The column at which items are wrapped.
    pub closed spec fn width(&self) -> usize {
        self.textwidth
    }

    /// The kind of list.
    pub closed spec fn kind(&self) -> ListType {
        self.list_type
    }

    /// Creates a visitor for a list of the given type that has gathered
    /// no items.
    pub fn new(list_type: ListType, textwidth: &usize) -> (v: Self)
        ensures
            v.items() == Seq::<Seq<char>>::empty(),
            v.width() == *textwidth,
            v.kind() == list_type,
    {
        let v = MarkdownListVisitor { list_type, list_item_text: Vec::new(), textwidth: *textwidth };
        assert(views(v.list_item_text@) =~= Seq::<Seq<char>>::empty());
        v
    }


}

impl Visitor for MarkdownListVisitor {
    open spec fn text_view(&self) -> Seq<char> {
        self.kind().marked(self.items(), self.width())
    }

    open spec fn visited(&self, node: MdTree, next: Self) -> bool {
        &&& next.width() == self.width()
        &&& next.kind() == self.kind()
        &&& next.items() =~= self.items() + list_node(node, self.width())
    }

    /// The marked-up list.
    fn text(&self) -> (r: String)
        ensures
            r@ == self.kind().marked(self.items(), self.width()),
    {
        string_of(&self.list_type.mark(&self.list_item_text, self.textwidth))
    }

    /// Visits `node`, gathering the list items found there.
    fn visit(&mut self, node: &MdastNode)
        ensures
            final(self).width() == old(self).width(),
            final(self).kind() == old(self).kind(),
            final(self).items() == old(self).items() + list_node(mdast_view(*node), old(self).width()),
    {
        list_visit(node, &mut self.list_item_text, self.textwidth);
    }
}


/// Gathers the text of one list item.
pub struct MarkdownListItemVisitor {
    text: Vec<char>,
    textwidth: usize,
}

impl MarkdownListItemVisitor {
    /// The text gathered so far.
    pub closed spec fn gathered(&self) -> Seq<char> {
        self.text@
    }

    /// The column at which nested lists are wrapped.
    pub closed spec fn width(&self) -> usize {
        self.textwidth
    }

    /// Creates a visitor that has gathered nothing.
    pub fn new(textwidth: usize) -> (v: Self)
        ensures
            v.gathered() == Seq::<char>::empty(),
            v.width() == textwidth,
    {
        MarkdownListItemVisitor { text: Vec::new(), textwidth }
    }


}

impl Visitor for MarkdownListItemVisitor {
    open spec fn text_view(&self) -> Seq<char> {
        self.gathered()
    }

    open spec fn visited(&self, node: MdTree, next: Self) -> bool {
        &&& next.width() == self.width()
        &&& next.gathered() =~= self.gathered() + item_node(node, self.width())
    }

    /// The item text.
    fn text(&self) -> (r: String)
        ensures
            r@ == self.gathered(),
    {
        string_of(&self.text)
    }

    /// Visits `node`.
    fn visit(&mut self, node: &MdastNode)
        ensures
            final(self).width() == old(self).width(),
            final(self).gathered() == old(self).gathered() + item_node(mdast_view(*node), old(self).width()),
    {
        item_visit(node, &mut self.text, self.textwidth);
    }
}


/// Gathers the text of a block quote and marks it up.
pub struct MarkdownBlockquoteVisitor {
    text: Vec<char>,
    textwidth: usize,
}

impl MarkdownBlockquoteVisitor {
    /// The text gathered so far.
    pub closed spec fn gathered(&self) -> Seq<char> {
        self.text@
    }

    /// The column at which the quote is wrapped.
    pub closed spec fn width(&self) -> usize {
        self.textwidth
    }

    /// Creates a visitor that has gathered nothing.
    pub fn new(textwidth: usize) -> (v: Self)
        ensures
            v.gathered() == Seq::<char>::empty(),
            v.width() == textwidth,
    {
        MarkdownBlockquoteVisitor { text: Vec::new(), textwidth }
    }


}

impl Visitor for MarkdownBlockquoteVisitor {
    open spec fn text_view(&self) -> Seq<char> {
        filled(trimmed(self.gathered()), self.width(), quote_indent(), quote_indent())
    }

    open spec fn visited(&self, node: MdTree, next: Self) -> bool {
        &&& next.width() == self.width()
        &&& next.gathered() =~= self.gathered() + quote_node(node)
    }

    /// The quoted text, trimmed and wrapped with every line marked by a pipe.
    fn text(&self) -> (r: String)
        ensures
            r@ == filled(trimmed(self.gathered()), self.width(), quote_indent(), quote_indent()),
    {
        let indent = string_of(&vec![' ', ' ', '|', ' ']);
        fill(string_of(&trim_by(&self.text, false)).as_str(), self.textwidth, indent.as_str(), indent.as_str())
    }

    /// Visits `node`.
    fn visit(&mut self, node: &MdastNode)
        ensures
            final(self).width() == old(self).width(),
            final(self).gathered() == old(self).gathered() + quote_node(mdast_view(*node)),
    {
        quote_visit(node, &mut self.text);
    }
}


} // verus!
