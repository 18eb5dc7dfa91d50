//! Markdown syntax trees and their translation into Typst markup.
//!
//! The children of a root are translated one after the other with nothing
//! between them. Node kinds other than the six that [`MdNode`] names are
//! kept as [`MdNode::Unsupported`] and translate into nothing.

use crate::error::{failure, text_result, J2TError, J2TErrorKindView, J2TErrorView};
use markdown::mdast::Node;
use markdown::message::Message;
use vstd::prelude::*;
use vstd::string::StringExecFns;

verus! {

/// The mathematical content of a Markdown syntax tree.
pub enum MdTree {
    Root { children: Seq<MdTree> },
    Heading { depth: nat, children: Seq<MdTree> },
    Paragraph { children: Seq<MdTree> },
    Text { value: Seq<char> },
    InlineCode { value: Seq<char> },
    Code { lang: Option<Seq<char>>, value: Seq<char> },
    Unsupported,
}

/// A Markdown syntax tree held in memory.
#[derive(Debug, PartialEq, Eq)]
pub enum MdNode {
    /// A whole document.
    Root { children: Vec<MdNode> },
    /// A heading; Markdown knows the depths 1 to 6.
    Heading { depth: u8, children: Vec<MdNode> },
    Paragraph { children: Vec<MdNode> },
    /// Literal text.
    Text { value: String },
    /// Code within a line.
    InlineCode { value: String },
    /// A block of code, with the language it names, if any.
    Code { lang: Option<String>, value: String },
    /// A node of any other kind: a list, emphasis, a link, a block quote, a
    /// table, an image.
    Unsupported,
}

impl MdNode {
    /// The contents of a list of nodes, in order.
    pub open spec fn children_view(children: Seq<MdNode>) -> Seq<MdTree>
        decreases children, 0nat,
    {
        Seq::new(
            children.len(),
            |i: int|
                if 0 <= i < children.len() {
                    children[i].view()
                } else {
                    MdTree::Unsupported
                },
        )
    }
}

impl View for MdNode {
    type V = MdTree;

    open spec fn view(&self) -> MdTree
        decreases self, 1nat,
    {
        match self {
            MdNode::Root { children } => MdTree::Root {
                children: MdNode::children_view(children@),
            },
            MdNode::Heading { depth, children } => MdTree::Heading {
                depth: *depth as nat,
                children: MdNode::children_view(children@),
            },
            MdNode::Paragraph { children } => MdTree::Paragraph {
                children: MdNode::children_view(children@),
            },
            MdNode::Text { value } => MdTree::Text { value: value@ },
            MdNode::InlineCode { value } => MdTree::InlineCode { value: value@ },
            MdNode::Code { lang, value } => MdTree::Code {
                lang: match lang {
                    Some(l) => Some(l@),
                    None => None,
                },
                value: value@,
            },
            MdNode::Unsupported => MdTree::Unsupported,
        }
    }
}

/// The heading marker, `depth` times.
pub open spec fn heading_marker(depth: nat) -> Seq<char> {
    Seq::new(depth, |i: int| '=')
}

/// The Typst markup that a Markdown syntax tree stands for. Text and code
/// are written as they are, with nothing escaped: the body of a code block
/// that holds three backticks in a row ends its own fence early.
pub open spec fn translate(tree: MdTree) -> Seq<char>
    decreases tree, 1nat,
{
    match tree {
        MdTree::Root { children } => translate_all(children),
        MdTree::Heading { depth, children } => heading_marker(depth) + seq![' '] + translate_all(
            children,
        ) + seq!['\n', '\n'],
        MdTree::Paragraph { children } => translate_all(children) + seq!['\n'],
        MdTree::Text { value } => value,
        MdTree::InlineCode { value } => seq!['`'] + value + seq!['`'],
        MdTree::Code { lang, value } => seq!['`', '`', '`'] + (match lang {
            Some(l) => l,
            None => Seq::<char>::empty(),
        }) + seq!['\n'] + value + seq!['`', '`', '`', '\n'],
        MdTree::Unsupported => Seq::<char>::empty(),
    }
}

/// The markup of a list of nodes: that of each, in order, with nothing
/// between them.
pub open spec fn translate_all(children: Seq<MdTree>) -> Seq<char>
    decreases children, 0nat,
{
    if children.len() == 0 {
        Seq::<char>::empty()
    } else {
        translate_all(children.drop_last()) + translate(children.last())
    }
}

/// A heading of depth `depth` becomes `depth` heading markers, one space,
/// the markup of what the heading holds, and two newlines.
pub proof fn lemma_heading_fidelity(depth: nat, children: Seq<MdTree>)
    ensures
        ({
            let markup = translate(MdTree::Heading { depth, children });
            let inner = translate_all(children);
            let d = depth as int;
            let n = inner.len() as int;
            &&& markup.len() == d + 1 + n + 2
            &&& forall|i: int| 0 <= i < d ==> markup[i] == '='
            &&& markup[d] == ' '
            &&& markup.subrange(d + 1, d + 1 + n) == inner
            &&& markup[d + 1 + n] == '\n'
            &&& markup[d + 2 + n] == '\n'
        }),
{
}

/// Appends the heading marker `depth` times.
fn push_heading_marker(depth: u8, out: &mut String)
    ensures
        final(out)@ == old(out)@ + heading_marker(depth as nat),
{
    let mut i: u8 = 0;
    while i < depth
        invariant
            i <= depth,
            out@ == old(out)@ + heading_marker(i as nat),
        decreases depth - i,
    {
        proof {
            reveal_strlit("=");
        }
        out.append("=");
        i += 1;
        assert(out@ == old(out)@ + heading_marker(i as nat));
    }
}

/// Appends the markup of each node of `children`, in order.
fn translate_children(children: &Vec<MdNode>, out: &mut String)
    ensures
        final(out)@ == old(out)@ + translate_all(MdNode::children_view(children@)),
    decreases children,
{
    let ghost trees = MdNode::children_view(children@);
    let mut i: usize = 0;
    assert(trees.take(0) == Seq::<MdTree>::empty());
    while i < children.len()
        invariant
            i <= children.len(),
            trees == MdNode::children_view(children@),
            out@ == old(out)@ + translate_all(trees.take(i as int)),
        decreases children.len() - i,
    {
        assert(trees.take(i + 1).drop_last() == trees.take(i as int));
        assert(trees.take(i + 1).last() == children@[i as int]@);
        markdown_to_typst(&children[i], out);
        i += 1;
    }
    assert(trees.take(i as int) == trees);
}

/// Appends to `out` the Typst markup that the Markdown syntax tree `n`
/// stands for. No kind of node fails: a node of a kind that has no
/// translation adds nothing.
pub fn markdown_to_typst(n: &MdNode, out: &mut String)
    ensures
        final(out)@ == old(out)@ + translate(n@),
    decreases n,
{
    proof {
        reveal_strlit(" ");
        reveal_strlit("\n");
        reveal_strlit("\n\n");
        reveal_strlit("`");
        reveal_strlit("```");
        reveal_strlit("```\n");
    }
    match n {
        MdNode::Root { children } => {
            translate_children(children, out);
        },
        MdNode::Heading { depth, children } => {
            push_heading_marker(*depth, out);
            out.append(" ");
            translate_children(children, out);
            out.append("\n\n");
        },
        MdNode::Paragraph { children } => {
            translate_children(children, out);
            out.append("\n");
        },
        MdNode::Text { value } => {
            out.append(value.as_str());
        },
        MdNode::InlineCode { value } => {
            out.append("`");
            out.append(value.as_str());
            out.append("`");
        },
        MdNode::Code { lang, value } => {
            out.append("```");
            match lang {
                Some(l) => out.append(l.as_str()),
                None => {},
            }
            out.append("\n");
            out.append(value.as_str());
            out.append("```\n");
        },
        MdNode::Unsupported => {},
    }
}

/// A syntax tree as the parser of `markdown` builds it.
#[verifier::external_type_specification]
#[verifier::external_body]
pub struct ExNode(Node);

/// The failure of the parser of `markdown`.
#[verifier::external_type_specification]
#[verifier::external_body]
pub struct ExMessage(Message);

/// What the parser of `markdown` makes of a text under the CommonMark
/// defaults: the tree it reads, or the message of its failure.
pub uninterp spec fn markdown_document(text: Seq<char>) -> Result<MdTree, Seq<char>>;

/// What a tree built by `markdown` holds, as far as [`MdTree`] tells kinds
/// apart.
pub uninterp spec fn mdast_view(node: Node) -> MdTree;

/// The text that a failure of the parser of `markdown` prints.
pub uninterp spec fn markdown_message_text(message: Message) -> Seq<char>;

/// Calls `markdown::to_mdast` with `ParseOptions::default()`. The contract
/// only names the outcome: the tree or the failure that this text gives,
/// each time it is parsed.
#[verifier::external_body]
fn parse_markdown(text: &str) -> (r: Result<Node, Message>)
    ensures
        match r {
            Ok(node) => markdown_document(text@) == Ok::<MdTree, Seq<char>>(mdast_view(node)),
            Err(message) => markdown_document(text@) == Err::<MdTree, Seq<char>>(
                markdown_message_text(message),
            ),
        },
{
    markdown::to_mdast(text, &markdown::ParseOptions::default())
}

/// Moves a `markdown::mdast::Node` into a [`MdNode`], kind by kind; a node
/// of a kind that [`MdNode`] does not name becomes `Unsupported`, and the
/// positions in the source are left behind.
#[verifier::external_body]
fn md_from_node(node: Node) -> (tree: MdNode)
    ensures
        tree@ == mdast_view(node),
{
    match node {
        Node::Root(r) => MdNode::Root { children: r.children.into_iter().map(md_from_node).collect() },
        Node::Heading(h) => MdNode::Heading {
            depth: h.depth,
            children: h.children.into_iter().map(md_from_node).collect(),
        },
        Node::Paragraph(p) => MdNode::Paragraph {
            children: p.children.into_iter().map(md_from_node).collect(),
        },
        Node::Text(t) => MdNode::Text { value: t.value },
        Node::InlineCode(c) => MdNode::InlineCode { value: c.value },
        Node::Code(c) => MdNode::Code { lang: c.lang, value: c.value },
        _ => MdNode::Unsupported,
    }
}

/// Calls `to_string` on a `markdown::message::Message`, which prints the
/// place, the reason, the source and the rule.
#[verifier::external_body]
fn markdown_message(message: &Message) -> (r: String)
    ensures
        r@ == markdown_message_text(*message),
{
    message.to_string()
}

/// What becomes of the outcome of parsing a Markdown text: a tree is
/// translated, a message becomes a `Md` failure.
pub open spec fn typst_of_outcome(parsed: Result<MdTree, Seq<char>>) -> Result<
    Seq<char>,
    J2TErrorView,
> {
    match parsed {
        Ok(tree) => Ok(translate(tree)),
        Err(message) => Err(failure(J2TErrorKindView::Md(message))),
    }
}

/// The Typst markup of a Markdown text: the translation of the tree that the
/// parser reads, or a `Md` failure with the parser's message.
pub open spec fn typst_of_markdown(text: Seq<char>) -> Result<Seq<char>, J2TErrorView> {
    typst_of_outcome(markdown_document(text))
}

/// Translates what the parser made of a Markdown text: a tree into its
/// Typst markup, a message into a `Md` failure.
pub fn typst_of_parsed(parsed: Result<MdNode, String>) -> (r: Result<String, J2TError>)
    ensures
        text_result(r) == typst_of_outcome(
            match parsed {
                Ok(tree) => Ok(tree@),
                Err(message) => Err(message@),
            },
        ),
{
    match parsed {
        Ok(tree) => {
            let mut out = String::new();
            markdown_to_typst(&tree, &mut out);
            Ok(out)
        },
        Err(message) => Err(J2TError::from(message)),
    }
}

/// Parses `s` as Markdown and translates the tree into Typst markup.
pub fn convert_markdown_to_typst(s: &str) -> (r: Result<String, J2TError>)
    ensures
        text_result(r) == typst_of_markdown(s@),
{
    let parsed = match parse_markdown(s) {
        Ok(node) => Ok(md_from_node(node)),
        Err(message) => Err(markdown_message(&message)),
    };
    typst_of_parsed(parsed)
}

} // verus!
