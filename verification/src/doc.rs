//! The document model: the tree a markdown source is converted into.

use vstd::prelude::*;

verus! {

/// A childless visual element.
#[derive(Clone, Copy, Debug, PartialEq, Eq, Structural)]
pub enum VoidKind {
    LineBreak,
    Rule,
}

/// The tag of a block node, carrying the attributes its source event had.
#[derive(Clone, Debug, PartialEq)]
pub enum BlockKind {
    Paragraph,
    /// The field is the heading level.
    Heading(u32),
    BlockQuote,
    /// The field is the fenced language hint; `None` for an indented block.
    CodeBlock(Option<String>),
    UnorderedList,
    /// The field is the number of the first item.
    OrderedList(u64),
    ListItem,
    /// The field is the footnote's label.
    FootnoteDefinition(String),
    Table,
    TableHead,
    TableRow,
    TableCell,
    Emphasis,
    Strong,
    Strikethrough,
    /// Destination URL and optional title; an absent title is omitted, not
    /// carried as an empty string.
    Link(String, Option<String>),
    /// Source URL and optional title.
    Image(String, Option<String>),
    /// The synthetic wrapper: it groups multiple top-level nodes and gives
    /// highlighted code its own visual container.
    Container,
}

/// Mathematical counterpart of `BlockKind`, over character sequences.
pub enum BlockSpec {
    Paragraph,
    Heading(u32),
    BlockQuote,
    CodeBlock(Option<Seq<char>>),
    UnorderedList,
    OrderedList(u64),
    ListItem,
    FootnoteDefinition(Seq<char>),
    Table,
    TableHead,
    TableRow,
    TableCell,
    Emphasis,
    Strong,
    Strikethrough,
    Link(Seq<char>, Option<Seq<char>>),
    Image(Seq<char>, Option<Seq<char>>),
    Container,
}

impl DeepView for BlockKind {
    type V = BlockSpec;

    open spec fn deep_view(&self) -> BlockSpec {
        match self {
            BlockKind::Paragraph => BlockSpec::Paragraph,
            BlockKind::Heading(level) => BlockSpec::Heading(*level),
            BlockKind::BlockQuote => BlockSpec::BlockQuote,
            BlockKind::CodeBlock(lang) => BlockSpec::CodeBlock(lang.deep_view()),
            BlockKind::UnorderedList => BlockSpec::UnorderedList,
            BlockKind::OrderedList(start) => BlockSpec::OrderedList(*start),
            BlockKind::ListItem => BlockSpec::ListItem,
            BlockKind::FootnoteDefinition(label) => BlockSpec::FootnoteDefinition(
                label.deep_view(),
            ),
            BlockKind::Table => BlockSpec::Table,
            BlockKind::TableHead => BlockSpec::TableHead,
            BlockKind::TableRow => BlockSpec::TableRow,
            BlockKind::TableCell => BlockSpec::TableCell,
            BlockKind::Emphasis => BlockSpec::Emphasis,
            BlockKind::Strong => BlockSpec::Strong,
            BlockKind::Strikethrough => BlockSpec::Strikethrough,
            BlockKind::Link(href, title) => BlockSpec::Link(href.deep_view(), title.deep_view()),
            BlockKind::Image(src, title) => BlockSpec::Image(src.deep_view(), title.deep_view()),
            BlockKind::Container => BlockSpec::Container,
        }
    }
}

/// One node of the document tree. Each node exclusively owns its children;
/// the tree is acyclic and a conversion yields exactly one root.
#[derive(Debug, PartialEq)]
pub enum DocumentNode {
    /// A tagged element with ordered children.
    Block(BlockKind, Vec<DocumentNode>),
    /// Literal text.
    Text(String),
    /// Pre-rendered markup, as the highlighter returned it.
    Raw(String),
    /// A childless element.
    Void(VoidKind),
}

/// Mathematical counterpart of `DocumentNode`.
pub enum DocTree {
    Block(BlockSpec, Seq<DocTree>),
    Text(Seq<char>),
    Raw(Seq<char>),
    Void(VoidKind),
}

impl DeepView for DocumentNode {
    type V = DocTree;

    open spec fn deep_view(&self) -> DocTree
        decreases self,
    {
        match self {
            DocumentNode::Block(kind, children) => DocTree::Block(
                kind.deep_view(),
                nodes_view(children.view()),
            ),
            DocumentNode::Text(content) => DocTree::Text(content.deep_view()),
            DocumentNode::Raw(markup) => DocTree::Raw(markup.deep_view()),
            DocumentNode::Void(kind) => DocTree::Void(*kind),
        }
    }
}

/// The views of a sequence of nodes, in order.
pub open spec fn nodes_view(nodes: Seq<DocumentNode>) -> Seq<DocTree>
    decreases nodes,
{
    if nodes.len() == 0 {
        Seq::empty()
    } else {
        nodes_view(nodes.drop_last()).push(nodes.last().deep_view())
    }
}

/// `nodes_view` maps the sequence elementwise.
pub proof fn lemma_nodes_view(nodes: Seq<DocumentNode>)
    ensures
        nodes_view(nodes).len() == nodes.len(),
        forall|i: int|
            0 <= i < nodes.len() ==> #[trigger] nodes_view(nodes)[i] == nodes[i].deep_view(),
    decreases nodes,
{
    reveal_with_fuel(nodes_view, 2);
    if nodes.len() > 0 {
        lemma_nodes_view(nodes.drop_last());
        assert forall|i: int| 0 <= i < nodes.len() implies #[trigger] nodes_view(nodes)[i]
            == nodes[i].deep_view() by {
            if i < nodes.len() - 1 {
                assert(nodes.drop_last()[i] == nodes[i]);
                assert(nodes_view(nodes)[i] == nodes_view(nodes.drop_last())[i]);
            } else {
                assert(nodes[i] == nodes.last());
            }
        }
    }
}

} // verus!
