//! The structural events a markdown source is read as, and the derivation
//! of a block tag from each start event.

use vstd::prelude::*;

use crate::doc::BlockKind;
use crate::doc::BlockSpec;

verus! {

/// The tag of a structural construct, with the attributes the source gave it,
/// exactly as the tokenizer reported them.
#[derive(Debug, PartialEq)]
pub enum RawTag {
    Paragraph,
    /// The heading level.
    Heading(u32),
    BlockQuote,
    /// An indented code block, which carries no language hint.
    CodeBlockIndented,
    /// A fenced code block; the field is its language hint, possibly empty.
    CodeBlockFenced(String),
    /// A list; `Some` carries the number of the first item of an ordered list.
    List(Option<u64>),
    Item,
    /// The footnote's label.
    FootnoteDefinition(String),
    Table,
    TableHead,
    TableRow,
    TableCell,
    Emphasis,
    Strong,
    Strikethrough,
    /// Destination URL and title; the title is empty when the source had none.
    Link(String, String),
    /// Source URL and title; the title is empty when the source had none.
    Image(String, String),
}

/// Mathematical counterpart of `RawTag`.
pub enum RawTagSpec {
    Paragraph,
    Heading(u32),
    BlockQuote,
    CodeBlockIndented,
    CodeBlockFenced(Seq<char>),
    List(Option<u64>),
    Item,
    FootnoteDefinition(Seq<char>),
    Table,
    TableHead,
    TableRow,
    TableCell,
    Emphasis,
    Strong,
    Strikethrough,
    Link(Seq<char>, Seq<char>),
    Image(Seq<char>, Seq<char>),
}

impl DeepView for RawTag {
    type V = RawTagSpec;

    open spec fn deep_view(&self) -> RawTagSpec {
        match self {
            RawTag::Paragraph => RawTagSpec::Paragraph,
            RawTag::Heading(level) => RawTagSpec::Heading(*level),
            RawTag::BlockQuote => RawTagSpec::BlockQuote,
            RawTag::CodeBlockIndented => RawTagSpec::CodeBlockIndented,
            RawTag::CodeBlockFenced(lang) => RawTagSpec::CodeBlockFenced(lang.deep_view()),
            RawTag::List(start) => RawTagSpec::List(*start),
            RawTag::Item => RawTagSpec::Item,
            RawTag::FootnoteDefinition(label) => RawTagSpec::FootnoteDefinition(label.deep_view()),
            RawTag::Table => RawTagSpec::Table,
            RawTag::TableHead => RawTagSpec::TableHead,
            RawTag::TableRow => RawTagSpec::TableRow,
            RawTag::TableCell => RawTagSpec::TableCell,
            RawTag::Emphasis => RawTagSpec::Emphasis,
            RawTag::Strong => RawTagSpec::Strong,
            RawTag::Strikethrough => RawTagSpec::Strikethrough,
            RawTag::Link(href, title) => RawTagSpec::Link(href.deep_view(), title.deep_view()),
            RawTag::Image(src, title) => RawTagSpec::Image(src.deep_view(), title.deep_view()),
        }
    }
}

/// One structural event of a markdown source.
#[derive(Debug, PartialEq)]
pub enum MdEvent {
    /// A construct opens.
    Start(RawTag),
    /// A construct closes.
    End(RawTag),
    /// Literal text.
    Text(String),
    /// An inline code span; observed but not rendered as a node of its own.
    InlineCode(String),
    SoftBreak,
    HardBreak,
    /// A thematic break.
    Rule,
    /// An event of a kind the document model does not render.
    Other,
}

/// Mathematical counterpart of `MdEvent`.
pub enum MdEventSpec {
    Start(RawTagSpec),
    End(RawTagSpec),
    Text(Seq<char>),
    InlineCode(Seq<char>),
    SoftBreak,
    HardBreak,
    Rule,
    Other,
}

impl DeepView for MdEvent {
    type V = MdEventSpec;

    open spec fn deep_view(&self) -> MdEventSpec {
        match self {
            MdEvent::Start(tag) => MdEventSpec::Start(tag.deep_view()),
            MdEvent::End(tag) => MdEventSpec::End(tag.deep_view()),
            MdEvent::Text(content) => MdEventSpec::Text(content.deep_view()),
            MdEvent::InlineCode(content) => MdEventSpec::InlineCode(content.deep_view()),
            MdEvent::SoftBreak => MdEventSpec::SoftBreak,
            MdEvent::HardBreak => MdEventSpec::HardBreak,
            MdEvent::Rule => MdEventSpec::Rule,
            MdEvent::Other => MdEventSpec::Other,
        }
    }
}

/// Whether a tag opens a code block, whose text is handed to the highlighter
/// and whose closing gets the extra container wrap.
pub open spec fn is_code_block(tag: RawTagSpec) -> bool {
    match tag {
        RawTagSpec::CodeBlockIndented => true,
        RawTagSpec::CodeBlockFenced(_) => true,
        _ => false,
    }
}

/// The block tag derived from a start event: attributes are carried unchanged,
/// except that an absent optional title is omitted rather than kept empty.
pub open spec fn block_kind_of(tag: RawTagSpec) -> BlockSpec {
    match tag {
        RawTagSpec::Paragraph => BlockSpec::Paragraph,
        RawTagSpec::Heading(level) => BlockSpec::Heading(level),
        RawTagSpec::BlockQuote => BlockSpec::BlockQuote,
        RawTagSpec::CodeBlockIndented => BlockSpec::CodeBlock(None),
        RawTagSpec::CodeBlockFenced(lang) => BlockSpec::CodeBlock(Some(lang)),
        RawTagSpec::List(None) => BlockSpec::UnorderedList,
        RawTagSpec::List(Some(start)) => BlockSpec::OrderedList(start),
        RawTagSpec::Item => BlockSpec::ListItem,
        RawTagSpec::FootnoteDefinition(label) => BlockSpec::FootnoteDefinition(label),
        RawTagSpec::Table => BlockSpec::Table,
        RawTagSpec::TableHead => BlockSpec::TableHead,
        RawTagSpec::TableRow => BlockSpec::TableRow,
        RawTagSpec::TableCell => BlockSpec::TableCell,
        RawTagSpec::Emphasis => BlockSpec::Emphasis,
        RawTagSpec::Strong => BlockSpec::Strong,
        RawTagSpec::Strikethrough => BlockSpec::Strikethrough,
        RawTagSpec::Link(href, title) => BlockSpec::Link(
            href,
            if title.len() == 0 {
                None
            } else {
                Some(title)
            },
        ),
        RawTagSpec::Image(src, title) => BlockSpec::Image(
            src,
            if title.len() == 0 {
                None
            } else {
                Some(title)
            },
        ),
    }
}

/// Executable form of the tag-derivation table.
pub fn tag_block_kind(tag: &RawTag) -> (kind: BlockKind)
    ensures
        kind.deep_view() == block_kind_of(tag.deep_view()),
{
    match tag {
        RawTag::Paragraph => BlockKind::Paragraph,
        RawTag::Heading(level) => BlockKind::Heading(*level),
        RawTag::BlockQuote => BlockKind::BlockQuote,
        RawTag::CodeBlockIndented => BlockKind::CodeBlock(None),
        RawTag::CodeBlockFenced(lang) => BlockKind::CodeBlock(Some(lang.clone())),
        RawTag::List(None) => BlockKind::UnorderedList,
        RawTag::List(Some(start)) => BlockKind::OrderedList(*start),
        RawTag::Item => BlockKind::ListItem,
        RawTag::FootnoteDefinition(label) => BlockKind::FootnoteDefinition(label.clone()),
        RawTag::Table => BlockKind::Table,
        RawTag::TableHead => BlockKind::TableHead,
        RawTag::TableRow => BlockKind::TableRow,
        RawTag::TableCell => BlockKind::TableCell,
        RawTag::Emphasis => BlockKind::Emphasis,
        RawTag::Strong => BlockKind::Strong,
        RawTag::Strikethrough => BlockKind::Strikethrough,
        RawTag::Link(href, title) => BlockKind::Link(
            href.clone(),
            if title.as_str().is_empty() {
                None
            } else {
                Some(title.clone())
            },
        ),
        RawTag::Image(src, title) => BlockKind::Image(
            src.clone(),
            if title.as_str().is_empty() {
                None
            } else {
                Some(title.clone())
            },
        ),
    }
}

} // verus!
