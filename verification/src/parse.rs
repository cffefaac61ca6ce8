//! The trusted boundary to the markdown tokenizer: pulldown-cmark turns a
//! source string into structural events, which are carried over into the
//! library's own event type one variant at a time.

use vstd::prelude::*;

use crate::events::MdEvent;
use crate::events::MdEventSpec;
use crate::events::RawTag;

verus! {

#[verifier::external_type_specification]
#[verifier::external_body]
pub struct ExEvent<'a>(pulldown_cmark::Event<'a>);

#[verifier::external_type_specification]
#[verifier::external_body]
pub struct ExTag<'a>(pulldown_cmark::Tag<'a>);

/// The event stream that the tokenizer derives from a source text; a function
/// of the text alone.
pub uninterp spec fn parse_events_of(source: Seq<char>) -> Seq<MdEventSpec>;

/// Relies on pulldown_cmark::Tag: one arm per variant of the block-level tags,
/// moving the attribute fields; the span-level rest goes to `convert_span_tag`.
#[verifier::external_body]
fn convert_tag(tag: pulldown_cmark::Tag<'_>) -> RawTag {
    match tag {
        pulldown_cmark::Tag::Paragraph => RawTag::Paragraph,
        pulldown_cmark::Tag::Heading(level) => RawTag::Heading(level),
        pulldown_cmark::Tag::BlockQuote => RawTag::BlockQuote,
        pulldown_cmark::Tag::CodeBlock(pulldown_cmark::CodeBlockKind::Indented) => RawTag::CodeBlockIndented,
        pulldown_cmark::Tag::CodeBlock(pulldown_cmark::CodeBlockKind::Fenced(lang)) => RawTag::CodeBlockFenced(lang.into_string()),
        pulldown_cmark::Tag::List(start) => RawTag::List(start),
        pulldown_cmark::Tag::Item => RawTag::Item,
        pulldown_cmark::Tag::FootnoteDefinition(label) => RawTag::FootnoteDefinition(label.into_string()),
        pulldown_cmark::Tag::Table(_) => RawTag::Table,
        pulldown_cmark::Tag::TableHead => RawTag::TableHead,
        pulldown_cmark::Tag::TableRow => RawTag::TableRow,
        pulldown_cmark::Tag::TableCell => RawTag::TableCell,
        other => convert_span_tag(other),
    }
}

/// Relies on pulldown_cmark::Tag: one arm per variant of the span-level tags,
/// moving the attribute fields. The block-level variants never reach this
/// function; the last arm only satisfies exhaustiveness.
#[verifier::external_body]
fn convert_span_tag(tag: pulldown_cmark::Tag<'_>) -> RawTag {
    match tag {
        pulldown_cmark::Tag::Emphasis => RawTag::Emphasis,
        pulldown_cmark::Tag::Strong => RawTag::Strong,
        pulldown_cmark::Tag::Strikethrough => RawTag::Strikethrough,
        pulldown_cmark::Tag::Link(_, href, title) => RawTag::Link(href.into_string(), title.into_string()),
        pulldown_cmark::Tag::Image(_, src, title) => RawTag::Image(src.into_string(), title.into_string()),
        _ => RawTag::Paragraph,
    }
}

/// Relies on pulldown_cmark::Event: one arm per variant, moving the fields;
/// the kinds the document model does not render become `Other`.
#[verifier::external_body]
fn convert_event(event: pulldown_cmark::Event<'_>) -> MdEvent {
    match event {
        pulldown_cmark::Event::Start(tag) => MdEvent::Start(convert_tag(tag)),
        pulldown_cmark::Event::End(tag) => MdEvent::End(convert_tag(tag)),
        pulldown_cmark::Event::Text(text) => MdEvent::Text(text.into_string()),
        pulldown_cmark::Event::Code(code) => MdEvent::InlineCode(code.into_string()),
        pulldown_cmark::Event::SoftBreak => MdEvent::SoftBreak,
        pulldown_cmark::Event::HardBreak => MdEvent::HardBreak,
        pulldown_cmark::Event::Rule => MdEvent::Rule,
        _ => MdEvent::Other,
    }
}

/// Relies on pulldown_cmark::Parser::new_ext, with no option enabled: the
/// CommonMark event stream of the source, a function of the text alone.
#[verifier::external_body]
pub(crate) fn parse_markdown(source: &str) -> (events: Vec<MdEvent>)
    ensures
        events.deep_view() == parse_events_of(source@),
{
    let mut events: Vec<MdEvent> = Vec::new();
    for event in pulldown_cmark::Parser::new_ext(source, pulldown_cmark::Options::empty()) {
        events.push(convert_event(event));
    }
    events
}

} // verus!
