use slide_viewer::build;
use slide_viewer::build_from_events;
use slide_viewer::events::MdEvent;
use slide_viewer::events::RawTag;
use slide_viewer::BlockKind;
use slide_viewer::DocumentNode;
use slide_viewer::Highlighter;
use slide_viewer::MarkupHighlighter;
use slide_viewer::PlainHighlighter;
use slide_viewer::VoidKind;

fn text(s: &str) -> DocumentNode {
    DocumentNode::Text(s.to_string())
}

fn block(kind: BlockKind, children: Vec<DocumentNode>) -> DocumentNode {
    DocumentNode::Block(kind, children)
}

#[test]
fn empty_source_builds_empty_container() {
    let root = build("", &PlainHighlighter {});
    assert_eq!(root, block(BlockKind::Container, vec![]));
}

#[test]
fn single_heading_is_the_root() {
    let root = build("# Hi", &PlainHighlighter {});
    assert_eq!(root, block(BlockKind::Heading(1), vec![text("Hi")]));
}

#[test]
fn paragraph_with_emphasis() {
    let root = build("plain *soft*", &PlainHighlighter {});
    assert_eq!(
        root,
        block(
            BlockKind::Paragraph,
            vec![
                text("plain "),
                block(BlockKind::Emphasis, vec![text("soft")]),
            ],
        )
    );
}

#[test]
fn multiple_top_level_nodes_get_wrapped() {
    let root = build("one\n\ntwo", &PlainHighlighter {});
    assert_eq!(
        root,
        block(
            BlockKind::Container,
            vec![
                block(BlockKind::Paragraph, vec![text("one")]),
                block(BlockKind::Paragraph, vec![text("two")]),
            ],
        )
    );
}

#[test]
fn code_block_fallback_keeps_text_unmodified() {
    let events = vec![
        MdEvent::Start(RawTag::CodeBlockFenced("x".to_string())),
        MdEvent::Text("y".to_string()),
        MdEvent::End(RawTag::CodeBlockFenced("x".to_string())),
    ];
    let root = build_from_events(&events, &PlainHighlighter {});
    assert_eq!(
        root,
        block(
            BlockKind::Container,
            vec![block(
                BlockKind::CodeBlock(Some("x".to_string())),
                vec![DocumentNode::Raw("y".to_string())],
            )],
        )
    );
}

#[test]
fn code_block_uses_highlighter_markup_when_it_succeeds() {
    let events = vec![
        MdEvent::Start(RawTag::CodeBlockFenced("x".to_string())),
        MdEvent::Text("y".to_string()),
        MdEvent::End(RawTag::CodeBlockFenced("x".to_string())),
    ];
    let highlighter = MarkupHighlighter {};
    let expected_markup = highlighter.highlight("y").unwrap();
    assert_eq!(expected_markup, "<code class=\"language-rust\">y</code>");
    let root = build_from_events(&events, &highlighter);
    assert_eq!(
        root,
        block(
            BlockKind::Container,
            vec![block(
                BlockKind::CodeBlock(Some("x".to_string())),
                vec![DocumentNode::Raw(expected_markup)],
            )],
        )
    );
}

#[test]
fn fenced_code_block_from_markdown_is_wrapped_and_highlighted() {
    let root = build("```x\ny\n```", &MarkupHighlighter {});
    assert_eq!(
        root,
        block(
            BlockKind::Container,
            vec![block(
                BlockKind::CodeBlock(Some("x".to_string())),
                vec![DocumentNode::Raw(
                    "<code class=\"language-rust\">y\n</code>".to_string(),
                )],
            )],
        )
    );
}

#[test]
fn lists_keep_their_start_offset() {
    let root = build("3. a\n4. b", &PlainHighlighter {});
    assert_eq!(
        root,
        block(
            BlockKind::OrderedList(3),
            vec![
                block(BlockKind::ListItem, vec![text("a")]),
                block(BlockKind::ListItem, vec![text("b")]),
            ],
        )
    );
}

#[test]
fn unordered_list() {
    let root = build("- a\n- b", &PlainHighlighter {});
    assert_eq!(
        root,
        block(
            BlockKind::UnorderedList,
            vec![
                block(BlockKind::ListItem, vec![text("a")]),
                block(BlockKind::ListItem, vec![text("b")]),
            ],
        )
    );
}

#[test]
fn link_without_title_omits_it() {
    let root = build("[t](/u)", &PlainHighlighter {});
    assert_eq!(
        root,
        block(
            BlockKind::Paragraph,
            vec![block(
                BlockKind::Link("/u".to_string(), None),
                vec![text("t")],
            )],
        )
    );
}

#[test]
fn link_with_title_carries_it() {
    let root = build("[t](/u \"T\")", &PlainHighlighter {});
    assert_eq!(
        root,
        block(
            BlockKind::Paragraph,
            vec![block(
                BlockKind::Link("/u".to_string(), Some("T".to_string())),
                vec![text("t")],
            )],
        )
    );
}

#[test]
fn thematic_break_becomes_a_void_rule() {
    let root = build("a\n\n---\n\nb", &PlainHighlighter {});
    assert_eq!(
        root,
        block(
            BlockKind::Container,
            vec![
                block(BlockKind::Paragraph, vec![text("a")]),
                DocumentNode::Void(VoidKind::Rule),
                block(BlockKind::Paragraph, vec![text("b")]),
            ],
        )
    );
}

#[test]
fn soft_break_becomes_a_newline_text_node() {
    let root = build("a\nb", &PlainHighlighter {});
    assert_eq!(
        root,
        block(BlockKind::Paragraph, vec![text("a"), text("\n"), text("b")])
    );
}

#[test]
fn hard_break_becomes_a_void_line_break() {
    let root = build("a  \nb", &PlainHighlighter {});
    assert_eq!(
        root,
        block(
            BlockKind::Paragraph,
            vec![text("a"), DocumentNode::Void(VoidKind::LineBreak), text("b")],
        )
    );
}

#[test]
fn inline_code_is_observed_but_not_rendered() {
    let root = build("a `code` b", &PlainHighlighter {});
    assert_eq!(
        root,
        block(BlockKind::Paragraph, vec![text("a "), text(" b")])
    );
}

#[test]
fn blockquote_nests_its_paragraph() {
    let root = build("> quoted", &PlainHighlighter {});
    assert_eq!(
        root,
        block(
            BlockKind::BlockQuote,
            vec![block(BlockKind::Paragraph, vec![text("quoted")])],
        )
    );
}

#[test]
fn unmatched_end_events_degrade_gracefully() {
    let events = vec![
        MdEvent::End(RawTag::Paragraph),
        MdEvent::Text("after".to_string()),
    ];
    let root = build_from_events(&events, &PlainHighlighter {});
    assert_eq!(root, text("after"));
}

#[test]
fn unclosed_constructs_are_dropped() {
    let events = vec![
        MdEvent::Start(RawTag::Paragraph),
        MdEvent::Text("a".to_string()),
        MdEvent::End(RawTag::Paragraph),
        MdEvent::Start(RawTag::BlockQuote),
        MdEvent::Text("lost".to_string()),
    ];
    let root = build_from_events(&events, &PlainHighlighter {});
    assert_eq!(root, block(BlockKind::Paragraph, vec![text("a")]));
}

#[test]
fn highlighters_answer_as_promised() {
    assert_eq!(PlainHighlighter {}.highlight("y"), None);
    assert_eq!(
        MarkupHighlighter {}.highlight("a b"),
        Some("<code class=\"language-rust\">a b</code>".to_string())
    );
}

#[test]
fn image_carries_source_and_omits_absent_title() {
    let root = build("![alt](/pic.png)", &PlainHighlighter {});
    assert_eq!(
        root,
        block(
            BlockKind::Paragraph,
            vec![block(
                BlockKind::Image("/pic.png".to_string(), None),
                vec![text("alt")],
            )],
        )
    );
}

#[test]
fn table_and_span_tags_derive_their_blocks() {
    let events = vec![
        MdEvent::Start(RawTag::Table),
        MdEvent::Start(RawTag::TableRow),
        MdEvent::Start(RawTag::TableCell),
        MdEvent::Start(RawTag::Strikethrough),
        MdEvent::Text("gone".to_string()),
        MdEvent::End(RawTag::Strikethrough),
        MdEvent::End(RawTag::TableCell),
        MdEvent::End(RawTag::TableRow),
        MdEvent::End(RawTag::Table),
    ];
    let root = build_from_events(&events, &PlainHighlighter {});
    assert_eq!(
        root,
        block(
            BlockKind::Table,
            vec![block(
                BlockKind::TableRow,
                vec![block(
                    BlockKind::TableCell,
                    vec![block(BlockKind::Strikethrough, vec![text("gone")])],
                )],
            )],
        )
    );
}

#[test]
fn unrendered_events_are_skipped() {
    let events = vec![
        MdEvent::Start(RawTag::Paragraph),
        MdEvent::Other,
        MdEvent::Text("kept".to_string()),
        MdEvent::InlineCode("ignored".to_string()),
        MdEvent::End(RawTag::Paragraph),
    ];
    let root = build_from_events(&events, &PlainHighlighter {});
    assert_eq!(root, block(BlockKind::Paragraph, vec![text("kept")]));
}
