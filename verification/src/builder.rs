//! The document builder: a total conversion of a stream of structural events
//! into a single document tree, by a stack of open constructs.

use vstd::prelude::*;

use crate::doc::lemma_nodes_view;
use crate::doc::nodes_view;
use crate::doc::BlockKind;
use crate::doc::BlockSpec;
use crate::doc::DocTree;
use crate::doc::DocumentNode;
use crate::doc::VoidKind;
use crate::events::block_kind_of;
use crate::events::is_code_block;
use crate::events::tag_block_kind;
use crate::events::MdEvent;
use crate::events::MdEventSpec;
use crate::events::RawTag;
use crate::events::RawTagSpec;
use crate::highlight::Highlighter;
use crate::parse::parse_events_of;
use crate::parse::parse_markdown;

verus! {

/// An open construct: its tag and the children completed so far.
pub struct OpenNode {
    pub kind: BlockKind,
    pub children: Vec<DocumentNode>,
}

/// Mathematical counterpart of `OpenNode`.
pub struct OpenSpec {
    pub kind: BlockSpec,
    pub children: Seq<DocTree>,
}

/// The view of one open construct.
pub open spec fn open_node_view(node: OpenNode) -> OpenSpec {
    OpenSpec { kind: node.kind.deep_view(), children: nodes_view(node.children.view()) }
}

/// The views of a stack of open constructs, in order.
pub open spec fn stack_view(stack: Seq<OpenNode>) -> Seq<OpenSpec>
    decreases stack,
{
    if stack.len() == 0 {
        Seq::empty()
    } else {
        stack_view(stack.drop_last()).push(open_node_view(stack.last()))
    }
}

/// `stack_view` maps the sequence elementwise.
pub proof fn lemma_stack_view(stack: Seq<OpenNode>)
    ensures
        stack_view(stack).len() == stack.len(),
        forall|i: int|
            0 <= i < stack.len() ==> #[trigger] stack_view(stack)[i] == open_node_view(stack[i]),
    decreases stack,
{
    reveal_with_fuel(stack_view, 2);
    if stack.len() > 0 {
        lemma_stack_view(stack.drop_last());
        assert forall|i: int| 0 <= i < stack.len() implies #[trigger] stack_view(stack)[i]
            == open_node_view(stack[i]) by {
            if i < stack.len() - 1 {
                assert(stack.drop_last()[i] == stack[i]);
                assert(stack_view(stack)[i] == stack_view(stack.drop_last())[i]);
            } else {
                assert(stack[i] == stack.last());
            }
        }
    }
}

/// The state of one conversion: the stack of open constructs, innermost last,
/// and the completed top-level nodes in order.
pub struct StateSpec {
    pub stack: Seq<OpenSpec>,
    pub roots: Seq<DocTree>,
}

/// The state a conversion starts from.
pub open spec fn init_state() -> StateSpec {
    StateSpec { stack: Seq::empty(), roots: Seq::empty() }
}

/// Attaching a completed node: it becomes the last child of the innermost
/// open construct, or a top-level node when none is open.
pub open spec fn attach(st: StateSpec, node: DocTree) -> StateSpec {
    if st.stack.len() == 0 {
        StateSpec { stack: st.stack, roots: st.roots.push(node) }
    } else {
        let top = st.stack.last();
        let updated = OpenSpec { kind: top.kind, children: top.children.push(node) };
        StateSpec { stack: st.stack.update(st.stack.len() - 1, updated), roots: st.roots }
    }
}

/// Whether literal text arriving in this state is the content of a code block.
pub open spec fn in_code_block(st: StateSpec) -> bool {
    st.stack.len() > 0 && (st.stack.last().kind matches BlockSpec::CodeBlock(_))
}

/// What one event does to the state. An end event with nothing open is
/// ignored rather than failing: a balanced stream never produces one, and a
/// malformed stream degrades gracefully.
pub open spec fn step<H: Highlighter>(st: StateSpec, event: MdEventSpec, h: &H) -> StateSpec {
    match event {
        MdEventSpec::Start(tag) => {
            let opened = OpenSpec { kind: block_kind_of(tag), children: Seq::empty() };
            StateSpec { stack: st.stack.push(opened), roots: st.roots }
        },
        MdEventSpec::End(tag) => {
            if st.stack.len() == 0 {
                st
            } else {
                let top = st.stack.last();
                let popped = StateSpec { stack: st.stack.drop_last(), roots: st.roots };
                let node = DocTree::Block(top.kind, top.children);
                let completed = if is_code_block(tag) {
                    DocTree::Block(BlockSpec::Container, seq![node])
                } else {
                    node
                };
                attach(popped, completed)
            }
        },
        MdEventSpec::Text(text) => {
            if in_code_block(st) {
                let markup = match h.spec_highlight(text) {
                    Some(m) => m,
                    None => text,
                };
                attach(st, DocTree::Raw(markup))
            } else {
                attach(st, DocTree::Text(text))
            }
        },
        MdEventSpec::InlineCode(_) => st,
        MdEventSpec::SoftBreak => attach(st, DocTree::Text("\n"@)),
        MdEventSpec::HardBreak => attach(st, DocTree::Void(VoidKind::LineBreak)),
        MdEventSpec::Rule => attach(st, DocTree::Void(VoidKind::Rule)),
        MdEventSpec::Other => st,
    }
}

/// The state after a whole stream of events, processed in order.
pub open spec fn run<H: Highlighter>(events: Seq<MdEventSpec>, h: &H) -> StateSpec
    decreases events.len(),
{
    if events.len() == 0 {
        init_state()
    } else {
        step(run(events.drop_last(), h), events.last(), h)
    }
}

/// The root of the finished tree: the single completed top-level node, or the
/// synthetic container wrapping zero or several. Constructs the stream left
/// unclosed are dropped with the stack.
pub open spec fn finish(st: StateSpec) -> DocTree {
    if st.roots.len() == 1 {
        st.roots[0]
    } else {
        DocTree::Block(BlockSpec::Container, st.roots)
    }
}

/// The tree a stream of events builds.
pub open spec fn spec_build<H: Highlighter>(events: Seq<MdEventSpec>, h: &H) -> DocTree {
    finish(run(events, h))
}

/// An empty stream of events builds the empty container block: the conversion
/// of an empty source yields a root with no children.
pub proof fn lemma_build_empty<H: Highlighter>(h: &H)
    ensures
        spec_build(Seq::empty(), h) == DocTree::Block(BlockSpec::Container, Seq::<DocTree>::empty()),
{
    reveal_with_fuel(run, 2);
}

/// The code block round trip: a code block with a language hint and one piece
/// of literal text builds a container block whose sole descendant is the code
/// element, whose content is the highlighter's markup when it succeeds and the
/// unmodified text when it is unavailable.
pub proof fn lemma_code_block_round_trip<H: Highlighter>(lang: Seq<char>, body: Seq<char>, h: &H)
    ensures
        ({
            let events = seq![
                MdEventSpec::Start(RawTagSpec::CodeBlockFenced(lang)),
                MdEventSpec::Text(body),
                MdEventSpec::End(RawTagSpec::CodeBlockFenced(lang)),
            ];
            let markup = match h.spec_highlight(body) {
                Some(m) => m,
                None => body,
            };
            spec_build(events, h) == DocTree::Block(
                BlockSpec::Container,
                seq![
                    DocTree::Block(BlockSpec::CodeBlock(Some(lang)), seq![DocTree::Raw(markup)]),
                ],
            )
        }),
{
    let e0 = MdEventSpec::Start(RawTagSpec::CodeBlockFenced(lang));
    let e1 = MdEventSpec::Text(body);
    let e2 = MdEventSpec::End(RawTagSpec::CodeBlockFenced(lang));
    let events = seq![e0, e1, e2];
    let markup = match h.spec_highlight(body) {
        Some(m) => m,
        None => body,
    };
    reveal_with_fuel(run, 4);
    assert(events.drop_last() =~= seq![e0, e1]);
    assert(seq![e0, e1].drop_last() =~= seq![e0]);
    assert(seq![e0].drop_last() =~= Seq::<MdEventSpec>::empty());
    let st1 = run(seq![e0], h);
    let opened = OpenSpec { kind: BlockSpec::CodeBlock(Some(lang)), children: Seq::empty() };
    assert(st1.stack =~= seq![opened]);
    assert(st1.roots =~= Seq::<DocTree>::empty());
    let st2 = run(seq![e0, e1], h);
    assert(in_code_block(st1));
    let filled = OpenSpec {
        kind: BlockSpec::CodeBlock(Some(lang)),
        children: seq![DocTree::Raw(markup)],
    };
    assert(st2.stack =~= seq![filled]) by {
        assert(opened.children.push(DocTree::Raw(markup)) =~= seq![DocTree::Raw(markup)]);
        assert(st1.stack.update(0, OpenSpec {
            kind: opened.kind,
            children: opened.children.push(DocTree::Raw(markup)),
        }) =~= seq![filled]);
    }
    assert(st2.roots =~= Seq::<DocTree>::empty());
    let st3 = run(events, h);
    let inner = DocTree::Block(BlockSpec::CodeBlock(Some(lang)), seq![DocTree::Raw(markup)]);
    let completed = DocTree::Block(BlockSpec::Container, seq![inner]);
    assert(st3 == attach(
        StateSpec { stack: st2.stack.drop_last(), roots: st2.roots },
        completed,
    ));
    assert(st2.stack.drop_last() =~= Seq::<OpenSpec>::empty());
    assert(st3.roots =~= seq![completed]);
    assert(spec_build(events, h) == completed);
}

/// Executable form of `is_code_block`.
fn tag_is_code_block(tag: &RawTag) -> (b: bool)
    ensures
        b == is_code_block(tag.deep_view()),
{
    match tag {
        RawTag::CodeBlockIndented => true,
        RawTag::CodeBlockFenced(_) => true,
        _ => false,
    }
}

/// Whether a derived block tag is a code block.
fn tag_kind_is_code(kind: &BlockKind) -> (b: bool)
    ensures
        b == (kind.deep_view() matches BlockSpec::CodeBlock(_)),
{
    match kind {
        BlockKind::CodeBlock(_) => true,
        _ => false,
    }
}

/// Attaches a completed node to the live state, as `attach` describes.
fn attach_node(stack: &mut Vec<OpenNode>, roots: &mut Vec<DocumentNode>, node: DocumentNode)
    ensures
        ({
            let before = StateSpec {
                stack: stack_view(old(stack).view()),
                roots: nodes_view(old(roots).view()),
            };
            let after = attach(before, node.deep_view());
            stack_view(final(stack).view()) == after.stack && nodes_view(final(roots).view())
                == after.roots
        }),
{
    proof {
        reveal_with_fuel(nodes_view, 2);
        reveal_with_fuel(stack_view, 2);
    }
    let ghost old_stack = stack.view();
    let ghost old_roots = roots.view();
    let ghost node_spec = node.deep_view();
    if stack.len() == 0 {
        roots.push(node);
        proof {
            assert(roots.view().drop_last() =~= old_roots);
            assert(nodes_view(roots.view()) == nodes_view(old_roots).push(node_spec));
        }
    } else {
        let mut top = stack.pop().unwrap();
        let ghost top0 = top;
        top.children.push(node);
        stack.push(top);
        proof {
            lemma_stack_view(old_stack);
            lemma_stack_view(old_stack.drop_last());
            assert(top0 == old_stack.last());
            assert(top.children.view().drop_last() =~= top0.children.view());
            assert(nodes_view(top.children.view()) == nodes_view(top0.children.view()).push(
                node_spec,
            ));
            let updated = OpenSpec {
                kind: open_node_view(top0).kind,
                children: open_node_view(top0).children.push(node_spec),
            };
            assert(open_node_view(top) == updated);
            assert(stack.view().drop_last() =~= old_stack.drop_last());
            assert(stack.view().last() == top);
            assert(stack_view(stack.view()) == stack_view(old_stack.drop_last()).push(
                open_node_view(top),
            ));
            assert(stack_view(old_stack).last() == open_node_view(old_stack.last()));
            assert(stack_view(stack.view()) =~= stack_view(old_stack).update(
                old_stack.len() - 1,
                updated,
            ));
        }
    }
}

/// Converts a stream of structural events into a single document tree; total
/// for every stream, well formed or not.
pub fn build_from_events<H: Highlighter>(events: &Vec<MdEvent>, highlighter: &H) -> (root:
    DocumentNode)
    ensures
        root.deep_view() == spec_build(events.deep_view(), highlighter),
{
    let ghost all = events.deep_view();
    proof {
        assert(forall|j: int|
            0 <= j < events.view().len() ==> all[j] == #[trigger] events.view()[j].deep_view());
    }
    let mut stack: Vec<OpenNode> = Vec::new();
    let mut roots: Vec<DocumentNode> = Vec::new();
    proof {
        reveal_with_fuel(nodes_view, 2);
        reveal_with_fuel(stack_view, 2);
        assert(all.take(0) =~= Seq::<MdEventSpec>::empty());
    }
    let n = events.len();
    for i in 0..n
        invariant
            n == events.len(),
            all == events.deep_view(),
            all.len() == n,
            stack_view(stack.view()) == run(all.take(i as int), highlighter).stack,
            nodes_view(roots.view()) == run(all.take(i as int), highlighter).roots,
    {
        let ghost st0 = run(all.take(i as int), highlighter);
        let ghost event_spec = all[i as int];
        proof {
            reveal_with_fuel(nodes_view, 2);
            reveal_with_fuel(stack_view, 2);
            assert(all.take(i + 1).drop_last() =~= all.take(i as int));
            assert(all.take(i + 1).last() == all[i as int]);
            assert(run(all.take(i + 1), highlighter) == step(st0, event_spec, highlighter));
            assert(event_spec == events.view()[i as int].deep_view());
            lemma_stack_view(stack.view());
        }
        let ghost st1 = step(st0, event_spec, highlighter);
        match &events[i] {
            MdEvent::Start(tag) => {
                let ghost stack_before = stack.view();
                let opened = OpenNode { kind: tag_block_kind(tag), children: Vec::new() };
                let ghost opened_spec = open_node_view(opened);
                proof {
                    assert(opened.children.view() =~= Seq::<DocumentNode>::empty());
                    assert(opened_spec.children =~= Seq::<DocTree>::empty());
                }
                stack.push(opened);
                proof {
                    assert(stack.view().drop_last() =~= stack_before);
                    assert(stack.view().last() == opened);
                    assert(stack_view(stack.view()) == stack_view(stack_before).push(opened_spec));
                    assert(stack_view(stack.view()) == st1.stack);
                }
            },
            MdEvent::End(tag) => {
                if stack.len() > 0 {
                    let ghost stack_before = stack.view();
                    let top = stack.pop().unwrap();
                    let ghost top_spec = open_node_view(top);
                    proof {
                        assert(top == stack_before.last());
                        assert(top_spec == st0.stack.last());
                        assert(stack.view() =~= stack_before.drop_last());
                        lemma_stack_view(stack.view());
                        lemma_stack_view(stack_before);
                        assert(stack_view(stack.view()) =~= st0.stack.drop_last()) by {
                            assert(forall|j: int|
                                0 <= j < stack_before.len() - 1 ==> #[trigger] stack_before.drop_last()[j]
                                    == stack_before[j]);
                        }
                    }
                    let node = DocumentNode::Block(top.kind, top.children);
                    let ghost node_spec = node.deep_view();
                    proof {
                        assert(node_spec == DocTree::Block(top_spec.kind, top_spec.children));
                    }
                    if tag_is_code_block(tag) {
                        let mut wrap_children: Vec<DocumentNode> = Vec::new();
                        wrap_children.push(node);
                        let wrapped = DocumentNode::Block(BlockKind::Container, wrap_children);
                        proof {
                            assert(wrap_children.view().drop_last() =~= Seq::<DocumentNode>::empty());
                            assert(nodes_view(wrap_children.view()) =~= seq![node_spec]);
                            assert(wrapped.deep_view() == DocTree::Block(
                                BlockSpec::Container,
                                seq![node_spec],
                            ));
                        }
                        attach_node(&mut stack, &mut roots, wrapped);
                    } else {
                        attach_node(&mut stack, &mut roots, node);
                    }
                    proof {
                        assert(stack_view(stack.view()) == st1.stack);
                        assert(nodes_view(roots.view()) == st1.roots);
                    }
                }
            },
            MdEvent::Text(text) => {
                let code = if stack.len() > 0 {
                    tag_kind_is_code(&stack[stack.len() - 1].kind)
                } else {
                    false
                };
                proof {
                    assert(stack.view().len() == st0.stack.len());
                    if stack.view().len() > 0 {
                        assert(st0.stack.last() == open_node_view(
                            stack.view()[stack.view().len() - 1],
                        ));
                    }
                    assert(code == in_code_block(st0));
                }
                if code {
                    let markup = match highlighter.highlight(text.as_str()) {
                        Some(m) => m,
                        None => text.clone(),
                    };
                    attach_node(&mut stack, &mut roots, DocumentNode::Raw(markup));
                } else {
                    attach_node(&mut stack, &mut roots, DocumentNode::Text(text.clone()));
                }
            },
            MdEvent::InlineCode(_) => {},
            MdEvent::SoftBreak => {
                attach_node(&mut stack, &mut roots, DocumentNode::Text(String::from_str("\n")));
            },
            MdEvent::HardBreak => {
                attach_node(&mut stack, &mut roots, DocumentNode::Void(VoidKind::LineBreak));
            },
            MdEvent::Rule => {
                attach_node(&mut stack, &mut roots, DocumentNode::Void(VoidKind::Rule));
            },
            MdEvent::Other => {},
        }
    }
    proof {
        assert(all.take(n as int) =~= all);
        lemma_nodes_view(roots.view());
    }
    if roots.len() == 1 {
        let ghost roots_before = roots.view();
        let root = roots.pop().unwrap();
        proof {
            assert(root == roots_before[0]);
            assert(root.deep_view() == nodes_view(roots_before)[0]);
        }
        root
    } else {
        DocumentNode::Block(BlockKind::Container, roots)
    }
}

/// Converts a markdown source into its document tree: the source is read as a
/// stream of structural events, and the tree is built from them.
pub fn build<H: Highlighter>(source: &str, highlighter: &H) -> (root: DocumentNode)
    ensures
        root.deep_view() == spec_build(parse_events_of(source@), highlighter),
{
    let events = parse_markdown(source);
    build_from_events(&events, highlighter)
}

} // verus!
