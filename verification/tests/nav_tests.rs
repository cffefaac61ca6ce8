use slide_viewer::get_slide;
use slide_viewer::BlockKind;
use slide_viewer::Direction;
use slide_viewer::DocumentNode;
use slide_viewer::FetchError;
use slide_viewer::FetchState;
use slide_viewer::Move;
use slide_viewer::Msg;
use slide_viewer::PlainHighlighter;
use slide_viewer::PresentationData;
use slide_viewer::Slide;
use slide_viewer::SlideId;
use slide_viewer::SlidesModel;
use slide_viewer::SlidesProps;

fn slide(slug: &str, title: &str, url: &str) -> Slide {
    Slide {
        slug: slug.to_string(),
        tags: vec![],
        title: title.to_string(),
        url: url.to_string(),
    }
}

fn two_slides() -> Vec<Slide> {
    vec![slide("first", "First", "/a"), slide("second", "Second", "/b")]
}

fn forward() -> Msg {
    Msg::FetchMarkdown(Move::ByDirection(Direction::Forward))
}

fn backward() -> Msg {
    Msg::FetchMarkdown(Move::ByDirection(Direction::Back))
}

#[test]
fn construction_resolves_and_fetches() {
    let props = SlidesProps { id: SlideId::Str("first".to_string()) };
    let (model, effects) = SlidesModel::new(two_slides(), props);
    assert_eq!(model.current_index(), 0);
    assert!(matches!(model.fetch_state(), FetchState::InFlight(0)));
    assert!(effects.redraw);
    assert_eq!(effects.fetch, Some("/a".to_string()));
    assert_eq!(effects.publish, None);
}

#[test]
fn successful_fetch_builds_the_tree_and_publishes() {
    let props = SlidesProps { id: SlideId::Str("first".to_string()) };
    let (mut model, _) = SlidesModel::new(two_slides(), props);
    let effects = model.update(
        Msg::ReceiveResponse(0, Ok("# Hi".to_string())),
        &PlainHighlighter {},
    );
    assert_eq!(model.current_index(), 0);
    match model.fetch_state() {
        FetchState::Succeeded(0, tree) => {
            assert_eq!(
                *tree,
                DocumentNode::Block(
                    BlockKind::Heading(1),
                    vec![DocumentNode::Text("Hi".to_string())],
                )
            );
        }
        other => panic!("unexpected fetch state: {:?}", other),
    }
    assert!(effects.redraw);
    assert_eq!(effects.fetch, None);
    assert_eq!(effects.publish, Some("first".to_string()));
}

#[test]
fn superseded_fetch_is_discarded_until_the_live_one_lands() {
    let props = SlidesProps { id: SlideId::Str("first".to_string()) };
    let (mut model, _) = SlidesModel::new(two_slides(), props);
    let hl = PlainHighlighter {};
    model.update(Msg::ReceiveResponse(0, Ok("# Hi".to_string())), &hl);

    let effects = model.update(forward(), &hl);
    assert_eq!(model.current_index(), 1);
    assert!(matches!(model.fetch_state(), FetchState::InFlight(1)));
    assert_eq!(effects.fetch, Some("/b".to_string()));

    let effects = model.update(backward(), &hl);
    assert_eq!(model.current_index(), 0);
    assert!(matches!(model.fetch_state(), FetchState::InFlight(0)));
    assert_eq!(effects.fetch, Some("/a".to_string()));

    // The earlier fetch for "/b" resolves late: index 1 no longer matches.
    let effects = model.update(Msg::ReceiveResponse(1, Ok("# Bye".to_string())), &hl);
    assert_eq!(model.current_index(), 0);
    assert!(matches!(model.fetch_state(), FetchState::InFlight(0)));
    assert!(!effects.redraw);
    assert_eq!(effects.fetch, None);
    assert_eq!(effects.publish, None);

    // The live fetch for "/a" resolves and is taken.
    let effects = model.update(Msg::ReceiveResponse(0, Ok("fresh".to_string())), &hl);
    match model.fetch_state() {
        FetchState::Succeeded(0, tree) => {
            assert_eq!(
                *tree,
                DocumentNode::Block(
                    BlockKind::Paragraph,
                    vec![DocumentNode::Text("fresh".to_string())],
                )
            );
        }
        other => panic!("unexpected fetch state: {:?}", other),
    }
    assert_eq!(effects.publish, Some("first".to_string()));
}

#[test]
fn failed_fetch_keeps_the_message_and_navigation_goes_on() {
    let props = SlidesProps { id: SlideId::Num(0) };
    let (mut model, _) = SlidesModel::new(two_slides(), props);
    let hl = PlainHighlighter {};
    let error = FetchError { message: "connection reset".to_string() };
    let effects = model.update(Msg::ReceiveResponse(0, Err(error)), &hl);
    match model.fetch_state() {
        FetchState::Failed(0, message) => assert_eq!(message, "connection reset"),
        other => panic!("unexpected fetch state: {:?}", other),
    }
    assert!(effects.redraw);
    assert_eq!(effects.publish, Some("first".to_string()));

    let effects = model.update(forward(), &hl);
    assert_eq!(model.current_index(), 1);
    assert!(matches!(model.fetch_state(), FetchState::InFlight(1)));
    assert_eq!(effects.fetch, Some("/b".to_string()));
}

#[test]
fn forward_at_the_last_slide_is_a_no_op_without_fetch() {
    let props = SlidesProps { id: SlideId::Num(1) };
    let (mut model, _) = SlidesModel::new(two_slides(), props);
    let hl = PlainHighlighter {};
    let effects = model.update(forward(), &hl);
    assert_eq!(model.current_index(), 1);
    assert!(!effects.redraw);
    assert_eq!(effects.fetch, None);
    assert_eq!(effects.publish, None);
}

#[test]
fn backward_at_the_first_slide_is_a_no_op_without_fetch() {
    let props = SlidesProps { id: SlideId::Num(0) };
    let (mut model, _) = SlidesModel::new(two_slides(), props);
    let hl = PlainHighlighter {};
    let effects = model.update(backward(), &hl);
    assert_eq!(model.current_index(), 0);
    assert!(!effects.redraw);
    assert_eq!(effects.fetch, None);
}

#[test]
fn index_stays_in_range_under_rapid_input() {
    let props = SlidesProps { id: SlideId::Num(0) };
    let (mut model, _) = SlidesModel::new(two_slides(), props);
    let hl = PlainHighlighter {};
    for _ in 0..5 {
        model.update(forward(), &hl);
    }
    assert_eq!(model.current_index(), 1);
    for _ in 0..7 {
        model.update(backward(), &hl);
    }
    assert_eq!(model.current_index(), 0);
}

#[test]
fn unknown_slug_falls_back_to_the_first_slide() {
    let slides = two_slides();
    assert_eq!(get_slide(&slides, &SlideId::Str("nowhere".to_string())), 0);
}

#[test]
fn out_of_range_position_falls_back_to_the_first_slide() {
    let slides = two_slides();
    assert_eq!(get_slide(&slides, &SlideId::Num(9)), 0);
}

#[test]
fn slug_lookup_finds_the_first_match() {
    let mut slides = two_slides();
    slides.push(slide("second", "Again", "/c"));
    assert_eq!(get_slide(&slides, &SlideId::Str("second".to_string())), 1);
}

#[test]
fn move_by_id_navigates_and_fetches() {
    let props = SlidesProps { id: SlideId::Num(0) };
    let (mut model, _) = SlidesModel::new(two_slides(), props);
    let hl = PlainHighlighter {};
    let effects = model.update(
        Msg::FetchMarkdown(Move::ById(SlideId::Str("second".to_string()))),
        &hl,
    );
    assert_eq!(model.current_index(), 1);
    assert!(matches!(model.fetch_state(), FetchState::InFlight(1)));
    assert_eq!(effects.fetch, Some("/b".to_string()));
}

#[test]
fn no_op_message_changes_nothing() {
    let props = SlidesProps { id: SlideId::Num(0) };
    let (mut model, _) = SlidesModel::new(two_slides(), props);
    let effects = model.update(Msg::NoOp, &PlainHighlighter {});
    assert!(!effects.redraw);
    assert_eq!(effects.fetch, None);
    assert_eq!(effects.publish, None);
    assert_eq!(model.current_index(), 0);
}

#[test]
fn change_navigates_when_no_fetch_is_in_flight() {
    let props = SlidesProps { id: SlideId::Num(0) };
    let (mut model, _) = SlidesModel::new(two_slides(), props);
    let hl = PlainHighlighter {};
    model.update(Msg::ReceiveResponse(0, Ok("x".to_string())), &hl);
    let effects = model.change(SlidesProps { id: SlideId::Num(1) });
    assert_eq!(model.current_index(), 1);
    assert!(matches!(model.fetch_state(), FetchState::InFlight(1)));
    assert_eq!(effects.fetch, Some("/b".to_string()));
    assert_eq!(effects.publish, Some("second".to_string()));
}

#[test]
fn change_mid_fetch_is_deferred() {
    let props = SlidesProps { id: SlideId::Num(0) };
    let (mut model, _) = SlidesModel::new(two_slides(), props);
    let effects = model.change(SlidesProps { id: SlideId::Num(1) });
    assert_eq!(model.current_index(), 0);
    assert!(matches!(model.fetch_state(), FetchState::InFlight(0)));
    assert_eq!(effects.fetch, None);
    assert_eq!(effects.publish, None);
}

#[test]
fn change_to_the_same_request_is_a_no_op() {
    let props = SlidesProps { id: SlideId::Num(0) };
    let (mut model, _) = SlidesModel::new(two_slides(), props);
    let hl = PlainHighlighter {};
    model.update(Msg::ReceiveResponse(0, Ok("x".to_string())), &hl);
    let effects = model.change(SlidesProps { id: SlideId::Num(0) });
    assert_eq!(model.current_index(), 0);
    assert!(!effects.redraw);
    assert_eq!(effects.fetch, None);
}

#[test]
fn default_registry_matches_the_static_table() {
    let slides = slide_viewer::default_slides();
    assert_eq!(slides.len(), 2);
    assert_eq!(slides[0].slug, "FirstAndForMost");
    assert_eq!(slides[0].title, "First");
    assert_eq!(slides[0].tags, vec!["Fist".to_string(), "Post".to_string()]);
    assert_eq!(slides[0].url, "/api/slide/page_0.md");
    assert_eq!(slides[1].slug, "SecondAndMiddleMost");
    assert_eq!(slides[1].title, "Second");
    assert_eq!(slides[1].tags, vec!["Second".to_string(), "Post".to_string()]);
    assert_eq!(slides[1].url, "/api/slide/page_1.md");
    assert_eq!(get_slide(&slides, &SlideId::Str("SecondAndMiddleMost".to_string())), 1);
}

#[test]
fn current_slide_follows_navigation() {
    let props = SlidesProps { id: SlideId::Num(0) };
    let (mut model, _) = SlidesModel::new(two_slides(), props);
    assert_eq!(model.current_slide().title, "First");
    model.update(forward(), &PlainHighlighter {});
    assert_eq!(model.current_slide().title, "Second");
}

#[test]
fn presentation_table_is_bounds_checked() {
    let data = vec![
        DocumentNode::Text("one".to_string()),
        DocumentNode::Text("two".to_string()),
    ];
    let table = PresentationData::new(data);
    assert_eq!(table.len(), 2);
    assert_eq!(table.get_content(&1), Some(&DocumentNode::Text("two".to_string())));
    assert_eq!(table.get_content(&2), None);
}
