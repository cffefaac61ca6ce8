//! The navigation controller: a state machine over the current slide and the
//! lifecycle of its content fetch. It decides; the surrounding program
//! performs the fetches and publishes the location, handing every completion
//! back as a message.

use vstd::prelude::*;

use crate::builder::build;
use crate::builder::spec_build;
use crate::doc::DocTree;
use crate::doc::DocumentNode;
use crate::highlight::Highlighter;
use crate::parse::parse_events_of;
use crate::slides::get_slide;
use crate::slides::resolve_id;
use crate::slides::Slide;
use crate::slides::SlideId;
use vstd::std_specs::cmp::PartialEqSpec;

verus! {

/// One step through the ordered registry.
#[derive(Clone, Copy, Debug)]
pub enum Direction {
    Back,
    Forward,
}

/// A navigation request: a step, or a slide named outright.
#[derive(Clone, Debug)]
pub enum Move {
    ById(SlideId),
    ByDirection(Direction),
}

/// A failed content retrieval, as the transport reported it.
#[derive(Clone, Debug)]
pub struct FetchError {
    pub message: String,
}

/// An event the controller reacts to: a navigation request, the completion of
/// the fetch issued for a slide, or nothing.
pub enum Msg {
    FetchMarkdown(Move),
    ReceiveResponse(usize, Result<String, FetchError>),
    NoOp,
}

/// The lifecycle of the current slide's content.
#[derive(Debug)]
pub enum FetchState {
    Idle,
    /// A fetch was issued for this slide and has not completed.
    InFlight(usize),
    /// The fetch completed and its body was converted into a tree.
    Succeeded(usize, DocumentNode),
    /// The fetch failed; the message stands in place of content.
    Failed(usize, String),
}

/// Mathematical counterpart of `FetchState`.
pub enum FetchSpec {
    Idle,
    InFlight(int),
    Succeeded(int, DocTree),
    Failed(int, Seq<char>),
}

impl DeepView for FetchState {
    type V = FetchSpec;

    open spec fn deep_view(&self) -> FetchSpec {
        match self {
            FetchState::Idle => FetchSpec::Idle,
            FetchState::InFlight(index) => FetchSpec::InFlight(*index as int),
            FetchState::Succeeded(index, tree) => FetchSpec::Succeeded(
                *index as int,
                tree.deep_view(),
            ),
            FetchState::Failed(index, message) => FetchSpec::Failed(
                *index as int,
                message.deep_view(),
            ),
        }
    }
}

/// What the controller was asked to show.
#[derive(Clone, Debug)]
pub struct SlidesProps {
    pub id: SlideId,
}

/// What the surrounding program must do after a step: redraw, issue a fetch
/// for a location, and publish a slug as the new address.
#[derive(Debug)]
pub struct Effects {
    pub redraw: bool,
    pub fetch: Option<String>,
    pub publish: Option<String>,
}

/// The step asked nothing of the surrounding program.
pub open spec fn no_effects() -> Effects {
    Effects { redraw: false, fetch: None, publish: None }
}

/// The navigation controller's state.
#[derive(Debug)]
pub struct SlidesModel {
    /// The registry: ordered, read-only.
    pub slides: Vec<Slide>,
    /// The request the controller was built from, updated by `change`.
    pub props: SlidesProps,
    /// The current slide's position; always within the registry.
    pub number: usize,
    /// The lifecycle of the current content fetch.
    pub fetch: FetchState,
}

impl SlidesModel {
    /// Well-formedness: the registry is never empty, the current position is
    /// in range, and an in-flight fetch is always the current slide's.
    pub open spec fn inv(self) -> bool {
        &&& self.slides.view().len() >= 1
        &&& (self.number as int) < self.slides.view().len()
        &&& (match self.fetch {
            FetchState::Idle => true,
            FetchState::InFlight(j) => j == self.number,
            FetchState::Succeeded(j, _) => (j as int) < self.slides.view().len(),
            FetchState::Failed(j, _) => (j as int) < self.slides.view().len(),
        })
    }
}

/// Where one step in a direction leads: one position over, clamped to the
/// valid range.
pub open spec fn next_index(m: SlidesModel, dir: Direction) -> int {
    match dir {
        Direction::Back => if m.number > 0 {
            m.number - 1
        } else {
            m.number as int
        },
        Direction::Forward => if (m.number + 1) < m.slides.view().len() {
            m.number + 1
        } else {
            m.number as int
        },
    }
}

/// Where a navigation request leads.
pub open spec fn move_target(m: SlidesModel, mv: Move) -> int {
    match mv {
        Move::ByDirection(dir) => next_index(m, dir),
        Move::ById(id) => resolve_id(m.slides.deep_view(), id.deep_view()),
    }
}

/// Whether a completion for this position is authoritative: a fetch for it is
/// in flight and it is still the current slide. Anything else is stale and
/// discarded.
pub open spec fn accepts(m: SlidesModel, index: int) -> bool {
    &&& (m.fetch matches FetchState::InFlight(j) && j as int == index)
    &&& index == m.number as int
}

/// Navigation by direction never leaves the valid range, and at either edge
/// it stays in place.
pub proof fn lemma_navigation_clamped(m: SlidesModel, dir: Direction)
    requires
        m.inv(),
    ensures
        0 <= next_index(m, dir) < m.slides.view().len(),
        (dir is Back && m.number == 0) ==> next_index(m, dir) == m.number as int,
        (dir is Forward && m.number as int == m.slides.view().len() - 1) ==> next_index(m, dir)
            == m.number as int,
{
}

/// A completion for any slide but the current one is never authoritative: a
/// stale result cannot overwrite newer state.
pub proof fn lemma_stale_not_accepted(m: SlidesModel, index: int)
    requires
        index != m.number as int,
    ensures
        !accepts(m, index),
{
}

impl SlidesModel {
    /// Builds the controller for a requested slide and asks for its content:
    /// the fetch for the resolved position is issued at once.
    pub fn new(slides: Vec<Slide>, props: SlidesProps) -> (r: (SlidesModel, Effects))
        requires
            slides.view().len() >= 1,
        ensures
            ({
                let (model, effects) = r;
                &&& model.inv()
                &&& model.slides == slides
                &&& model.props == props
                &&& model.number as int == resolve_id(slides.deep_view(), props.id.deep_view())
                &&& model.fetch == FetchState::InFlight(model.number)
                &&& effects.redraw
                &&& (effects.fetch matches Some(u) && u.view() == slides.deep_view()[model.number
                    as int].url)
                &&& effects.publish is None
            }),
    {
        proof {
            assert(forall|j: int|
                0 <= j < slides.view().len() ==> slides.deep_view()[j]
                    == #[trigger] slides.view()[j].deep_view());
        }
        let number = get_slide(&slides, &props.id);
        let url = slides[number].url.clone();
        let model = SlidesModel { slides, props, number, fetch: FetchState::InFlight(number) };
        (model, Effects { redraw: true, fetch: Some(url), publish: None })
    }

    /// The current slide's position.
    pub fn current_index(&self) -> (index: usize)
        ensures
            index == self.number,
    {
        self.number
    }

    /// The lifecycle of the current content fetch.
    pub fn fetch_state(&self) -> (state: &FetchState)
        ensures
            *state == self.fetch,
    {
        &self.fetch
    }

    /// The current slide.
    pub fn current_slide(&self) -> (slide: &Slide)
        requires
            self.inv(),
        ensures
            *slide == self.slides.view()[self.number as int],
    {
        &self.slides[self.number]
    }

    /// Where one step in a direction leads, as `next_index` describes.
    pub fn get_next(&self, dir: &Direction) -> (index: usize)
        requires
            self.inv(),
        ensures
            index as int == next_index(*self, *dir),
            index < self.slides.view().len(),
    {
        match dir {
            Direction::Back => if self.number > 0 {
                self.number - 1
            } else {
                self.number
            },
            Direction::Forward => if self.number < self.slides.len() - 1 {
                self.number + 1
            } else {
                self.number
            },
        }
    }

    /// One step of the state machine. A navigation request that changes the
    /// current position issues exactly one fetch for the new slide's location,
    /// superseding whatever was in flight; a clamped or unresolved request
    /// that lands on the current position does nothing and issues no fetch. A
    /// completion is taken only while it is authoritative (`accepts`): its
    /// body is converted into a tree on success or its message kept on
    /// failure, and the slide's slug is published either way; a stale
    /// completion changes nothing.
    pub fn update<H: Highlighter>(&mut self, msg: Msg, highlighter: &H) -> (effects: Effects)
        requires
            old(self).inv(),
        ensures
            final(self).inv(),
            final(self).slides == old(self).slides,
            final(self).props == old(self).props,
            (match msg {
                Msg::NoOp => *final(self) == *old(self) && effects == no_effects(),
                Msg::FetchMarkdown(mv) => {
                    let target = move_target(*old(self), mv);
                    if target != old(self).number as int {
                        &&& final(self).number as int == target
                        &&& final(self).fetch == FetchState::InFlight(final(self).number)
                        &&& effects.redraw
                        &&& (effects.fetch matches Some(u) && u.view() == old(
                            self,
                        ).slides.deep_view()[target].url)
                        &&& effects.publish is None
                    } else {
                        *final(self) == *old(self) && effects == no_effects()
                    }
                },
                Msg::ReceiveResponse(index, result) => {
                    if accepts(*old(self), index as int) {
                        &&& final(self).number == old(self).number
                        &&& (match result {
                            Ok(body) => final(self).fetch.deep_view() == FetchSpec::Succeeded(
                                index as int,
                                spec_build(parse_events_of(body.view()), highlighter),
                            ),
                            Err(err) => final(self).fetch.deep_view() == FetchSpec::Failed(
                                index as int,
                                err.message.view(),
                            ),
                        })
                        &&& effects.redraw
                        &&& effects.fetch is None
                        &&& (effects.publish matches Some(slug) && slug.view() == old(
                            self,
                        ).slides.deep_view()[index as int].slug)
                    } else {
                        *final(self) == *old(self) && effects == no_effects()
                    }
                },
            }),
    {
        proof {
            assert(forall|j: int|
                0 <= j < self.slides.view().len() ==> self.slides.deep_view()[j]
                    == #[trigger] self.slides.view()[j].deep_view());
        }
        match msg {
            Msg::NoOp => Effects { redraw: false, fetch: None, publish: None },
            Msg::FetchMarkdown(mv) => {
                let target = match &mv {
                    Move::ByDirection(dir) => self.get_next(dir),
                    Move::ById(id) => get_slide(&self.slides, id),
                };
                if target != self.number {
                    self.number = target;
                    self.fetch = FetchState::InFlight(target);
                    let url = self.slides[target].url.clone();
                    Effects { redraw: true, fetch: Some(url), publish: None }
                } else {
                    Effects { redraw: false, fetch: None, publish: None }
                }
            },
            Msg::ReceiveResponse(index, result) => {
                let live = match &self.fetch {
                    FetchState::InFlight(j) => *j == index,
                    _ => false,
                };
                if live && index == self.number {
                    let slug = self.slides[index].slug.clone();
                    match result {
                        Ok(body) => {
                            let tree = build(body.as_str(), highlighter);
                            self.fetch = FetchState::Succeeded(index, tree);
                        },
                        Err(err) => {
                            self.fetch = FetchState::Failed(index, err.message);
                        },
                    }
                    Effects { redraw: true, fetch: None, publish: Some(slug) }
                } else {
                    Effects { redraw: false, fetch: None, publish: None }
                }
            },
        }
    }

    /// Reacts to a changed request: while no fetch is in flight, a request
    /// for a different slide navigates to it, issues its fetch, and publishes
    /// its slug; the same request, or one arriving mid-fetch, does nothing.
    pub fn change(&mut self, props: SlidesProps) -> (effects: Effects)
        requires
            old(self).inv(),
        ensures
            final(self).inv(),
            final(self).slides == old(self).slides,
            ({
                let target = resolve_id(old(self).slides.deep_view(), props.id.deep_view());
                if !old(self).props.id.eq_spec(&props.id) && !(old(self).fetch
                    matches FetchState::InFlight(_)) {
                    &&& final(self).props == props
                    &&& final(self).number as int == target
                    &&& final(self).fetch == FetchState::InFlight(final(self).number)
                    &&& effects.redraw
                    &&& (effects.fetch matches Some(u) && u.view() == old(
                        self,
                    ).slides.deep_view()[target].url)
                    &&& (effects.publish matches Some(slug) && slug.view() == old(
                        self,
                    ).slides.deep_view()[target].slug)
                } else {
                    *final(self) == *old(self) && effects == no_effects()
                }
            }),
    {
        proof {
            assert(forall|j: int|
                0 <= j < self.slides.view().len() ==> self.slides.deep_view()[j]
                    == #[trigger] self.slides.view()[j].deep_view());
        }
        let same = self.props.id.eq(&props.id);
        let busy = match &self.fetch {
            FetchState::InFlight(_) => true,
            _ => false,
        };
        if !same && !busy {
            let number = get_slide(&self.slides, &props.id);
            self.props = props;
            self.number = number;
            self.fetch = FetchState::InFlight(number);
            let url = self.slides[number].url.clone();
            let slug = self.slides[number].slug.clone();
            Effects { redraw: true, fetch: Some(url), publish: Some(slug) }
        } else {
            Effects { redraw: false, fetch: None, publish: None }
        }
    }
}

} // verus!
