//! The slide registry: an ordered, read-only table of slide descriptors, with
//! lookup by slug or by position.

use vstd::prelude::*;

use crate::doc::DocumentNode;

verus! {

/// One unit of presentation content, addressed by slug and/or position.
#[derive(Clone, Debug, PartialEq)]
pub struct Slide {
    pub slug: String,
    pub tags: Vec<String>,
    pub title: String,
    pub url: String,
}

/// Mathematical counterpart of `Slide`.
pub struct SlideSpec {
    pub slug: Seq<char>,
    pub tags: Seq<Seq<char>>,
    pub title: Seq<char>,
    pub url: Seq<char>,
}

impl DeepView for Slide {
    type V = SlideSpec;

    open spec fn deep_view(&self) -> SlideSpec {
        SlideSpec {
            slug: self.slug.deep_view(),
            tags: self.tags.deep_view(),
            title: self.title.deep_view(),
            url: self.url.deep_view(),
        }
    }
}

/// A request for a slide: by its slug, or by its position.
#[derive(Clone, Debug)]
pub enum SlideId {
    Str(String),
    Num(usize),
}

/// Mathematical counterpart of `SlideId`.
pub enum SlideIdSpec {
    Str(Seq<char>),
    Num(int),
}

impl DeepView for SlideId {
    type V = SlideIdSpec;

    open spec fn deep_view(&self) -> SlideIdSpec {
        match self {
            SlideId::Str(slug) => SlideIdSpec::Str(slug.deep_view()),
            SlideId::Num(index) => SlideIdSpec::Num(*index as int),
        }
    }
}

impl PartialEq for SlideId {
    fn eq(&self, other: &SlideId) -> (r: bool) {
        match (self, other) {
            (SlideId::Str(a), SlideId::Str(b)) => a.eq(b),
            (SlideId::Num(a), SlideId::Num(b)) => *a == *b,
            _ => false,
        }
    }
}

impl vstd::std_specs::cmp::PartialEqSpecImpl for SlideId {
    open spec fn obeys_eq_spec() -> bool {
        true
    }

    open spec fn eq_spec(&self, other: &SlideId) -> bool {
        match (self, other) {
            (SlideId::Str(a), SlideId::Str(b)) => a.view() == b.view(),
            (SlideId::Num(a), SlideId::Num(b)) => a == b,
            _ => false,
        }
    }
}

/// The position of the first slide whose slug matches, or the registry's
/// length when none does.
pub open spec fn slug_index(slides: Seq<SlideSpec>, slug: Seq<char>) -> int
    decreases slides.len(),
{
    if slides.len() == 0 {
        0
    } else if slides.first().slug == slug {
        0
    } else {
        1 + slug_index(slides.drop_first(), slug)
    }
}

/// `slug_index` names the first match, and the length when there is none.
pub proof fn lemma_slug_index(slides: Seq<SlideSpec>, slug: Seq<char>)
    ensures
        0 <= slug_index(slides, slug) <= slides.len(),
        slug_index(slides, slug) < slides.len() ==> slides[slug_index(slides, slug)].slug == slug,
        forall|j: int| 0 <= j < slug_index(slides, slug) ==> #[trigger] slides[j].slug != slug,
        slug_index(slides, slug) == slides.len() ==> forall|j: int|
            0 <= j < slides.len() ==> #[trigger] slides[j].slug != slug,
    decreases slides.len(),
{
    reveal_with_fuel(slug_index, 2);
    if slides.len() > 0 && slides.first().slug != slug {
        let rest = slides.drop_first();
        lemma_slug_index(rest, slug);
        let si = slug_index(slides, slug);
        assert(si == 1 + slug_index(rest, slug));
        assert forall|j: int| 0 <= j < si implies #[trigger] slides[j].slug != slug by {
            if j > 0 {
                assert(slides[j] == rest[j - 1]);
                assert(rest[j - 1].slug != slug);
            }
        }
        if si < slides.len() {
            assert(slides[si] == rest[si - 1]);
        }
        if si == slides.len() {
            assert forall|j: int| 0 <= j < slides.len() implies #[trigger] slides[j].slug
                != slug by {
                if j > 0 {
                    assert(slides[j] == rest[j - 1]);
                    assert(rest[j - 1].slug != slug);
                }
            }
        }
    }
}

/// Where a request resolves to: an in-range position is taken as it is, the
/// first slug match wins, and anything unresolved falls back to the first
/// slide.
pub open spec fn resolve_id(slides: Seq<SlideSpec>, id: SlideIdSpec) -> int {
    match id {
        SlideIdSpec::Num(n) => if 0 <= n < slides.len() {
            n
        } else {
            0
        },
        SlideIdSpec::Str(slug) => {
            let i = slug_index(slides, slug);
            if i < slides.len() {
                i
            } else {
                0
            }
        },
    }
}

/// A resolved request always lies in the valid range.
pub proof fn lemma_resolve_in_range(slides: Seq<SlideSpec>, id: SlideIdSpec)
    requires
        slides.len() >= 1,
    ensures
        0 <= resolve_id(slides, id) < slides.len(),
{
    match id {
        SlideIdSpec::Str(slug) => lemma_slug_index(slides, slug),
        SlideIdSpec::Num(_) => {},
    }
}

/// Resolves a request against the registry, as `resolve_id` describes.
pub fn get_slide(slides: &Vec<Slide>, id: &SlideId) -> (index: usize)
    requires
        slides.view().len() >= 1,
    ensures
        index as int == resolve_id(slides.deep_view(), id.deep_view()),
        index < slides.view().len(),
{
    proof {
        assert(forall|j: int|
            0 <= j < slides.view().len() ==> slides.deep_view()[j] == #[trigger] slides.view()[j].deep_view());
    }
    match id {
        SlideId::Num(n) => {
            if *n < slides.len() {
                *n
            } else {
                0
            }
        },
        SlideId::Str(slug) => {
            let ghost target = slug_index(slides.deep_view(), slug.deep_view());
            proof {
                lemma_slug_index(slides.deep_view(), slug.deep_view());
            }
            let n = slides.len();
            for i in 0..n
                invariant
                    id.deep_view() == SlideIdSpec::Str(slug.deep_view()),
                    n == slides.view().len(),
                    slides.view().len() >= 1,
                    target == slug_index(slides.deep_view(), slug.deep_view()),
                    0 <= target <= slides.view().len(),
                    target < slides.view().len() ==> slides.deep_view()[target].slug
                        == slug.deep_view(),
                    forall|j: int| 0 <= j < target ==> #[trigger] slides.deep_view()[j].slug
                        != slug.deep_view(),
                    target == slides.view().len() ==> forall|j: int|
                        0 <= j < slides.view().len() ==> #[trigger] slides.deep_view()[j].slug
                            != slug.deep_view(),
                    forall|j: int|
                        0 <= j < slides.view().len() ==> slides.deep_view()[j]
                            == #[trigger] slides.view()[j].deep_view(),
                    forall|j: int| 0 <= j < i ==> #[trigger] slides.deep_view()[j].slug
                        != slug.deep_view(),
            {
                if slides[i].slug.eq(slug) {
                    proof {
                        assert(slides.deep_view()[i as int].slug == slug.deep_view());
                        assert(target == i as int) by {
                            if target < i as int {
                                assert(slides.deep_view()[target].slug == slug.deep_view());
                            }
                            if target > i as int {
                                assert(slides.deep_view()[i as int].slug != slug.deep_view());
                            }
                        }
                    }
                    return i;
                }
            }
            proof {
                assert(target == slides.view().len()) by {
                    if target < slides.view().len() {
                        assert(slides.deep_view()[target].slug == slug.deep_view());
                    }
                }
            }
            0
        },
    }
}

/// The slide table the viewer starts from.
pub fn default_slides() -> (slides: Vec<Slide>)
    ensures
        slides.deep_view().len() == 2,
        slides.deep_view()[0] == (SlideSpec {
            slug: "FirstAndForMost"@,
            tags: seq!["Fist"@, "Post"@],
            title: "First"@,
            url: "/api/slide/page_0.md"@,
        }),
        slides.deep_view()[1] == (SlideSpec {
            slug: "SecondAndMiddleMost"@,
            tags: seq!["Second"@, "Post"@],
            title: "Second"@,
            url: "/api/slide/page_1.md"@,
        }),
{
    let mut first_tags: Vec<String> = Vec::new();
    first_tags.push(String::from_str("Fist"));
    first_tags.push(String::from_str("Post"));
    let first = Slide {
        slug: String::from_str("FirstAndForMost"),
        tags: first_tags,
        title: String::from_str("First"),
        url: String::from_str("/api/slide/page_0.md"),
    };
    let mut second_tags: Vec<String> = Vec::new();
    second_tags.push(String::from_str("Second"));
    second_tags.push(String::from_str("Post"));
    let second = Slide {
        slug: String::from_str("SecondAndMiddleMost"),
        tags: second_tags,
        title: String::from_str("Second"),
        url: String::from_str("/api/slide/page_1.md"),
    };
    let mut slides: Vec<Slide> = Vec::new();
    slides.push(first);
    slides.push(second);
    proof {
        assert(first.tags.deep_view() =~= seq!["Fist"@, "Post"@]);
        assert(second.tags.deep_view() =~= seq!["Second"@, "Post"@]);
        assert(slides.deep_view()[0] == slides.view()[0].deep_view());
        assert(slides.deep_view()[1] == slides.view()[1].deep_view());
    }
    slides
}

} // verus!

verus! {

/// A fixed table of pre-built documents, one per slide position.
pub struct PresentationData {
    pub data: Vec<DocumentNode>,
}

impl PresentationData {
    /// A table over the given documents, in slide order.
    pub fn new(data: Vec<DocumentNode>) -> (d: PresentationData)
        ensures
            d.data == data,
    {
        PresentationData { data }
    }

    /// How many slides the table holds.
    pub fn len(&self) -> (n: usize)
        ensures
            n == self.data.view().len(),
    {
        self.data.len()
    }

    /// The document at a position; nothing when the position is out of
    /// range, which the presentation layer shows as an error message.
    pub fn get_content(&self, index: &usize) -> (content: Option<&DocumentNode>)
        ensures
            (*index as int) < self.data.view().len() ==> (content matches Some(c) && *c
                == self.data.view()[*index as int]),
            (*index as int) >= self.data.view().len() ==> content is None,
    {
        if *index < self.data.len() {
            Some(&self.data[*index])
        } else {
            None
        }
    }
}

} // verus!
