//! A content viewer's core: a markdown-to-document-tree builder and the
//! navigation state machine that keeps the current slide, its content fetch,
//! and the published location consistent.

pub mod builder;
pub mod doc;
pub mod events;
pub mod highlight;
pub mod nav;
pub mod parse;
pub mod routes;
pub mod slides;

pub use builder::build;
pub use builder::build_from_events;
pub use doc::BlockKind;
pub use doc::DocumentNode;
pub use doc::VoidKind;
pub use highlight::Highlighter;
pub use highlight::MarkupHighlighter;
pub use highlight::PlainHighlighter;
pub use nav::Direction;
pub use routes::build_route;
pub use routes::from_route_part;
pub use routes::parse_route;
pub use routes::AppRoute;
pub use routes::UrlSwitch;
pub use nav::Effects;
pub use nav::FetchError;
pub use nav::FetchState;
pub use nav::Move;
pub use nav::Msg;
pub use nav::SlidesModel;
pub use nav::SlidesProps;
pub use slides::default_slides;
pub use slides::PresentationData;
pub use slides::get_slide;
pub use slides::Slide;
pub use slides::SlideId;
