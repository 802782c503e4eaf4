//! Markdown links: the link entity and its builder, the textual forms a
//! link is rendered in, and the rules that derive badges from link URLs.

pub mod definition;
pub mod flags;
pub mod model;
pub mod render;
pub mod rules;
pub mod write;
