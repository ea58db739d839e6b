//! A small publishing pipeline: a directive-based plain-text article format,
//! rendered to HTML or Gemtext through template substitution.

pub mod article;
pub mod chars;
pub mod clock;
pub mod errors;
pub mod notes;
pub mod numbers;
pub mod parse;
pub mod render;
pub mod split;
pub mod template;
