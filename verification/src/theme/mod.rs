//! Visual design tokens.
pub mod colors;
