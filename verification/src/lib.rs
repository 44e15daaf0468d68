//! A text-parsing engine built from small, composable recognizers combined
//! with a fixed algebra of operators: sequencing, ordered choice with
//! first-symbol prediction, and repetition with optional separators.
//!
//! The engine offers a fast evaluation path (`match_fast`) and a diagnostic
//! path (`match_tracked`) that additionally reports the line/column position
//! reached; both paths carry proved contracts against one spec-level
//! semantics, `spec_parse`.

pub mod builder;
pub mod engine;
pub mod laws;
pub mod location;
pub mod number;
pub mod parser;
pub mod pattern;
pub mod value;

pub use location::Location;
pub use number::Number;
pub use parser::Parser;
pub use value::Value;
