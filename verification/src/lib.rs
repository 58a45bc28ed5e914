//! A combinator framework for recursive-descent parsing over text.
//!
//! A grammar is assembled bottom-up from capability values: regex-backed
//! terminals and the combinators that compose them (ordered sequence, ordered
//! choice, bounded repetition, result transformation, recursive reference).
//! Every capability consumes a prefix of the remaining input through a shared
//! [`buffer::Buffer`] cursor, and the central invariant of the whole engine —
//! a failed attempt never leaves the cursor moved — is stated on the
//! [`parser::Parser`] trait and proved for each combinator.

pub mod buffer;
pub mod parser;
pub mod sequence;
pub mod choice;
pub mod repeat;
pub mod mapped;
pub mod ignore;
pub mod recursive;
pub mod terminal;
pub mod numeric;
