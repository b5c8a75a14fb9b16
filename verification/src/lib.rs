//! A minimal flashcard review library.
//!
//! Two components: a deck parser that turns a text document into an ordered
//! deck of title/body cards, using a `"# "` heading convention to delimit
//! sections, and a review session state machine that shows a random card's
//! front, reveals its back on demand, and advances to another random card.
//!
//! The hosting shell (windowing, key-event plumbing, file reading) lives
//! outside this crate; it supplies lines of text and two logical input
//! events ("primary" and "cancel") and renders the current title and body.

pub mod errors;
pub mod parser;
mod random;
pub mod session;
