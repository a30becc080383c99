//! Flashcards for language study: cards of a word, its pinyin and its
//! translation, kept in a list still to learn and a list already known.
//!
//! - [`card`]: the card and its model.
//! - [`codec`]: cards from and to CSV text.
//! - [`order`]: orders in which a list can be put, and a random one.
//! - [`session`]: the live session with its cursor, reveal stage and study
//!   direction.
//! - [`laws`]: what holds of a session after any run of operations.
//! - [`registry`]: the named datasets.
//! - [`workspace`]: session and datasets together, with every change to the
//!   cards written through to the selected dataset.

pub mod card;
pub mod codec;
pub mod laws;
pub mod order;
pub mod registry;
pub mod session;
pub mod workspace;
