//! Net Promoter Score summaries.
//!
//! A survey asks how likely a customer is to recommend something, on a scale
//! from 0 to 10. This crate holds one answer as a [`Rating`] and reduces a
//! batch of answers to a [`Summary`]: promoter, passive and detractor counts,
//! a histogram over the eleven possible values, and the score itself as an
//! exact fraction.

pub mod rating;
pub mod summary;

pub use rating::InvalidRating;
pub use rating::Rating;
pub use summary::Score;
pub use summary::Summary;
