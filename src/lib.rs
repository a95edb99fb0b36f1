//! Mezzanine: an active-learning guessing game.
//!
//! A belief distribution over candidate hypotheses about which subjects
//! "have the property" is narrowed down by asking about well-chosen
//! subjects and conditioning on the answers.
//!
//! - `hypothesis`: what a hypothesis is.
//! - `distribution`: the belief engine, with exact integer weights;
//!   `laws`: what it guarantees across calls.
//! - `triangles`: the subjects of the triangle game; `basics`,
//!   `hypotheses` and `catalogue`: its hypotheses; `priors`: the
//!   complexity prior over them; `search`: sampling for good questions.
//! - `numbers`: hypotheses of the number game.
//! - `display` and `picture`: text layout and pictures of studies;
//!   `describe`: words and numerals; `chance`: the random source.

pub mod chance;
pub mod describe;
pub mod hypothesis;
pub mod distribution;
pub mod laws;
pub mod triangles;
pub mod basics;
pub mod hypotheses;
pub mod catalogue;
pub mod priors;
pub mod search;
pub mod numbers;
pub mod display;
pub mod picture;
