//! OpenRouter model catalog resolution and the recently-used OpenRouter model
//! list, with the `/model` popup rows built from it.

pub mod text;
pub mod recents;
pub mod catalog;
pub mod popup;
pub mod runtime;
