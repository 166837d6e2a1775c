//! Media sources of a music player: the SoundCloud catalog, cover lookups and the home page.
//!
//! Everything here is a pure decision on plain values. Each conversation with the outside
//! world is a sequence of steps: a step says what to do next, and the answer is handed back
//! to the value that the step carries.

pub mod artwork;
pub mod cover;
pub mod home;
pub mod json;
pub mod request;
pub mod resolve;
pub mod scrape;
pub mod search;
pub mod text;
pub mod track;
