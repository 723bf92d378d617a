//! Renders a forum's hottest stories and their comment threads as plain-text
//! Gopher pages: one index, called `gophermap`, and one article for each
//! story.
//!
//! The library computes and decides; it neither sends a request nor writes
//! a file. A program around it fetches the response bodies, hands them over
//! parsed, and writes the pages it gets back.
//!
//! - [`fetch`] builds the addresses to request and turns a response into
//!   records, by way of [`json`] and [`decode`];
//! - [`data`] holds the records;
//! - [`text`] cleans, wraps and indents submitted text;
//! - [`render`] lays out the two kinds of page;
//! - [`work`] is the work on one story, and on all of them;
//! - [`run`] says which step of a run comes next and when the run is over;
//! - [`numbers`] writes integers in decimal;
//! - [`error`] names what can go wrong.
//!
//! Every function states what it returns over mathematical values, and
//! Verus proves that it does. A few calls leave the library, into `chrono`,
//! `deunicode`, `regex`, `textwrap` and `url`; each is made by a function
//! marked `external_body`, whose contract is believed, not proved.

pub mod data;
pub mod decode;
pub mod error;
pub mod fetch;
pub mod json;
pub mod numbers;
pub mod render;
pub mod run;
pub mod text;
pub mod work;
