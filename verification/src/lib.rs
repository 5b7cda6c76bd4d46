//! Core logic of a public-transit connection search client: a favorites
//! store with change notification, a self-maintaining list of intermediate
//! stops ("vias"), a date/time selector that reconciles presets and manual
//! fields into one canonical instant, the search-request builder, and the
//! typed model of returned itineraries with its rendering.
//!
//! Window chrome, widget layout, HTTP transport and JSON decoding are left
//! to the surrounding application, which talks to this library in plain
//! values.

pub mod autocomplete;
pub mod clock;
pub mod codec;
pub mod dates;
pub mod digits;
pub mod favorites;
pub mod form;
pub mod models;
pub mod render;
pub mod request;
pub mod selector;
pub mod text;
pub mod vias;
