//! Verified core of a multi-city weather report tool: a JSON parser for the
//! weather service's responses, the construction of the request URLs, and the
//! pure part of the fan-out/fan-in coordination, together with a few small
//! scene-building types shared with the graphical front ends.

pub mod chars;
pub mod json;
pub mod parse;
pub mod scene;
pub mod weather;
