//! Convert a JSON value tree into a pretty-printed, escaped XML document.
//!
//! The library has two components. The transcoder (`generate_xml`) walks a
//! [`json_value::JsonValue`] tree and decides, for every JSON shape, which
//! markup events it becomes: attribute keys (`@...`) turn into XML
//! attributes, the `$text` key becomes element text, `null` becomes a fixed
//! `<None/>` tag, and arrays are either repeated elements or `Item`-suffixed
//! wrappers. The markup emitter (`xml_utils`) serializes a sequence of such
//! events into indented, escaped XML text and knows nothing about JSON.

pub mod error;
pub mod generate_xml;
pub mod json_utils;
pub mod json_value;
pub mod manifest;
pub mod text;
pub mod xml_utils;
