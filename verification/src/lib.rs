//! Decoder and renderer for USB HID report descriptors.
//!
//! The decoder splits a raw byte buffer into tag/length/value items, maps
//! each to a typed item with its decoded numeric value, and assembles the
//! ordered result into a report; the renderer prints the report as aligned
//! hex bytes with an annotation per item, indented by collection nesting.

pub mod decode;
pub mod item;
pub mod render;
pub mod text;

pub use decode::build_report;
pub use item::DecodeError;
pub use item::DescriptorItem;
pub use item::Report;
pub use render::render;
