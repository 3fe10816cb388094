pub mod error;
pub mod item;
pub mod lines;
pub mod messages;
pub mod values;
pub mod fields;
pub mod tooltip_parser;
