//! Parser for flow key definitions: a compact notation naming which packet and
//! flow attributes, and which functions over them, identify a network flow.

pub mod key;
pub mod key_function;
pub mod key_parser;
pub mod notation;
pub mod text;
