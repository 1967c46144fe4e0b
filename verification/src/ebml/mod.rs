pub mod element;
pub mod error;
pub mod fields;
pub mod header;
pub mod parse;
pub mod schema;
