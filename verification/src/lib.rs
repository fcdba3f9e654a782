//! Turns flat open-address records into geocodable street and address
//! documents, and holds the decisions of the import run around them.

pub mod text;
pub mod address;
pub mod url_encode;
pub mod json;
pub mod import;
