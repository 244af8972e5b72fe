pub mod base;
pub mod schema;
