pub mod base;
pub mod manager;
