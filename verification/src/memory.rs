pub mod base;
pub mod sliding_window;
pub mod summary;
pub mod summary_format;
