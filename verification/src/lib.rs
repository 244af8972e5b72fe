//! A conversational agent framework with verified bounded memory: an
//! iterative reason-act loop over a model capability, a tool registry, and
//! two conversation memories -- a sliding window and a summarizing memory
//! that compresses older turns into a rolling summary within a token
//! budget.

pub mod agent;
pub mod json;
pub mod memory;
pub mod model;
pub mod prompt;
pub mod strutil;
pub mod tokens;
pub mod tool;
