//! Purpose binding: every governed MCP call must declare a processing purpose
//! that is permitted for the tool it targets; a call with a missing or disallowed
//! purpose is rejected before the tool runs.
pub mod claim;
pub mod config;
pub mod filter;
pub mod json;
pub mod purpose;
pub mod text;
