//! Requests, replies and errors, between the protocols and one common form.
pub mod anthropic;
pub mod error;
pub mod ext;
pub mod openai_compat;
pub mod types;
