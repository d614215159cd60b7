//! Verified core of a scaffolding tool for serverless API projects:
//! template decoding, placeholder substitution, service pruning,
//! and the key and model helpers of the generated project.

pub mod text;
pub mod scaffold;
pub mod base64;
pub mod keys;
pub mod user;
pub mod project;
pub mod template_files;
pub mod handlers;
