pub mod ast;
pub mod diagnostics;
pub mod env;
pub mod field_type;
pub mod media;
pub mod ruby;
pub mod tracing;
pub mod template;
pub mod text;
pub mod types;
pub mod validate;
