pub mod handler;
pub mod validate;
