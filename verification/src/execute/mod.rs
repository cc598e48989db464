pub mod router;
pub mod settlement;
pub mod validate;
