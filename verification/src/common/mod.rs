pub mod amount;
pub mod collateral;
pub mod error;
pub mod messages;
pub mod msg;
pub mod response;
pub mod search;
pub mod security;
pub mod text;
