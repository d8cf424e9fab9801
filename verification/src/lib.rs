pub mod checkout;
pub mod client;
pub mod errors;
pub mod parser;
pub mod recommend;
pub mod record;
pub mod text;
pub mod timestamp;
pub mod workflow;
