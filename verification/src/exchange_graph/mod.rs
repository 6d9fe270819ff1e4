pub mod error;
pub mod retry;
pub mod types;
