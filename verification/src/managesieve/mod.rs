pub mod command;
pub mod error;
pub mod name;
pub mod response;
pub mod retry;
