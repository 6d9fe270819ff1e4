pub mod automap;
pub mod error;
pub mod retry;
