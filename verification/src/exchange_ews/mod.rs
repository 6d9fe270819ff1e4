pub mod error;
pub mod parse;
pub mod retry;
pub mod soap;
pub mod types;
pub mod xml;
pub mod recurrence;
pub mod calendar_map;
pub mod contact_map;
pub mod client;
