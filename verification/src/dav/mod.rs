pub mod href;
pub mod parse;
pub mod retry;
pub mod xml;
