pub mod retry;
pub mod session;
pub mod wire;
pub mod blob;
pub mod inflight;
