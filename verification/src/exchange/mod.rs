pub mod tz;
