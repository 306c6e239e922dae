pub mod docker;
pub mod log_buffer;
pub mod manager;
pub mod runner;
