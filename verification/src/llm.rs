pub mod bedrock;
pub mod client;
pub mod config;
pub mod embedding;
pub mod openai;
