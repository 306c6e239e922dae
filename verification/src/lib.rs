pub mod error;
pub mod llm;
pub mod mcp;
pub mod model;
pub mod net;
pub mod order;
pub mod path;
pub mod pattern;
pub mod persistence;
pub mod process;
pub mod text;
pub mod tool;
