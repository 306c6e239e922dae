pub mod echo;
pub mod file_edit;
pub mod file_list;
pub mod file_read;
pub mod file_search;
pub mod file_write;
pub mod memory;
pub mod pdf;
pub mod pptx;
pub mod research;
pub mod shell;
pub mod text_search;
pub mod transcribe;
pub mod visual;
pub mod web_fetch;
pub mod web_search;
pub mod workspace;
