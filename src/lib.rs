pub mod buffer_position;
pub mod editor_utils;
pub mod client_event;
pub mod text;
pub mod command;
pub mod bytecode;
pub mod compiler;
pub mod vm;
pub mod manager;
pub mod mode;
pub mod arguments;
pub mod cursor;
