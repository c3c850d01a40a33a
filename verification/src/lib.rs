pub mod barcode;
pub mod catalog;
pub mod command;
pub mod context;
pub mod graphics;
pub mod layout;
pub mod parser;
pub mod render;
pub mod util;
