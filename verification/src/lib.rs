pub mod assemble;
pub mod config;
pub mod dates;
pub mod document;
pub mod error;
pub mod events;
pub mod render;
pub mod site;
pub mod title;
