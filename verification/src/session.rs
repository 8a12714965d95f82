pub mod parser;
pub mod store;
pub mod index;
