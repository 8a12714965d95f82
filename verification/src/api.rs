pub mod pages;
pub mod export;
pub mod payloads;
pub mod search;
pub mod cache;
