pub mod text;
pub mod models;
pub mod json;
pub mod timefmt;
pub mod paths;
pub mod session;
pub mod api;
