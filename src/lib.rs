pub mod api;
pub mod error;
pub mod laws;
pub mod models;
pub mod store;
