pub mod models;
pub mod json;
pub mod decode;
pub mod fetch;
pub mod database;
pub mod pipeline;
