pub mod backend;
pub mod config;
pub mod globals;
pub mod json;
pub mod panel;
pub mod payload;
pub mod request;
pub mod responses;
pub mod settings;
pub mod stream;
pub mod text;
