pub mod engine;
pub mod json;
pub mod metadata_api;
pub mod resource;
pub mod static_responder;
pub mod path_sanitize;
pub mod text;
