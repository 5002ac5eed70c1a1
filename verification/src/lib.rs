//! The verified core of a chat-completions provider for NVIDIA NIM endpoints.

pub mod chat_request;
pub mod chat_stream;
pub mod delivery_laws;
pub mod headers;
pub mod json;
pub mod model_laws;
pub mod models;
pub mod protocol;
pub mod provider;
pub mod request_laws;
pub mod stream_laws;
pub mod text;
pub mod view_laws;
