pub mod json;
pub mod json_serde;
pub mod protocol;
pub mod request;
pub mod request_laws;
pub mod retry;
pub mod sse;
pub mod sse_laws;
pub mod text;
