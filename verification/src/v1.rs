pub mod api;
pub mod errors;
pub mod gemini;
pub mod stream;
pub mod vertexai;
