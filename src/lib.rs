pub mod batch;
pub mod codec;
pub mod error;
pub mod laws;
pub mod oss;
pub mod profile;
pub mod text;
pub mod text_processor;
pub mod upload;
