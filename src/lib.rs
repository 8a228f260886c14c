pub mod broadcast;
pub mod message;
pub mod relay;
pub mod stream;
