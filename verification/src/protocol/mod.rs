pub mod codec;
pub mod messages;
