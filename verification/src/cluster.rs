pub mod broadcast;
pub mod member;
pub mod members;
pub mod membership;
pub mod message;
pub mod metadata;

pub use broadcast::MessageHandler;
