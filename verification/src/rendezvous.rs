pub mod hash;
pub mod node;
pub mod ranking;
