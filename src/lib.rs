pub mod memory;
pub mod registry;
pub mod link;
pub mod bridge;
pub mod engine;
