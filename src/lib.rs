pub mod codec;
pub mod store;
pub mod service;
pub mod monitor;
