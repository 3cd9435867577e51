pub mod errors;
pub mod keys;
pub mod proxy;
pub mod service;
pub mod store;
pub mod text;
