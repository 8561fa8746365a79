//! A small URL-shortening library: a validator for target URLs, a random
//! short-code generator, an in-memory link store, and a service layer that
//! ties the three together.

pub mod generate;
pub mod link;
pub mod server;
pub mod service;
pub mod store;
pub mod validate;
