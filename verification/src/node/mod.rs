pub mod handler;
pub mod model;
pub mod properties;
pub mod query;
pub mod repository;
pub mod service;
pub mod subtree;
