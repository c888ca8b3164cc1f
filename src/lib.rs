pub mod span;
pub mod scope;
pub mod profile;
pub mod extract;
pub mod index;
pub mod config;
pub mod processor;
pub mod person;
pub mod helpers;
pub mod repository;
pub mod nesting;
