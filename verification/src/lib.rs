//! A minimal product catalog: an in-memory collection of product records
//! behind a repository that serializes access and reports a poisoned state,
//! with handler functions that map repository outcomes to HTTP-shaped replies.

pub mod handlers;
pub mod laws;
pub mod model;
pub mod repository;

pub use model::ProductRecord;
pub use model::ProductView;
