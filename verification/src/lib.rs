//! Account pool management for a gateway in front of an upstream model API:
//! the account model, account selection with sticky sessions and
//! priorities, concurrency slots, session hashing, the request shapes of the
//! upstream calls and the admin handlers' rules.

pub mod error;
pub mod json;
pub mod text;
pub mod model;
pub mod service;
pub mod store;
pub mod handler;
