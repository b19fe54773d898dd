//! A two-resource task-tracking backend core: stories own tasks, clients page
//! through story collections with opaque cursor tokens, and every mutation
//! follows a fetch-then-mutate protocol against the backing store.
pub mod domain;
pub mod error;
pub mod page;
pub mod repo;
pub mod service_story;
pub mod service_task;
pub mod storage;
pub mod store;
