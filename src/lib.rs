//! A configuration-driven questionnaire engine: question specifications are
//! validated into typed prompt descriptors, the answers collected for them are
//! merged into a persistent answer store, and the store is written back.

pub mod laws;
pub mod node;
pub mod outside;
pub mod parse;
pub mod question;
pub mod reply;
pub mod store;
pub mod suggest;
