//! Searching the things, conversations, notifications and actions of the store.
pub mod document_laws;
pub mod documents;
pub mod fields;
pub mod filter_laws;
pub mod index_laws;
pub mod index_state;
pub mod matching;
pub mod provider;
pub mod query;
pub mod rebuild_laws;
pub mod result_laws;
pub mod results;
pub mod segments;
pub mod tokens;
pub mod worker;
