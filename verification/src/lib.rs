pub mod bindings;
pub mod clock;
pub mod content_edit;
pub mod content_laws;
pub mod content_registry;
pub mod difference_laws;
pub mod document_store;
pub mod equality;
pub mod error;
pub mod firing;
pub mod firing_laws;
pub mod json;
pub mod letters;
pub mod path_tree;
pub mod present_laws;
pub mod reading_laws;
pub mod replay_laws;
pub mod rows;
pub mod saving_laws;
pub mod scheduling;
pub mod sdk;
pub mod search;
pub mod storage;
pub mod table;
pub mod telemetry;
pub mod telemetry_laws;
pub mod text;
pub mod text_laws;
pub mod things_client;
pub mod things_content;
pub mod things_crdt;
pub mod things_docs;
pub mod things_events;
pub mod things_laws;
pub mod things_local;
pub mod things_reader;
pub mod things_replay;
pub mod things_store;
pub mod things_types;
pub mod timestamps;
pub mod tree_laws;
pub mod uuids;
pub mod virtual_path;
pub mod wire_laws;
pub mod writing_laws;
