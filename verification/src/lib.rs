//! Verified core of the renderer process: the platform-channel framing, the
//! byte-level decoders, the DOM and HTML rules, the document tree queries,
//! and a document's task, fetch and load-event bookkeeping.

pub mod channel;
pub mod data_url;
pub mod text;
pub mod exceptions;
pub mod names;
pub mod tokens;
pub mod tasks;
pub mod forms;
pub mod elements;
pub mod encoding;
pub mod loads;
pub mod chardata;
pub mod mutation;
pub mod documents;
pub mod stop;
pub mod interfaces;
pub mod frames;
pub mod messaging;
pub mod tree;
pub mod focus;
pub mod attributes;
